# akars

Control software for the AKA-00 tennis-ball robot on the SG2002 board: a
YOLOv8 detector on the board's TPU finds balls in USB camera frames, and a
small state machine chases, aligns with and grabs them with the wheel motors
and the arm.

The library (`src/`) is verified with Verus:

- `robot` — the hunter's decisions: from the largest ball of a frame (or
  none) to the next state and the list of motor, arm and sleep actions to
  carry out; the centering margin and turning-pulse limits; the frame
  bookkeeping of the capture loop; stop requests.
- `cli` — the command-line grammar of the four commands (hunt, `serve`,
  `detect`, `capture`), with their defaults and error messages.
- `grammar` — laws of those grammars: which command lines are accepted,
  and that each setting is the value of its last option or its default.
- `number` — decimal integers as the standard library reads them.
- `tpu` — runtime errors, the output tensor formats that inference reads,
  and how runtime failures are reported.

`app/` holds the program around it: argument collection, the calls into
the camera, motor and arm drivers and the TPU runtime, the capture loop
(which runs inference and reports timing; it does not steer), a routine
that carries out the actions decided for one frame, which the loop does not
call, and everything that computes in floating point (box areas, area
ratios, tensor conversion, frame rates).

The drivers that `app/` calls (`arm`, `camera`, `motor`, `detector`,
`linux`, `web`) and the timing type of the inference runtime
(`InferTiming`, `YoloModel::infer_timed`) are not part of this source tree,
so `app/` does not build on its own.
