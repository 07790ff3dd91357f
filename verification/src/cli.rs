//! The command line: which command runs, and with which settings.
//!
//! Each word of the command line comes as an [`Arg`] that already says
//! whether the word reads as a floating-point number and as a socket
//! address; everything else about the grammar is decided here.
use crate::number::{i32_from_text, parse_i32, parse_u32, parse_u64, u32_from_text, u64_from_text};
use vstd::prelude::*;

verus! {

/// One word of the command line.
pub struct Arg {
    pub text: String,
    /// Whether `text` reads as an `f32`.
    pub is_float: bool,
    /// Whether `text` reads as a socket address (`HOST:PORT`).
    pub is_socket_addr: bool,
}

/// Settings of the tennis hunter.
#[derive(Debug)]
pub struct Cli {
    /// Path of the model file.
    pub model: String,
    pub camera: String,
    pub motor: String,
    pub arm: String,
    /// Stop after this many frames.
    pub frames: Option<u64>,
    pub classes: i32,
    /// Confidence threshold, as written (it reads as an `f32`).
    pub conf: String,
    /// NMS IOU threshold, as written (it reads as an `f32`).
    pub iou: String,
}

/// Settings of the web control server.
#[derive(Debug)]
pub struct ServeCli {
    /// Listening address, as written (it reads as a socket address).
    pub listen: String,
    pub motor_device: String,
    pub arm_device: String,
    pub mock: bool,
}

/// Settings of the single-image inference test.
#[derive(Debug)]
pub struct DetectCli {
    pub model: String,
    pub input: String,
    pub output: String,
    pub classes: i32,
    pub conf: String,
    pub iou: String,
}

/// Settings of the camera capture test.
#[derive(Debug)]
pub struct CaptureCli {
    pub camera: String,
    pub output: String,
    /// Frames discarded before the one kept.
    pub warmup: u32,
}

/// Which usage text to show.
#[derive(Clone, Copy, Debug, PartialEq, Eq, Structural)]
pub enum Usage {
    Main,
    Serve,
    Detect,
    Capture,
}

/// What the command line asks for.
#[derive(Debug)]
pub enum Command {
    Hunt(Cli),
    Serve(ServeCli),
    Detect(DetectCli),
    Capture(CaptureCli),
    /// Show the usage text and exit successfully.
    Help(Usage),
}

// ---------------------------------------------------------------------------
// Mathematical model
// ---------------------------------------------------------------------------

pub struct CliView {
    pub model: Seq<char>,
    pub camera: Seq<char>,
    pub motor: Seq<char>,
    pub arm: Seq<char>,
    pub frames: Option<u64>,
    pub classes: i32,
    pub conf: Seq<char>,
    pub iou: Seq<char>,
}

pub struct ServeView {
    pub listen: Seq<char>,
    pub motor_device: Seq<char>,
    pub arm_device: Seq<char>,
    pub mock: bool,
}

pub struct DetectView {
    pub model: Seq<char>,
    pub input: Seq<char>,
    pub output: Seq<char>,
    pub classes: i32,
    pub conf: Seq<char>,
    pub iou: Seq<char>,
}

pub struct CaptureView {
    pub camera: Seq<char>,
    pub output: Seq<char>,
    pub warmup: u32,
}

pub enum CommandView {
    Hunt(CliView),
    Serve(ServeView),
    Detect(DetectView),
    Capture(CaptureView),
    Help(Usage),
}

impl View for Cli {
    type V = CliView;

    open spec fn view(&self) -> CliView {
        CliView {
            model: self.model@,
            camera: self.camera@,
            motor: self.motor@,
            arm: self.arm@,
            frames: self.frames,
            classes: self.classes,
            conf: self.conf@,
            iou: self.iou@,
        }
    }
}

impl View for ServeCli {
    type V = ServeView;

    open spec fn view(&self) -> ServeView {
        ServeView {
            listen: self.listen@,
            motor_device: self.motor_device@,
            arm_device: self.arm_device@,
            mock: self.mock,
        }
    }
}

impl View for DetectCli {
    type V = DetectView;

    open spec fn view(&self) -> DetectView {
        DetectView {
            model: self.model@,
            input: self.input@,
            output: self.output@,
            classes: self.classes,
            conf: self.conf@,
            iou: self.iou@,
        }
    }
}

impl View for CaptureCli {
    type V = CaptureView;

    open spec fn view(&self) -> CaptureView {
        CaptureView { camera: self.camera@, output: self.output@, warmup: self.warmup }
    }
}

impl View for Command {
    type V = CommandView;

    open spec fn view(&self) -> CommandView {
        match self {
            Command::Hunt(c) => CommandView::Hunt(c@),
            Command::Serve(c) => CommandView::Serve(c@),
            Command::Detect(c) => CommandView::Detect(c@),
            Command::Capture(c) => CommandView::Capture(c@),
            Command::Help(u) => CommandView::Help(*u),
        }
    }
}

/// A parse result, with commands and messages taken by their views.
pub open spec fn outcome(r: Result<Command, String>) -> Result<CommandView, Seq<char>> {
    match r {
        Ok(c) => Ok(c@),
        Err(e) => Err(e@),
    }
}

pub open spec fn default_cli() -> CliView {
    CliView {
        model: Seq::empty(),
        camera: "/dev/cvi-usb-camera0"@,
        motor: "/dev/ttyS3"@,
        arm: "/dev/ttyS2"@,
        frames: None,
        classes: 1,
        conf: "0.5"@,
        iou: "0.5"@,
    }
}

pub open spec fn default_serve() -> ServeView {
    ServeView {
        listen: "0.0.0.0:8080"@,
        motor_device: "/dev/ttyS3"@,
        arm_device: "/dev/ttyS2"@,
        mock: false,
    }
}

pub open spec fn default_detect() -> DetectView {
    DetectView {
        model: Seq::empty(),
        input: Seq::empty(),
        output: "detect_out.jpg"@,
        classes: 1,
        conf: "0.5"@,
        iou: "0.5"@,
    }
}

pub open spec fn default_capture() -> CaptureView {
    CaptureView { camera: "/dev/cvi-usb-camera0"@, output: "capture.jpg"@, warmup: 30 }
}

pub open spec fn is_help(t: Seq<char>) -> bool {
    t == "-h"@ || t == "--help"@
}

pub open spec fn is_out(t: Seq<char>) -> bool {
    t == "-o"@ || t == "--out"@
}

pub open spec fn starts_with_dash(t: Seq<char>) -> bool {
    t.len() > 0 && t[0] == '-'
}

/// The message for an option given as the last word, with no value after it.
pub open spec fn expects_value(option: Seq<char>) -> Seq<char> {
    option + " expects a value"@
}

/// The value of the option at `i`: the word after it, if there is one.
pub open spec fn value_after(args: Seq<Arg>, i: int) -> Option<Arg> {
    if 0 <= i && i + 1 < args.len() {
        Some(args[i + 1])
    } else {
        None
    }
}

/// The hunter's command line from word `i` on, with `cli` read so far.
pub open spec fn hunt_scan(args: Seq<Arg>, i: int, cli: CliView) -> Result<CommandView, Seq<char>>
    decreases args.len() - i,
{
    if i < 0 || i >= args.len() {
        if cli.model.len() == 0 {
            Err("missing cvimodel path"@)
        } else {
            Ok(CommandView::Hunt(cli))
        }
    } else {
        let t = args[i].text@;
        if is_help(t) {
            Ok(CommandView::Help(Usage::Main))
        } else if t == "--camera"@ {
            match value_after(args, i) {
                Some(v) => hunt_scan(args, i + 2, CliView { camera: v.text@, ..cli }),
                None => Err(expects_value("--camera"@)),
            }
        } else if t == "--motor"@ {
            match value_after(args, i) {
                Some(v) => hunt_scan(args, i + 2, CliView { motor: v.text@, ..cli }),
                None => Err(expects_value("--motor"@)),
            }
        } else if t == "--arm"@ {
            match value_after(args, i) {
                Some(v) => hunt_scan(args, i + 2, CliView { arm: v.text@, ..cli }),
                None => Err(expects_value("--arm"@)),
            }
        } else if t == "--frames"@ {
            match value_after(args, i) {
                Some(v) => match u64_from_text(v.text@) {
                    Some(n) => hunt_scan(args, i + 2, CliView { frames: Some(n), ..cli }),
                    None => Err("--frames expects an integer"@),
                },
                None => Err(expects_value("--frames"@)),
            }
        } else if t == "--classes"@ {
            match value_after(args, i) {
                Some(v) => match i32_from_text(v.text@) {
                    Some(n) => hunt_scan(args, i + 2, CliView { classes: n, ..cli }),
                    None => Err("--classes expects an integer"@),
                },
                None => Err(expects_value("--classes"@)),
            }
        } else if t == "--conf"@ {
            match value_after(args, i) {
                Some(v) => if v.is_float {
                    hunt_scan(args, i + 2, CliView { conf: v.text@, ..cli })
                } else {
                    Err("--conf expects a float"@)
                },
                None => Err(expects_value("--conf"@)),
            }
        } else if t == "--iou"@ {
            match value_after(args, i) {
                Some(v) => if v.is_float {
                    hunt_scan(args, i + 2, CliView { iou: v.text@, ..cli })
                } else {
                    Err("--iou expects a float"@)
                },
                None => Err(expects_value("--iou"@)),
            }
        } else if starts_with_dash(t) {
            Err("unknown option: "@ + t)
        } else if cli.model.len() == 0 {
            hunt_scan(args, i + 1, CliView { model: t, ..cli })
        } else {
            Err("unexpected positional argument: "@ + t)
        }
    }
}

/// The server's command line from word `i` on, with `cfg` read so far.
pub open spec fn serve_scan(args: Seq<Arg>, i: int, cfg: ServeView) -> Result<CommandView, Seq<char>>
    decreases args.len() - i,
{
    if i < 0 || i >= args.len() {
        Ok(CommandView::Serve(cfg))
    } else {
        let t = args[i].text@;
        if is_help(t) {
            Ok(CommandView::Help(Usage::Serve))
        } else if t == "--listen"@ {
            match value_after(args, i) {
                Some(v) => if v.is_socket_addr {
                    serve_scan(args, i + 2, ServeView { listen: v.text@, ..cfg })
                } else {
                    Err("--listen expects HOST:PORT, for example 0.0.0.0:8080"@)
                },
                None => Err(expects_value("--listen"@)),
            }
        } else if t == "--motor"@ {
            match value_after(args, i) {
                Some(v) => serve_scan(args, i + 2, ServeView { motor_device: v.text@, ..cfg }),
                None => Err(expects_value("--motor"@)),
            }
        } else if t == "--arm"@ {
            match value_after(args, i) {
                Some(v) => serve_scan(args, i + 2, ServeView { arm_device: v.text@, ..cfg }),
                None => Err(expects_value("--arm"@)),
            }
        } else if t == "--mock"@ {
            serve_scan(args, i + 1, ServeView { mock: true, ..cfg })
        } else if starts_with_dash(t) {
            Err("unknown serve option: "@ + t)
        } else {
            Err("unexpected serve argument: "@ + t)
        }
    }
}

/// The inference test's command line from word `i` on, with `cli` read so
/// far and `positional` plain words taken.
pub open spec fn detect_scan(args: Seq<Arg>, i: int, cli: DetectView, positional: int) -> Result<
    CommandView,
    Seq<char>,
>
    decreases args.len() - i,
{
    if i < 0 || i >= args.len() {
        if cli.model.len() == 0 {
            Err("missing cvimodel path"@)
        } else if cli.input.len() == 0 {
            Err("missing input image path"@)
        } else {
            Ok(CommandView::Detect(cli))
        }
    } else {
        let t = args[i].text@;
        if is_help(t) {
            Ok(CommandView::Help(Usage::Detect))
        } else if is_out(t) {
            match value_after(args, i) {
                Some(v) => detect_scan(args, i + 2, DetectView { output: v.text@, ..cli }, positional),
                None => Err(expects_value("--out"@)),
            }
        } else if t == "--classes"@ {
            match value_after(args, i) {
                Some(v) => match i32_from_text(v.text@) {
                    Some(n) => detect_scan(args, i + 2, DetectView { classes: n, ..cli }, positional),
                    None => Err("--classes expects an integer"@),
                },
                None => Err(expects_value("--classes"@)),
            }
        } else if t == "--conf"@ {
            match value_after(args, i) {
                Some(v) => if v.is_float {
                    detect_scan(args, i + 2, DetectView { conf: v.text@, ..cli }, positional)
                } else {
                    Err("--conf expects a float"@)
                },
                None => Err(expects_value("--conf"@)),
            }
        } else if t == "--iou"@ {
            match value_after(args, i) {
                Some(v) => if v.is_float {
                    detect_scan(args, i + 2, DetectView { iou: v.text@, ..cli }, positional)
                } else {
                    Err("--iou expects a float"@)
                },
                None => Err(expects_value("--iou"@)),
            }
        } else if starts_with_dash(t) {
            Err("unknown detect option: "@ + t)
        } else if positional == 0 {
            detect_scan(args, i + 1, DetectView { model: t, ..cli }, 1)
        } else if positional == 1 {
            detect_scan(args, i + 1, DetectView { input: t, ..cli }, 2)
        } else {
            Err("unexpected detect argument: "@ + t)
        }
    }
}

/// The capture test's command line from word `i` on, with `cli` read so
/// far and `positional` plain words taken.
pub open spec fn capture_scan(args: Seq<Arg>, i: int, cli: CaptureView, positional: int) -> Result<
    CommandView,
    Seq<char>,
>
    decreases args.len() - i,
{
    if i < 0 || i >= args.len() {
        Ok(CommandView::Capture(cli))
    } else {
        let t = args[i].text@;
        if is_help(t) {
            Ok(CommandView::Help(Usage::Capture))
        } else if t == "--camera"@ {
            match value_after(args, i) {
                Some(v) => capture_scan(args, i + 2, CaptureView { camera: v.text@, ..cli }, positional),
                None => Err(expects_value("--camera"@)),
            }
        } else if is_out(t) {
            match value_after(args, i) {
                Some(v) => capture_scan(args, i + 2, CaptureView { output: v.text@, ..cli }, positional),
                None => Err(expects_value("--out"@)),
            }
        } else if t == "--warmup"@ {
            match value_after(args, i) {
                Some(v) => match u32_from_text(v.text@) {
                    Some(n) => capture_scan(args, i + 2, CaptureView { warmup: n, ..cli }, positional),
                    None => Err("--warmup expects a non-negative integer"@),
                },
                None => Err(expects_value("--warmup"@)),
            }
        } else if starts_with_dash(t) {
            Err("unknown capture option: "@ + t)
        } else if positional == 0 {
            capture_scan(args, i + 1, CaptureView { output: t, ..cli }, 1)
        } else {
            Err("unexpected capture argument: "@ + t)
        }
    }
}

/// The whole command line: a leading `serve`, `detect` or `capture` picks
/// that command and the rest are its words; otherwise every word belongs
/// to the hunter.
pub open spec fn command_line(args: Seq<Arg>) -> Result<CommandView, Seq<char>> {
    if args.len() > 0 && args[0].text@ == "serve"@ {
        serve_scan(args, 1, default_serve())
    } else if args.len() > 0 && args[0].text@ == "detect"@ {
        detect_scan(args, 1, default_detect(), 0)
    } else if args.len() > 0 && args[0].text@ == "capture"@ {
        capture_scan(args, 1, default_capture(), 0)
    } else {
        hunt_scan(args, 0, default_cli())
    }
}

// ---------------------------------------------------------------------------
// Laws of the command line
// ---------------------------------------------------------------------------

/// The hunter never runs without a model path: whenever its command line
/// is accepted, the model path is not empty.
pub proof fn lemma_hunt_has_model(args: Seq<Arg>, i: int, cli: CliView)
    ensures
        hunt_scan(args, i, cli) matches Ok(CommandView::Hunt(c)) ==> c.model.len() > 0,
    decreases args.len() - i,
{
    if 0 <= i < args.len() {
        let t = args[i].text@;
        if i + 1 < args.len() {
            let v = args[i + 1];
            lemma_hunt_has_model(args, i + 2, CliView { camera: v.text@, ..cli });
            lemma_hunt_has_model(args, i + 2, CliView { motor: v.text@, ..cli });
            lemma_hunt_has_model(args, i + 2, CliView { arm: v.text@, ..cli });
            if let Some(n) = u64_from_text(v.text@) {
                lemma_hunt_has_model(args, i + 2, CliView { frames: Some(n), ..cli });
            }
            if let Some(n) = i32_from_text(v.text@) {
                lemma_hunt_has_model(args, i + 2, CliView { classes: n, ..cli });
            }
            lemma_hunt_has_model(args, i + 2, CliView { conf: v.text@, ..cli });
            lemma_hunt_has_model(args, i + 2, CliView { iou: v.text@, ..cli });
        }
        lemma_hunt_has_model(args, i + 1, CliView { model: t, ..cli });
    }
}

/// The inference test never runs without a model and an input image:
/// whenever its command line is accepted, both paths are not empty.
pub proof fn lemma_detect_has_paths(args: Seq<Arg>, i: int, cli: DetectView, positional: int)
    ensures
        detect_scan(args, i, cli, positional) matches Ok(CommandView::Detect(c)) ==> c.model.len() > 0
            && c.input.len() > 0,
    decreases args.len() - i,
{
    if 0 <= i < args.len() {
        let t = args[i].text@;
        if i + 1 < args.len() {
            let v = args[i + 1];
            lemma_detect_has_paths(args, i + 2, DetectView { output: v.text@, ..cli }, positional);
            if let Some(n) = i32_from_text(v.text@) {
                lemma_detect_has_paths(args, i + 2, DetectView { classes: n, ..cli }, positional);
            }
            lemma_detect_has_paths(args, i + 2, DetectView { conf: v.text@, ..cli }, positional);
            lemma_detect_has_paths(args, i + 2, DetectView { iou: v.text@, ..cli }, positional);
        }
        lemma_detect_has_paths(args, i + 1, DetectView { model: t, ..cli }, 1);
        lemma_detect_has_paths(args, i + 1, DetectView { input: t, ..cli }, 2);
    }
}

/// A command line whose first word is `-h` or `--help` shows the main
/// usage text, whatever follows.
pub proof fn lemma_leading_help(args: Seq<Arg>)
    requires
        args.len() > 0,
        args[0].text@ == "-h"@ || args[0].text@ == "--help"@,
    ensures
        command_line(args) == Ok::<CommandView, Seq<char>>(CommandView::Help(Usage::Main)),
{
    reveal_strlit("serve");
    reveal_strlit("detect");
    reveal_strlit("capture");
    reveal_strlit("-h");
    reveal_strlit("--help");
    assert(args[0].text@ != "serve"@ && args[0].text@ != "detect"@ && args[0].text@ != "capture"@)
        by {
        if args[0].text@ == "-h"@ {
            assert(args[0].text@.len() != "serve"@.len());
            assert(args[0].text@.len() != "detect"@.len());
            assert(args[0].text@.len() != "capture"@.len());
        } else {
            assert(args[0].text@[0] != "serve"@[0]);
            assert(args[0].text@[0] != "detect"@[0]);
            assert(args[0].text@[0] != "capture"@[0]);
        }
    }
}

// ---------------------------------------------------------------------------
// Text helpers
// ---------------------------------------------------------------------------

fn text_is(s: &String, lit: &str) -> (r: bool)
    ensures
        r == (s@ == lit@),
{
    *s == String::from_str(lit)
}

fn dashed(s: &String) -> (r: bool)
    ensures
        r == starts_with_dash(s@),
{
    let t = s.as_str();
    t.unicode_len() > 0 && t.get_char(0) == '-'
}

fn prefixed(prefix: &str, value: &String) -> (r: String)
    ensures
        r@ == prefix@ + value@,
{
    String::from_str(prefix).concat(value.as_str())
}

fn message(text: &str) -> (r: String)
    ensures
        r@ == text@,
{
    String::from_str(text)
}

/// The word after the option at `next - 1`: its text, or the message that
/// `option` expects a value.
pub fn take_value(args: &Vec<Arg>, next: usize, option: &str) -> (r: Result<String, String>)
    ensures
        next < args.len() ==> (r matches Ok(v) && v@ == args@[next as int].text@),
        next >= args.len() ==> (r matches Err(e) && e@ == expects_value(option@)),
{
    if next < args.len() {
        Ok(args[next].text.clone())
    } else {
        Err(String::from_str(option).concat(" expects a value"))
    }
}

// ---------------------------------------------------------------------------
// Defaults
// ---------------------------------------------------------------------------

impl Default for Cli {
    fn default() -> (c: Cli)
        ensures
            c@ == default_cli(),
    {
        Cli {
            model: String::new(),
            camera: message("/dev/cvi-usb-camera0"),
            motor: message("/dev/ttyS3"),
            arm: message("/dev/ttyS2"),
            frames: None,
            classes: 1,
            conf: message("0.5"),
            iou: message("0.5"),
        }
    }
}

impl Default for ServeCli {
    fn default() -> (c: ServeCli)
        ensures
            c@ == default_serve(),
    {
        ServeCli {
            listen: message("0.0.0.0:8080"),
            motor_device: message("/dev/ttyS3"),
            arm_device: message("/dev/ttyS2"),
            mock: false,
        }
    }
}

impl Default for DetectCli {
    fn default() -> (c: DetectCli)
        ensures
            c@ == default_detect(),
    {
        DetectCli {
            model: String::new(),
            input: String::new(),
            output: message("detect_out.jpg"),
            classes: 1,
            conf: message("0.5"),
            iou: message("0.5"),
        }
    }
}

impl Default for CaptureCli {
    fn default() -> (c: CaptureCli)
        ensures
            c@ == default_capture(),
    {
        CaptureCli {
            camera: message("/dev/cvi-usb-camera0"),
            output: message("capture.jpg"),
            warmup: 30,
        }
    }
}


// ---------------------------------------------------------------------------
// Parsers
// ---------------------------------------------------------------------------

/// The hunter's command line, read from word `start` on: the model path
/// (required), `--camera`, `--motor`, `--arm`, `--frames N`, `--classes N`,
/// `--conf X`, `--iou X`; `-h` or `--help` asks for the usage text. The
/// first word that does not fit decides the error.
pub fn parse_hunt_cli(args: &Vec<Arg>, start: usize) -> (r: Result<Command, String>)
    ensures
        outcome(r) == hunt_scan(args@, start as int, default_cli()),
{
    let mut cli = Cli::default();
    let n = args.len();
    let mut i = start;
    while i < n
        invariant
            n == args.len(),
            hunt_scan(args@, start as int, default_cli()) == hunt_scan(args@, i as int, cli@),
        decreases n - i,
    {
        let t = &args[i].text;
        if text_is(t, "-h") || text_is(t, "--help") {
            return Ok(Command::Help(Usage::Main));
        } else if text_is(t, "--camera") {
            cli.camera = take_value(args, i + 1, "--camera")?;
            i = i + 2;
        } else if text_is(t, "--motor") {
            cli.motor = take_value(args, i + 1, "--motor")?;
            i = i + 2;
        } else if text_is(t, "--arm") {
            cli.arm = take_value(args, i + 1, "--arm")?;
            i = i + 2;
        } else if text_is(t, "--frames") {
            let v = take_value(args, i + 1, "--frames")?;
            match parse_u64(v.as_str()) {
                Some(frames) => {
                    cli.frames = Some(frames);
                    i = i + 2;
                },
                None => {
                    return Err(message("--frames expects an integer"));
                },
            }
        } else if text_is(t, "--classes") {
            let v = take_value(args, i + 1, "--classes")?;
            match parse_i32(v.as_str()) {
                Some(classes) => {
                    cli.classes = classes;
                    i = i + 2;
                },
                None => {
                    return Err(message("--classes expects an integer"));
                },
            }
        } else if text_is(t, "--conf") {
            let v = take_value(args, i + 1, "--conf")?;
            if !args[i + 1].is_float {
                return Err(message("--conf expects a float"));
            }
            cli.conf = v;
            i = i + 2;
        } else if text_is(t, "--iou") {
            let v = take_value(args, i + 1, "--iou")?;
            if !args[i + 1].is_float {
                return Err(message("--iou expects a float"));
            }
            cli.iou = v;
            i = i + 2;
        } else if dashed(t) {
            return Err(prefixed("unknown option: ", t));
        } else if cli.model.as_str().is_empty() {
            cli.model = t.clone();
            i = i + 1;
        } else {
            return Err(prefixed("unexpected positional argument: ", t));
        }
    }
    if cli.model.as_str().is_empty() {
        Err(message("missing cvimodel path"))
    } else {
        Ok(Command::Hunt(cli))
    }
}

/// The server's command line, read from word `start` on: `--listen
/// HOST:PORT`, `--motor`, `--arm`, `--mock`; `-h` or `--help` asks for the
/// usage text. Plain words are not accepted.
pub fn parse_serve_cli(args: &Vec<Arg>, start: usize) -> (r: Result<Command, String>)
    ensures
        outcome(r) == serve_scan(args@, start as int, default_serve()),
{
    let mut cfg = ServeCli::default();
    let n = args.len();
    let mut i = start;
    while i < n
        invariant
            n == args.len(),
            serve_scan(args@, start as int, default_serve()) == serve_scan(args@, i as int, cfg@),
        decreases n - i,
    {
        let t = &args[i].text;
        if text_is(t, "-h") || text_is(t, "--help") {
            return Ok(Command::Help(Usage::Serve));
        } else if text_is(t, "--listen") {
            let v = take_value(args, i + 1, "--listen")?;
            if !args[i + 1].is_socket_addr {
                return Err(message("--listen expects HOST:PORT, for example 0.0.0.0:8080"));
            }
            cfg.listen = v;
            i = i + 2;
        } else if text_is(t, "--motor") {
            cfg.motor_device = take_value(args, i + 1, "--motor")?;
            i = i + 2;
        } else if text_is(t, "--arm") {
            cfg.arm_device = take_value(args, i + 1, "--arm")?;
            i = i + 2;
        } else if text_is(t, "--mock") {
            cfg.mock = true;
            i = i + 1;
        } else if dashed(t) {
            return Err(prefixed("unknown serve option: ", t));
        } else {
            return Err(prefixed("unexpected serve argument: ", t));
        }
    }
    Ok(Command::Serve(cfg))
}

/// The inference test's command line, read from word `start` on: the model
/// path and the input image (both required), `-o`/`--out`, `--classes N`,
/// `--conf X`, `--iou X`; `-h` or `--help` asks for the usage text.
pub fn parse_detect_cli(args: &Vec<Arg>, start: usize) -> (r: Result<Command, String>)
    ensures
        outcome(r) == detect_scan(args@, start as int, default_detect(), 0),
{
    let mut cli = DetectCli::default();
    let mut positional: u32 = 0;
    let n = args.len();
    let mut i = start;
    while i < n
        invariant
            n == args.len(),
            positional <= 2,
            detect_scan(args@, start as int, default_detect(), 0) == detect_scan(
                args@,
                i as int,
                cli@,
                positional as int,
            ),
        decreases n - i,
    {
        let t = &args[i].text;
        if text_is(t, "-h") || text_is(t, "--help") {
            return Ok(Command::Help(Usage::Detect));
        } else if text_is(t, "-o") || text_is(t, "--out") {
            cli.output = take_value(args, i + 1, "--out")?;
            i = i + 2;
        } else if text_is(t, "--classes") {
            let v = take_value(args, i + 1, "--classes")?;
            match parse_i32(v.as_str()) {
                Some(classes) => {
                    cli.classes = classes;
                    i = i + 2;
                },
                None => {
                    return Err(message("--classes expects an integer"));
                },
            }
        } else if text_is(t, "--conf") {
            let v = take_value(args, i + 1, "--conf")?;
            if !args[i + 1].is_float {
                return Err(message("--conf expects a float"));
            }
            cli.conf = v;
            i = i + 2;
        } else if text_is(t, "--iou") {
            let v = take_value(args, i + 1, "--iou")?;
            if !args[i + 1].is_float {
                return Err(message("--iou expects a float"));
            }
            cli.iou = v;
            i = i + 2;
        } else if dashed(t) {
            return Err(prefixed("unknown detect option: ", t));
        } else if positional == 0 {
            cli.model = t.clone();
            positional = 1;
            i = i + 1;
        } else if positional == 1 {
            cli.input = t.clone();
            positional = 2;
            i = i + 1;
        } else {
            return Err(prefixed("unexpected detect argument: ", t));
        }
    }
    if cli.model.as_str().is_empty() {
        Err(message("missing cvimodel path"))
    } else if cli.input.as_str().is_empty() {
        Err(message("missing input image path"))
    } else {
        Ok(Command::Detect(cli))
    }
}

/// The capture test's command line, read from word `start` on: an
/// optional output path, `--camera`, `-o`/`--out`, `--warmup N`; `-h` or
/// `--help` asks for the usage text.
pub fn parse_capture_cli(args: &Vec<Arg>, start: usize) -> (r: Result<Command, String>)
    ensures
        outcome(r) == capture_scan(args@, start as int, default_capture(), 0),
{
    let mut cli = CaptureCli::default();
    let mut positional: u32 = 0;
    let n = args.len();
    let mut i = start;
    while i < n
        invariant
            n == args.len(),
            positional <= 1,
            capture_scan(args@, start as int, default_capture(), 0) == capture_scan(
                args@,
                i as int,
                cli@,
                positional as int,
            ),
        decreases n - i,
    {
        let t = &args[i].text;
        if text_is(t, "-h") || text_is(t, "--help") {
            return Ok(Command::Help(Usage::Capture));
        } else if text_is(t, "--camera") {
            cli.camera = take_value(args, i + 1, "--camera")?;
            i = i + 2;
        } else if text_is(t, "-o") || text_is(t, "--out") {
            cli.output = take_value(args, i + 1, "--out")?;
            i = i + 2;
        } else if text_is(t, "--warmup") {
            let v = take_value(args, i + 1, "--warmup")?;
            match parse_u32(v.as_str()) {
                Some(warmup) => {
                    cli.warmup = warmup;
                    i = i + 2;
                },
                None => {
                    return Err(message("--warmup expects a non-negative integer"));
                },
            }
        } else if dashed(t) {
            return Err(prefixed("unknown capture option: ", t));
        } else if positional == 0 {
            cli.output = t.clone();
            positional = 1;
            i = i + 1;
        } else {
            return Err(prefixed("unexpected capture argument: ", t));
        }
    }
    Ok(Command::Capture(cli))
}

/// The command that the whole command line asks for.
pub fn parse_cli(args: &Vec<Arg>) -> (r: Result<Command, String>)
    ensures
        outcome(r) == command_line(args@),
{
    if args.len() > 0 && text_is(&args[0].text, "serve") {
        parse_serve_cli(args, 1)
    } else if args.len() > 0 && text_is(&args[0].text, "detect") {
        parse_detect_cli(args, 1)
    } else if args.len() > 0 && text_is(&args[0].text, "capture") {
        parse_capture_cli(args, 1)
    } else {
        parse_hunt_cli(args, 0)
    }
}

} // verus!
