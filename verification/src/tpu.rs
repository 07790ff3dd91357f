//! Errors and decisions of the TPU inference runtime: which output tensor
//! formats are read, and what each failure is reported as.
use vstd::prelude::*;

verus! {

/// An error of the inference runtime, carrying its message.
#[derive(Debug)]
pub struct TpuError(String);

impl View for TpuError {
    type V = Seq<char>;

    closed spec fn view(&self) -> Seq<char> {
        self.0@
    }
}

impl TpuError {
    pub fn new(message: String) -> (e: TpuError)
        ensures
            e@ == message@,
    {
        TpuError(message)
    }

    /// The message, as it is shown to the user.
    pub fn message(&self) -> (m: &str)
        ensures
            m@ == self@,
    {
        self.0.as_str()
    }
}

/// Element formats of an output tensor that inference can read.
#[derive(Clone, Copy, Debug, PartialEq, Eq, Structural)]
pub enum TensorFormat {
    Fp32,
    Bf16,
    Int16,
    Int8,
    Uint8,
}

/// The runtime's code for 32-bit floating-point elements.
pub const CVI_FMT_FP32: i32 = 0;

/// The runtime's code for bfloat16 elements.
pub const CVI_FMT_BF16: i32 = 3;

/// The runtime's code for signed 16-bit elements.
pub const CVI_FMT_INT16: i32 = 4;

/// The runtime's code for signed 8-bit elements.
pub const CVI_FMT_INT8: i32 = 6;

/// The runtime's code for unsigned 8-bit elements.
pub const CVI_FMT_UINT8: i32 = 7;

/// The runtime's success code.
pub const CVI_RC_SUCCESS: i32 = 0;

/// The decimal digits of `n`, without leading zeros.
pub open spec fn digits_text(n: nat) -> Seq<char>
    decreases n,
{
    if n < 10 {
        seq![((n + '0' as nat) as u32) as char]
    } else {
        digits_text(n / 10) + seq![(((n % 10) + '0' as nat) as u32) as char]
    }
}

/// `v` written in decimal, with a leading `-` when negative.
pub open spec fn decimal_text(v: int) -> Seq<char> {
    if v < 0 {
        seq!['-'] + digits_text((-v) as nat)
    } else {
        digits_text(v as nat)
    }
}

/// The format that a runtime format code names, if inference reads it.
pub open spec fn format_of(code: i32) -> Option<TensorFormat> {
    if code == CVI_FMT_FP32 {
        Some(TensorFormat::Fp32)
    } else if code == CVI_FMT_BF16 {
        Some(TensorFormat::Bf16)
    } else if code == CVI_FMT_INT16 {
        Some(TensorFormat::Int16)
    } else if code == CVI_FMT_INT8 {
        Some(TensorFormat::Int8)
    } else if code == CVI_FMT_UINT8 {
        Some(TensorFormat::Uint8)
    } else {
        None
    }
}

/// `i32`'s `Display` (by `ToString::to_string`): the value in decimal,
/// with a `-` before a negative value and no leading zeros.
#[verifier::external_body]
fn decimal(v: i32) -> (s: String)
    ensures
        s@ == decimal_text(v as int),
{
    v.to_string()
}

/// The element format of an output tensor, or the error that inference
/// reports for a format it does not read.
pub fn tensor_format(code: i32) -> (r: Result<TensorFormat, TpuError>)
    ensures
        match format_of(code) {
            Some(f) => r == Ok::<TensorFormat, TpuError>(f),
            None => r matches Err(e) && e@ == "unsupported output tensor format: "@ + decimal_text(
                code as int,
            ),
        },
{
    if code == CVI_FMT_FP32 {
        Ok(TensorFormat::Fp32)
    } else if code == CVI_FMT_BF16 {
        Ok(TensorFormat::Bf16)
    } else if code == CVI_FMT_INT16 {
        Ok(TensorFormat::Int16)
    } else if code == CVI_FMT_INT8 {
        Ok(TensorFormat::Int8)
    } else if code == CVI_FMT_UINT8 {
        Ok(TensorFormat::Uint8)
    } else {
        let message = String::from_str("unsupported output tensor format: ").concat(
            decimal(code).as_str(),
        );
        Err(TpuError::new(message))
    }
}

/// The error for a runtime call named `call` that returned `rc`, or none
/// when `rc` is the success code.
pub fn check_rc(call: &str, rc: i32) -> (r: Result<(), TpuError>)
    ensures
        rc == CVI_RC_SUCCESS ==> r is Ok,
        rc != CVI_RC_SUCCESS ==> (r matches Err(e) && e@ == call@ + " failed: "@ + decimal_text(
            rc as int,
        )),
{
    if rc == CVI_RC_SUCCESS {
        Ok(())
    } else {
        let message = String::from_str(call).concat(" failed: ").concat(decimal(rc).as_str());
        Err(TpuError::new(message))
    }
}

/// The error for a helper of the image pipeline (decoding, drawing) that
/// returned the non-zero code `rc`, described by `what`.
pub fn stage_failed(what: &str, rc: i32) -> (e: TpuError)
    ensures
        e@ == what@ + ": "@ + decimal_text(rc as int),
{
    TpuError::new(String::from_str(what).concat(": ").concat(decimal(rc).as_str()))
}

/// Whether a model has an output tensor to read: the runtime reports at
/// least one and its shape is known.
pub fn check_outputs(output_num: i32, shapes_known: usize) -> (r: Result<(), TpuError>)
    ensures
        (output_num >= 1 && shapes_known > 0) ==> r is Ok,
        !(output_num >= 1 && shapes_known > 0) ==> (r matches Err(e) && e@
            == "model has no output tensor"@),
{
    if output_num < 1 || shapes_known == 0 {
        Err(TpuError::new(String::from_str("model has no output tensor")))
    } else {
        Ok(())
    }
}

/// A dimension of the image that detections are placed in: the decoded
/// size when the decoder reported one, else the size the frame reported.
pub fn image_dimension(decoded: i32, reported: i32) -> (d: i32)
    ensures
        d == if decoded > 0 {
            decoded
        } else {
            reported
        },
{
    if decoded > 0 {
        decoded
    } else {
        reported
    }
}

/// The error of a build that has no TPU runtime to run models on.
pub fn runtime_unavailable() -> (e: TpuError)
    ensures
        e@ == "akars was built without SG2002 TPU/OpenCV runtime support"@,
{
    TpuError::new(String::from_str("akars was built without SG2002 TPU/OpenCV runtime support"))
}

} // verus!
