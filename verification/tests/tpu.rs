use akars::tpu::{
    check_outputs, check_rc, image_dimension, runtime_unavailable, stage_failed, tensor_format,
    TensorFormat, TpuError,
};

#[test]
fn error_keeps_its_message() {
    let e = TpuError::new("input tensor pointer is null".to_string());
    assert_eq!(e.message(), "input tensor pointer is null");
}

#[test]
fn reads_known_tensor_formats() {
    assert_eq!(tensor_format(0).unwrap(), TensorFormat::Fp32);
    assert_eq!(tensor_format(3).unwrap(), TensorFormat::Bf16);
    assert_eq!(tensor_format(4).unwrap(), TensorFormat::Int16);
    assert_eq!(tensor_format(6).unwrap(), TensorFormat::Int8);
    assert_eq!(tensor_format(7).unwrap(), TensorFormat::Uint8);
}

#[test]
fn rejects_unknown_tensor_formats() {
    assert_eq!(
        tensor_format(9).unwrap_err().message(),
        "unsupported output tensor format: 9"
    );
    assert_eq!(
        tensor_format(-12).unwrap_err().message(),
        "unsupported output tensor format: -12"
    );
    assert_eq!(
        tensor_format(1).unwrap_err().message(),
        "unsupported output tensor format: 1"
    );
}

#[test]
fn reports_failed_runtime_calls() {
    assert!(check_rc("CVI_NN_Forward", 0).is_ok());
    assert_eq!(
        check_rc("CVI_NN_RegisterModel", -1).unwrap_err().message(),
        "CVI_NN_RegisterModel failed: -1"
    );
    assert_eq!(
        check_rc("CVI_NN_Forward", 1002).unwrap_err().message(),
        "CVI_NN_Forward failed: 1002"
    );
    assert_eq!(
        stage_failed("MJPEG decode/preprocess failed", 3).message(),
        "MJPEG decode/preprocess failed: 3"
    );
}

#[test]
fn needs_an_output_tensor() {
    assert!(check_outputs(1, 1).is_ok());
    assert_eq!(check_outputs(0, 1).unwrap_err().message(), "model has no output tensor");
    assert_eq!(check_outputs(2, 0).unwrap_err().message(), "model has no output tensor");
}

#[test]
fn prefers_decoded_dimensions() {
    assert_eq!(image_dimension(480, 720), 480);
    assert_eq!(image_dimension(0, 720), 720);
    assert_eq!(image_dimension(-1, 720), 720);
}

#[test]
fn host_build_has_no_runtime() {
    assert_eq!(
        runtime_unavailable().message(),
        "akars was built without SG2002 TPU/OpenCV runtime support"
    );
}
