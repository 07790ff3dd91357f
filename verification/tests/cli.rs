use akars::cli::{
    parse_capture_cli, parse_cli, parse_detect_cli, parse_hunt_cli, parse_serve_cli, take_value,
    Arg, CaptureCli, Cli, Command, DetectCli, ServeCli, Usage,
};

fn word(text: &str) -> Arg {
    Arg { text: text.to_string(), is_float: text.parse::<f32>().is_ok(), is_socket_addr: false }
}

fn address(text: &str) -> Arg {
    Arg { text: text.to_string(), is_float: false, is_socket_addr: true }
}

fn words(texts: &[&str]) -> Vec<Arg> {
    texts.iter().map(|t| word(t)).collect()
}

fn hunt(texts: &[&str]) -> Cli {
    match parse_cli(&words(texts)) {
        Ok(Command::Hunt(cli)) => cli,
        other => panic!("expected the hunter, got {:?}", other),
    }
}

fn error_of(texts: &[&str]) -> String {
    match parse_cli(&words(texts)) {
        Err(message) => message,
        other => panic!("expected an error, got {:?}", other),
    }
}

fn help_of(texts: &[&str]) -> Usage {
    match parse_cli(&words(texts)) {
        Ok(Command::Help(usage)) => usage,
        other => panic!("expected help, got {:?}", other),
    }
}

#[test]
fn hunter_defaults() {
    let cli = hunt(&["model.cvimodel"]);
    assert_eq!(cli.model, "model.cvimodel");
    assert_eq!(cli.camera, "/dev/cvi-usb-camera0");
    assert_eq!(cli.motor, "/dev/ttyS3");
    assert_eq!(cli.arm, "/dev/ttyS2");
    assert_eq!(cli.frames, None);
    assert_eq!(cli.classes, 1);
    assert_eq!(cli.conf, "0.5");
    assert_eq!(cli.iou, "0.5");
}

#[test]
fn hunter_options() {
    let cli = hunt(&[
        "--camera", "/dev/video1", "m.cvimodel", "--motor", "/dev/ttyS1", "--arm", "/dev/ttyS0",
        "--frames", "+42", "--classes", "-3", "--conf", "0.25", "--iou", "7e-1",
    ]);
    assert_eq!(cli.model, "m.cvimodel");
    assert_eq!(cli.camera, "/dev/video1");
    assert_eq!(cli.motor, "/dev/ttyS1");
    assert_eq!(cli.arm, "/dev/ttyS0");
    assert_eq!(cli.frames, Some(42));
    assert_eq!(cli.classes, -3);
    assert_eq!(cli.conf, "0.25");
    assert_eq!(cli.iou, "7e-1");
}

#[test]
fn later_option_wins() {
    let cli = hunt(&["m", "--frames", "1", "--frames", "18446744073709551615"]);
    assert_eq!(cli.frames, Some(u64::MAX));
}

#[test]
fn hunter_errors() {
    assert_eq!(error_of(&[]), "missing cvimodel path");
    assert_eq!(error_of(&["--frames"]), "--frames expects a value");
    assert_eq!(error_of(&["m", "--frames", "-1"]), "--frames expects an integer");
    assert_eq!(error_of(&["m", "--frames", "18446744073709551616"]), "--frames expects an integer");
    assert_eq!(error_of(&["m", "--frames", ""]), "--frames expects an integer");
    assert_eq!(error_of(&["m", "--classes", "2147483648"]), "--classes expects an integer");
    assert_eq!(error_of(&["m", "--classes", " 1"]), "--classes expects an integer");
    assert_eq!(error_of(&["m", "--conf", "high"]), "--conf expects a float");
    assert_eq!(error_of(&["m", "--iou", "1,5"]), "--iou expects a float");
    assert_eq!(error_of(&["m", "--speed", "3"]), "unknown option: --speed");
    assert_eq!(error_of(&["m", "-"]), "unknown option: -");
    assert_eq!(error_of(&["m", "n"]), "unexpected positional argument: n");
    assert_eq!(error_of(&["m", "--camera"]), "--camera expects a value");
}

#[test]
fn first_problem_is_reported() {
    assert_eq!(error_of(&["--conf", "x", "--bogus"]), "--conf expects a float");
    assert_eq!(error_of(&["--bogus", "--conf", "x"]), "unknown option: --bogus");
}

#[test]
fn option_values_may_look_like_options() {
    let cli = hunt(&["m", "--camera", "--help"]);
    assert_eq!(cli.camera, "--help");
}

#[test]
fn help_is_shown() {
    assert_eq!(help_of(&["-h"]), Usage::Main);
    assert_eq!(help_of(&["m", "--help", "--bogus"]), Usage::Main);
    assert_eq!(help_of(&["serve", "--help"]), Usage::Serve);
    assert_eq!(help_of(&["detect", "-h"]), Usage::Detect);
    assert_eq!(help_of(&["capture", "--help"]), Usage::Capture);
    assert_eq!(error_of(&["--bogus", "-h"]), "unknown option: --bogus");
}

#[test]
fn serve_defaults_and_options() {
    match parse_cli(&words(&["serve"])) {
        Ok(Command::Serve(ServeCli { listen, motor_device, arm_device, mock })) => {
            assert_eq!(listen, "0.0.0.0:8080");
            assert_eq!(motor_device, "/dev/ttyS3");
            assert_eq!(arm_device, "/dev/ttyS2");
            assert!(!mock);
        }
        other => panic!("{:?}", other),
    }
    let args = vec![
        word("serve"),
        word("--listen"),
        address("127.0.0.1:9000"),
        word("--mock"),
        word("--motor"),
        word("/dev/m"),
        word("--arm"),
        word("/dev/a"),
    ];
    match parse_cli(&args) {
        Ok(Command::Serve(cfg)) => {
            assert_eq!(cfg.listen, "127.0.0.1:9000");
            assert_eq!(cfg.motor_device, "/dev/m");
            assert_eq!(cfg.arm_device, "/dev/a");
            assert!(cfg.mock);
        }
        other => panic!("{:?}", other),
    }
}

#[test]
fn serve_errors() {
    assert_eq!(
        error_of(&["serve", "--listen", "localhost"]),
        "--listen expects HOST:PORT, for example 0.0.0.0:8080"
    );
    assert_eq!(error_of(&["serve", "--listen"]), "--listen expects a value");
    assert_eq!(error_of(&["serve", "--frames"]), "unknown serve option: --frames");
    assert_eq!(error_of(&["serve", "now"]), "unexpected serve argument: now");
}

#[test]
fn detect_defaults_and_options() {
    match parse_cli(&words(&["detect", "m.cvimodel", "in.jpg"])) {
        Ok(Command::Detect(DetectCli { model, input, output, classes, conf, iou })) => {
            assert_eq!(model, "m.cvimodel");
            assert_eq!(input, "in.jpg");
            assert_eq!(output, "detect_out.jpg");
            assert_eq!(classes, 1);
            assert_eq!(conf, "0.5");
            assert_eq!(iou, "0.5");
        }
        other => panic!("{:?}", other),
    }
    match parse_cli(&words(&["detect", "-o", "o.jpg", "m", "--classes", "80", "i", "--iou", "0.3"])) {
        Ok(Command::Detect(cli)) => {
            assert_eq!(cli.output, "o.jpg");
            assert_eq!(cli.model, "m");
            assert_eq!(cli.input, "i");
            assert_eq!(cli.classes, 80);
            assert_eq!(cli.iou, "0.3");
        }
        other => panic!("{:?}", other),
    }
}

#[test]
fn detect_errors() {
    assert_eq!(error_of(&["detect"]), "missing cvimodel path");
    assert_eq!(error_of(&["detect", "m"]), "missing input image path");
    assert_eq!(error_of(&["detect", "m", "i", "j"]), "unexpected detect argument: j");
    assert_eq!(error_of(&["detect", "-o"]), "--out expects a value");
    assert_eq!(error_of(&["detect", "--camera", "x"]), "unknown detect option: --camera");
    assert_eq!(error_of(&["detect", "--conf", "?"]), "--conf expects a float");
}

#[test]
fn capture_defaults_and_options() {
    match parse_cli(&words(&["capture"])) {
        Ok(Command::Capture(CaptureCli { camera, output, warmup })) => {
            assert_eq!(camera, "/dev/cvi-usb-camera0");
            assert_eq!(output, "capture.jpg");
            assert_eq!(warmup, 30);
        }
        other => panic!("{:?}", other),
    }
    match parse_cli(&words(&["capture", "shot.jpg", "--warmup", "0", "--camera", "/dev/c"])) {
        Ok(Command::Capture(cli)) => {
            assert_eq!(cli.output, "shot.jpg");
            assert_eq!(cli.warmup, 0);
            assert_eq!(cli.camera, "/dev/c");
        }
        other => panic!("{:?}", other),
    }
    match parse_cli(&words(&["capture", "a.jpg", "--out", "b.jpg"])) {
        Ok(Command::Capture(cli)) => assert_eq!(cli.output, "b.jpg"),
        other => panic!("{:?}", other),
    }
}

#[test]
fn capture_errors() {
    assert_eq!(error_of(&["capture", "--warmup", "-1"]), "--warmup expects a non-negative integer");
    assert_eq!(error_of(&["capture", "--warmup", "4294967296"]), "--warmup expects a non-negative integer");
    assert_eq!(error_of(&["capture", "a", "b"]), "unexpected capture argument: b");
    assert_eq!(error_of(&["capture", "--mock"]), "unknown capture option: --mock");
}

#[test]
fn subcommand_only_in_first_place() {
    let cli = hunt(&["m.cvimodel"]);
    assert_eq!(cli.model, "m.cvimodel");
    assert_eq!(error_of(&["m", "serve"]), "unexpected positional argument: serve");
    let cli = hunt(&["serves"]);
    assert_eq!(cli.model, "serves");
}

#[test]
fn sub_parsers_start_where_told() {
    let args = words(&["ignored", "m"]);
    match parse_hunt_cli(&args, 1) {
        Ok(Command::Hunt(cli)) => assert_eq!(cli.model, "m"),
        other => panic!("{:?}", other),
    }
    assert!(matches!(parse_serve_cli(&words(&["x", "--mock"]), 1), Ok(Command::Serve(c)) if c.mock));
    assert!(parse_detect_cli(&words(&["m", "i"]), 0).is_ok());
    assert!(parse_capture_cli(&words(&[]), 0).is_ok());
}

#[test]
fn take_value_reads_the_next_word() {
    let args = words(&["--camera", "/dev/x"]);
    assert_eq!(take_value(&args, 1, "--camera"), Ok("/dev/x".to_string()));
    assert_eq!(take_value(&args, 2, "--camera"), Err("--camera expects a value".to_string()));
}
