use vitamink::display::{disable_dummy_plug, dpms_from_text, enable_dummy_plug, strip_ansi, wayland_env, DpmsState};
use vitamink::sunshine;

#[test]
fn display_test_strip_ansi() {
    assert_eq!(strip_ansi("\x1b[31mhello\x1b[0m"), "hello");
    assert_eq!(strip_ansi("no escapes"), "no escapes");
    assert_eq!(strip_ansi(""), "");
}

#[test]
fn main_test_strip_ansi() {
    assert_eq!(strip_ansi("\x1b[31mhello\x1b[0m"), "hello");
    assert_eq!(strip_ansi("no escapes"), "no escapes");
    assert_eq!(strip_ansi(""), "");
}

#[test]
fn strip_ansi_unterminated_escape() {
    assert_eq!(strip_ansi("ab\x1b[3"), "ab");
    assert_eq!(strip_ansi("\x1b[1;\x1b2mx"), "x");
    assert_eq!(strip_ansi("é\x1bKü"), "éü");
}

#[test]
fn output_arguments() {
    assert_eq!(enable_dummy_plug("HDMI-A-1"), vec!["output.HDMI-A-1.enable", "output.HDMI-A-1.mode.1"]);
    assert_eq!(disable_dummy_plug("HDMI-A-1"), vec!["output.HDMI-A-1.disable"]);
}

#[test]
fn service_arguments() {
    assert_eq!(sunshine::start(), vec!["--user", "start", "sunshine"]);
    assert_eq!(sunshine::stop(), vec!["--user", "stop", "sunshine"]);
}

#[test]
fn dpms_text() {
    assert_eq!(dpms_from_text("On"), DpmsState::On);
    assert_eq!(dpms_from_text("Off"), DpmsState::Off);
    assert_eq!(dpms_from_text("on"), DpmsState::Unknown);
    assert_eq!(dpms_from_text("Of"), DpmsState::Unknown);
    assert_eq!(dpms_from_text(""), DpmsState::Unknown);
}

#[test]
fn wayland_environment() {
    assert_eq!(wayland_env(), vec![("WAYLAND_DISPLAY", "wayland-0"), ("DISPLAY", ":0")]);
}
