use mlp::console::{bold, code, paint, Tone};

#[test]
fn console_paint_with_no_color_returns_plain_string() {
    let result = paint("hello", Tone::Info, false);
    assert_eq!(result, "hello");
}

#[test]
fn console_bold_with_no_color_returns_plain_string() {
    let result = bold("world", false);
    assert_eq!(result, "world");
}

#[test]
fn console_paint_without_no_color_adds_ansi_codes() {
    let result = paint("hi", Tone::Success, true);
    assert!(result.contains("hi"));
    assert!(result.contains('\x1b'));
}

#[test]
fn console_bold_without_no_color_adds_ansi_codes() {
    let result = bold("hi", true);
    assert!(result.contains("hi"));
    assert!(result.contains('\x1b'));
}

#[test]
fn console_paint_with_warn_tone_adds_ansi_codes() {
    let result = paint("warning!", Tone::Warn, true);
    assert!(result.contains("warning!"));
    assert!(result.contains('\x1b'));
}

#[test]
fn console_test_paint_with_no_color_returns_plain_string() {
    assert_eq!(paint("hello", Tone::Accent, false), "hello");
}

#[test]
fn console_test_bold_with_no_color_returns_plain_string() {
    assert_eq!(bold("world", false), "world");
}

#[test]
fn console_test_paint_without_no_color_adds_ansi_codes() {
    let result = paint("hi", Tone::Info, true);
    assert!(result.contains("hi"));
    assert!(result.contains('\x1b'));
}

#[test]
fn console_test_bold_without_no_color_adds_ansi_codes() {
    let result = bold("hi", true);
    assert!(result.contains("hi"));
    assert!(result.contains('\x1b'));
}

#[test]
fn console_test_paint_with_warn_tone_adds_ansi_codes() {
    let result = paint("warning!", Tone::Warn, true);
    assert!(result.contains("warning!"));
    assert!(result.contains('\x1b'));
}

#[test]
fn paint_exact_escape_sequence_per_tone() {
    assert_eq!(paint("x", Tone::Info, true), "\x1b[34mx\x1b[0m");
    assert_eq!(paint("x", Tone::Success, true), "\x1b[32mx\x1b[0m");
    assert_eq!(paint("x", Tone::Warn, true), "\x1b[33mx\x1b[0m");
    assert_eq!(paint("x", Tone::Accent, true), "\x1b[36mx\x1b[0m");
    assert_eq!(paint("x", Tone::Muted, true), "\x1b[90mx\x1b[0m");
    assert_eq!(paint("x", Tone::TrainMetric, true), "\x1b[32mx\x1b[0m");
    assert_eq!(paint("x", Tone::ValMetric, true), "\x1b[35mx\x1b[0m");
}

#[test]
fn bold_exact_escape_sequence() {
    assert_eq!(bold("Epoch", true), "\x1b[1mEpoch\x1b[0m");
}

#[test]
fn code_of_each_tone() {
    assert_eq!(code(Tone::Muted), "90");
    assert_eq!(code(Tone::ValMetric), "35");
}
