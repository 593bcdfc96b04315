use riff::island::position_island;
use riff::paste::{copied, paste_text, PasteAction, VK_V};
use riff::win::{make_non_activating, WS_EX_NOACTIVATE, WS_EX_TOOLWINDOW};

#[test]
fn the_island_is_centred_above_the_edge() {
    assert_eq!(position_island((1920, 1080), (420, 96)), (750, 914));
    assert_eq!(position_island((101, 100), (100, 10)), (0, 20));
    // A window wider than the screen: half the difference, towards zero.
    assert_eq!(position_island((100, 100), (103, 100)), (-1, -70));
}

#[test]
fn sizes_beyond_the_signed_range_wrap_round() {
    assert_eq!(position_island((u32::MAX, u32::MAX), (0, 0)), (0, -71));
}

#[test]
fn a_window_is_never_activated() {
    assert_eq!(make_non_activating(0), 0x0800_0080);
    assert_eq!(make_non_activating(0x100), 0x0800_0180);
    assert_eq!(make_non_activating(-1), -1);
    let styled = make_non_activating(0x0004_0001);
    assert_eq!(styled, 0x0004_0001 | WS_EX_NOACTIVATE | WS_EX_TOOLWINDOW);
    assert_eq!(make_non_activating(styled), styled);
}

/// Pastes `text` with an operating system in which the actions listed fail.
fn run(text: &str, failing: &[&str]) -> (Vec<String>, Result<(), String>) {
    let mut done = Vec::new();
    let mut reports = Vec::new();
    loop {
        let name = match paste_text(text, &reports) {
            PasteAction::OpenClipboard => "clipboard".to_string(),
            PasteAction::Copy(copied) => {
                assert_eq!(copied, text);
                "copy".to_string()
            }
            PasteAction::Wait(millis) => {
                assert_eq!(millis, 90);
                "wait".to_string()
            }
            PasteAction::OpenKeyboard => "keyboard".to_string(),
            PasteAction::PressControl => "press".to_string(),
            PasteAction::Click(key) => {
                assert_eq!(key, VK_V);
                "click".to_string()
            }
            PasteAction::ReleaseControl => "release".to_string(),
            PasteAction::Done(outcome) => return (done, outcome),
        };
        reports.push(if failing.contains(&name.as_str()) { Err(format!("E {name}")) } else { Ok(()) });
        done.push(name);
    }
}

#[test]
fn pasting_a_text() {
    let (done, outcome) = run(" Hola. ", &[]);
    assert_eq!(done, vec!["clipboard", "copy", "wait", "keyboard", "press", "click", "release"]);
    assert_eq!(outcome, Ok(()));
}

#[test]
fn a_text_is_copied_once_the_clipboard_took_it() {
    let e = || Err("E".to_string());
    assert!(!copied(&vec![]));
    assert!(!copied(&vec![e()]));
    assert!(!copied(&vec![Ok(())]));
    assert!(!copied(&vec![Ok(()), e()]));
    assert!(copied(&vec![Ok(()), Ok(())]));
    assert!(copied(&vec![Ok(()), Ok(()), Ok(()), e()]));
}

#[test]
fn a_blank_text_is_not_pasted() {
    assert_eq!(run(" \n", &[]), (vec![], Ok(())));
}

#[test]
fn failures_to_paste_are_told_apart() {
    let e = |s: &str| Err(s.to_string());
    assert_eq!(run("a", &["clipboard"]), (vec!["clipboard".to_string()], e("portapapeles: E clipboard")));
    assert_eq!(run("a", &["copy"]).1, e("no se pudo copiar: E copy"));
    assert_eq!(run("a", &["keyboard"]).1, e("no se pudo simular teclado: E keyboard"));
    assert_eq!(run("a", &["press"]).1, e("E press"));
    assert_eq!(run("a", &["click"]).1, e("E click"));
    assert_eq!(run("a", &["release"]).1, e("E release"));
    assert_eq!(run("a", &["click", "release"]).1, e("E click"));
}

#[test]
fn control_is_released_though_the_click_fails() {
    let (done, _) = run("a", &["click"]);
    assert_eq!(done.last().unwrap(), "release");
    let (done, _) = run("a", &["press"]);
    assert_eq!(done.last().unwrap(), "press");
}
