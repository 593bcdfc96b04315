//! Handing a text to the application that has the focus: put it on the clipboard, and press Ctrl+V.

use crate::text::{blank, trim};
use vstd::prelude::*;

verus! {

/// The virtual key code of V. A code, and not the character: characters are typed without regard to
/// Ctrl.
pub const VK_V: u32 = 0x56;

/// How long the old contents of the clipboard wait before they come back, in milliseconds. Editors
/// in a browser take their time to read the new ones.
pub const RESTORE_DELAY_MS: u64 = 1500;

/// How long the system is given to publish the new contents of the clipboard, in milliseconds.
pub const CLIPBOARD_SETTLE_MS: u64 = 90;

/// What to do next about pasting a text. Each action but the last is reported back.
pub enum PasteAction {
    OpenClipboard,
    /// Put this on the clipboard, and let go of it.
    Copy(String),
    /// Wait, in milliseconds.
    Wait(u64),
    OpenKeyboard,
    PressControl,
    /// Press and let go of the key with this code.
    Click(u32),
    ReleaseControl,
    /// This is how it went.
    Done(Result<(), String>),
}

/// [`PasteAction`], with texts as sequences of characters.
pub enum PasteActionView {
    OpenClipboard,
    Copy(Seq<char>),
    Wait(u64),
    OpenKeyboard,
    PressControl,
    Click(u32),
    ReleaseControl,
    Done(Option<Seq<char>>),
}

/// Why something failed, where it did.
pub open spec fn failure(r: Result<(), String>) -> Option<Seq<char>> {
    match r {
        Ok(()) => None,
        Err(e) => Some(e@),
    }
}

impl View for PasteAction {
    type V = PasteActionView;

    open spec fn view(&self) -> PasteActionView {
        match *self {
            PasteAction::OpenClipboard => PasteActionView::OpenClipboard,
            PasteAction::Copy(text) => PasteActionView::Copy(text@),
            PasteAction::Wait(millis) => PasteActionView::Wait(millis),
            PasteAction::OpenKeyboard => PasteActionView::OpenKeyboard,
            PasteAction::PressControl => PasteActionView::PressControl,
            PasteAction::Click(key) => PasteActionView::Click(key),
            PasteAction::ReleaseControl => PasteActionView::ReleaseControl,
            PasteAction::Done(r) => PasteActionView::Done(failure(r)),
        }
    }
}

/// Why each action failed, where it did.
pub open spec fn failures(reports: Seq<Result<(), String>>) -> Seq<Option<Seq<char>>> {
    Seq::new(reports.len(), |i: int| failure(reports[i]))
}

/// What to do next about pasting `text`, after actions that failed, where they did, for `reasons`.
/// Waiting cannot fail. Once Ctrl is down, it is let go of whatever becomes of the click.
pub open spec fn paste_step(text: Seq<char>, reasons: Seq<Option<Seq<char>>>) -> PasteActionView {
    let done = reasons.len();
    if blank(text) {
        PasteActionView::Done(None)
    } else if done == 0 {
        PasteActionView::OpenClipboard
    } else if reasons[0] is Some {
        PasteActionView::Done(Some("portapapeles: "@ + reasons[0]->0))
    } else if done == 1 {
        PasteActionView::Copy(text)
    } else if reasons[1] is Some {
        PasteActionView::Done(Some("no se pudo copiar: "@ + reasons[1]->0))
    } else if done == 2 {
        PasteActionView::Wait(CLIPBOARD_SETTLE_MS)
    } else if done == 3 {
        PasteActionView::OpenKeyboard
    } else if reasons[3] is Some {
        PasteActionView::Done(Some("no se pudo simular teclado: "@ + reasons[3]->0))
    } else if done == 4 {
        PasteActionView::PressControl
    } else if reasons[4] is Some {
        PasteActionView::Done(reasons[4])
    } else if done == 5 {
        PasteActionView::Click(VK_V)
    } else if done == 6 {
        PasteActionView::ReleaseControl
    } else if reasons[5] is Some {
        PasteActionView::Done(reasons[5])
    } else {
        PasteActionView::Done(reasons[6])
    }
}

/// A report with `prefix` before the reason of the failure.
fn failed(prefix: &str, report: &Result<(), String>) -> (r: PasteAction)
    requires
        *report is Err,
    ensures
        r@ == PasteActionView::Done(Some(prefix@ + failure(*report)->0)),
{
    match report {
        Ok(()) => PasteAction::Done(Ok(())),
        Err(e) => PasteAction::Done(Err(prefix.to_string().concat(e.as_str()))),
    }
}

/// A report as it is.
fn reported(report: &Result<(), String>) -> (r: PasteAction)
    ensures
        r@ == PasteActionView::Done(failure(*report)),
{
    match report {
        Ok(()) => PasteAction::Done(Ok(())),
        Err(e) => PasteAction::Done(Err(e.clone())),
    }
}

/// What to do next about pasting `text`, after actions with these reports. A blank text is not
/// pasted at all.
pub fn paste_text(text: &str, reports: &Vec<Result<(), String>>) -> (r: PasteAction)
    ensures
        r@ == paste_step(text@, failures(reports@)),
{
    let done: usize = reports.len();
    if trim(text).is_empty() {
        PasteAction::Done(Ok(()))
    } else if done == 0 {
        PasteAction::OpenClipboard
    } else if reports[0].is_err() {
        failed("portapapeles: ", &reports[0])
    } else if done == 1 {
        PasteAction::Copy(text.to_string())
    } else if reports[1].is_err() {
        failed("no se pudo copiar: ", &reports[1])
    } else if done == 2 {
        PasteAction::Wait(CLIPBOARD_SETTLE_MS)
    } else if done == 3 {
        PasteAction::OpenKeyboard
    } else if reports[3].is_err() {
        failed("no se pudo simular teclado: ", &reports[3])
    } else if done == 4 {
        PasteAction::PressControl
    } else if reports[4].is_err() {
        reported(&reports[4])
    } else if done == 5 {
        PasteAction::Click(VK_V)
    } else if done == 6 {
        PasteAction::ReleaseControl
    } else if reports[5].is_err() {
        reported(&reports[5])
    } else {
        reported(&reports[6])
    }
}

/// The text got as far as the clipboard, where actions failed for `reasons`.
pub open spec fn was_copied(reasons: Seq<Option<Seq<char>>>) -> bool {
    reasons.len() >= 2 && reasons[0] is None && reasons[1] is None
}

/// Whether the text got as far as the clipboard, after actions with these reports.
pub fn copied(reports: &Vec<Result<(), String>>) -> (r: bool)
    ensures
        r == was_copied(failures(reports@)),
{
    reports.len() >= 2 && reports[0].is_ok() && reports[1].is_ok()
}

/// The text got as far as the clipboard exactly when it was to be copied, and that succeeded. A text
/// that is not blank and was inserted was copied before.
pub proof fn law_copied_means_that_copying_succeeded(
    text: Seq<char>,
    reasons: Seq<Option<Seq<char>>>,
)
    requires
        !blank(text),
    ensures
        was_copied(reasons) <==> reasons.len() >= 2 && paste_step(text, reasons.take(1))
            == PasteActionView::Copy(text) && reasons[1] is None,
        paste_step(text, reasons) == PasteActionView::Done(None) ==> was_copied(reasons),
{
    if reasons.len() >= 2 {
        assert(reasons.take(1)[0] == reasons[0]);
    }
}

/// The keyboard is never left with Ctrl down: where pressing it succeeded and pasting has ended,
/// letting go of it was the action of a later turn.
pub proof fn law_control_is_always_released(
    text: Seq<char>,
    reasons: Seq<Option<Seq<char>>>,
    pressed: int,
)
    requires
        0 <= pressed < reasons.len(),
        paste_step(text, reasons.take(pressed)) is PressControl,
        reasons[pressed] is None,
        paste_step(text, reasons) is Done,
    ensures
        exists|released: int|
            pressed < released < reasons.len() && paste_step(
                text,
                #[trigger] reasons.take(released),
            ) is ReleaseControl,
{
    assert(pressed == 4);
    let before = reasons.take(4);
    assert(before[0] == reasons[0] && before[1] == reasons[1] && before[3] == reasons[3]);
    let later = reasons.take(6);
    assert(later[0] == reasons[0] && later[1] == reasons[1] && later[3] == reasons[3] && later[4]
        == reasons[4]);
    assert(paste_step(text, later) is ReleaseControl);
}

/// A text that is not blank was pasted exactly when every action but the wait succeeded; and then
/// the text is what was copied, before Ctrl went down.
pub proof fn law_success_means_every_action_succeeded(
    text: Seq<char>,
    reasons: Seq<Option<Seq<char>>>,
)
    requires
        !blank(text),
    ensures
        paste_step(text, reasons) == PasteActionView::Done(None) <==> reasons.len() >= 7 && (
        forall|i: int| 0 <= i < 7 && i != 2 ==> #[trigger] reasons[i] is None),
        paste_step(text, reasons) is PressControl ==> paste_step(text, reasons.take(1))
            == PasteActionView::Copy(text),
{
    if paste_step(text, reasons) == PasteActionView::Done(None) {
        assert forall|i: int| 0 <= i < 7 && i != 2 implies #[trigger] reasons[i] is None by {
            assert(reasons[0] is None && reasons[1] is None && reasons[3] is None && reasons[4] is None
                && reasons[5] is None && reasons[6] is None);
        }
    }
    if paste_step(text, reasons) is PressControl {
        assert(reasons.take(1)[0] == reasons[0]);
    }
}

/// A blank text touches neither the clipboard nor the keyboard.
pub proof fn law_blank_text_is_not_pasted(text: Seq<char>, reasons: Seq<Option<Seq<char>>>)
    requires
        blank(text),
    ensures
        paste_step(text, reasons) == PasteActionView::Done(None),
{
}

/// As long as nothing fails, a text that is not blank is pasted in seven steps, in this order: open
/// the clipboard, copy the text, give the system a moment, open the keyboard, press Ctrl, click V, let
/// go of Ctrl.
pub proof fn law_pasting_takes_seven_steps(text: Seq<char>, reasons: Seq<Option<Seq<char>>>)
    requires
        !blank(text),
        forall|i: int| 0 <= i < reasons.len() ==> #[trigger] reasons[i] is None,
    ensures
        reasons.len() == 0 ==> paste_step(text, reasons) is OpenClipboard,
        reasons.len() == 1 ==> paste_step(text, reasons) == PasteActionView::Copy(text),
        reasons.len() == 2 ==> paste_step(text, reasons) == PasteActionView::Wait(90),
        reasons.len() == 3 ==> paste_step(text, reasons) is OpenKeyboard,
        reasons.len() == 4 ==> paste_step(text, reasons) is PressControl,
        reasons.len() == 5 ==> paste_step(text, reasons) == PasteActionView::Click(0x56),
        reasons.len() == 6 ==> paste_step(text, reasons) is ReleaseControl,
        reasons.len() == 7 ==> paste_step(text, reasons) == PasteActionView::Done(None),
{
}

/// A step that fails before Ctrl is down ends it at once, and the user is told which step it was and
/// why it failed.
pub proof fn law_a_failure_before_the_click_ends_it(
    text: Seq<char>,
    before: Seq<Option<Seq<char>>>,
    reason: Seq<char>,
)
    requires
        !blank(text),
        forall|i: int| 0 <= i < before.len() ==> #[trigger] before[i] is None,
    ensures
        ({
            let next = paste_step(text, before.push(Some(reason)));
            &&& before.len() == 0 ==> next == PasteActionView::Done(
                Some("portapapeles: "@ + reason),
            )
            &&& before.len() == 1 ==> next == PasteActionView::Done(
                Some("no se pudo copiar: "@ + reason),
            )
            &&& before.len() == 3 ==> next == PasteActionView::Done(
                Some("no se pudo simular teclado: "@ + reason),
            )
            &&& before.len() == 4 ==> next == PasteActionView::Done(Some(reason))
        }),
{
    let all = before.push(Some(reason));
    assert(forall|i: int| 0 <= i < before.len() ==> all[i] == before[i]);
}

/// Once Ctrl is down, a click that fails is told only after Ctrl was let go of, and before a failure
/// to let go of it.
pub proof fn law_a_failed_click_is_told_in_the_end(
    text: Seq<char>,
    before: Seq<Option<Seq<char>>>,
    click: Option<Seq<char>>,
    release: Option<Seq<char>>,
)
    requires
        !blank(text),
        before.len() == 5,
        forall|i: int| 0 <= i < before.len() ==> #[trigger] before[i] is None,
    ensures
        paste_step(text, before.push(click)) is ReleaseControl,
        paste_step(text, before.push(click).push(release)) == PasteActionView::Done(
            if click is Some {
                click
            } else {
                release
            },
        ),
{
    let all = before.push(click).push(release);
    assert(forall|i: int| 0 <= i < 5 ==> all[i] == before[i] && before.push(click)[i] == before[i]);
    assert(before[0] is None && before[1] is None && before[3] is None && before[4] is None);
}

/// Reports and actions are seen with all that they hold.
pub proof fn law_reports_are_seen_whole(
    reports: Seq<Result<(), String>>,
    i: int,
    e: String,
    millis: u64,
    key: u32,
)
    ensures
        failures(reports).len() == reports.len(),
        0 <= i < reports.len() && reports[i] is Ok ==> failures(reports)[i] is None,
        0 <= i < reports.len() && reports[i] is Err ==> failures(reports)[i] == Some(
            reports[i]->Err_0@,
        ),
        PasteAction::Copy(e)@ == PasteActionView::Copy(e@),
        PasteAction::Wait(millis)@ == PasteActionView::Wait(millis),
        PasteAction::Click(key)@ == PasteActionView::Click(key),
        PasteAction::Done(Err(e))@ == PasteActionView::Done(Some(e@)),
        PasteAction::Done(Ok(()))@ == PasteActionView::Done(None),
{
}

/// The system gets its moment before Ctrl+V, and applications get far longer to read the clipboard
/// before its old contents come back.
pub proof fn law_applications_have_time_to_read()
    ensures
        CLIPBOARD_SETTLE_MS == 90,
        RESTORE_DELAY_MS == 1500,
        CLIPBOARD_SETTLE_MS < RESTORE_DELAY_MS,
{
}

} // verus!
