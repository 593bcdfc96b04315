//! Opening the microphone, one step at a time.

use crate::recorder::outcome_text;
use vstd::prelude::*;

verus! {

/// What the samples of a microphone are.
pub enum SampleKind {
    F32,
    I16,
    U16,
    /// Anything else, by the name that the audio system has for it.
    Other(String),
}

/// What to do next about opening the microphone. Each action but the last is reported back.
pub enum OpenAction {
    /// Look for the microphone that the system uses.
    FindDevice,
    /// Ask it how it records.
    ReadConfig,
    /// Build a stream of such samples.
    Build(SampleKind),
    /// Set the stream going.
    Play,
    /// This is how it went.
    Done(Result<(), String>),
}

/// How an action went. The texts are those of the audio system.
pub enum OpenReport {
    /// Whether there is a microphone.
    Device(bool),
    /// What its samples are.
    Config(Result<SampleKind, String>),
    Built(Result<(), String>),
    Playing(Result<(), String>),
}

/// [`OpenAction`], with texts as sequences of characters.
pub enum OpenActionView {
    FindDevice,
    ReadConfig,
    Build(SampleKind),
    Play,
    Done(Result<(), Seq<char>>),
}

impl View for OpenAction {
    type V = OpenActionView;

    open spec fn view(&self) -> OpenActionView {
        match *self {
            OpenAction::FindDevice => OpenActionView::FindDevice,
            OpenAction::ReadConfig => OpenActionView::ReadConfig,
            OpenAction::Build(kind) => OpenActionView::Build(kind),
            OpenAction::Play => OpenActionView::Play,
            OpenAction::Done(r) => OpenActionView::Done(outcome_text(r)),
        }
    }
}

/// What to do next about opening the microphone, after the last report, if there is one. The first
/// failure ends it, with words for the user.
pub open spec fn next_open_action(last: Option<OpenReport>) -> OpenActionView {
    match last {
        None => OpenActionView::FindDevice,
        Some(OpenReport::Device(found)) => if found {
            OpenActionView::ReadConfig
        } else {
            OpenActionView::Done(Err("no se encontró ningún micrófono"@))
        },
        Some(OpenReport::Config(Err(e))) => OpenActionView::Done(
            Err("no se pudo abrir el micrófono: "@ + e@),
        ),
        Some(OpenReport::Config(Ok(SampleKind::Other(name)))) => OpenActionView::Done(
            Err("formato de audio no soportado: "@ + name@),
        ),
        Some(OpenReport::Config(Ok(kind))) => OpenActionView::Build(kind),
        Some(OpenReport::Built(Err(e))) => OpenActionView::Done(
            Err("no se pudo iniciar la captura: "@ + e@),
        ),
        Some(OpenReport::Built(Ok(()))) => OpenActionView::Play,
        Some(OpenReport::Playing(Err(e))) => OpenActionView::Done(
            Err("no se pudo grabar: "@ + e@),
        ),
        Some(OpenReport::Playing(Ok(()))) => OpenActionView::Done(Ok(())),
    }
}

/// The end of the attempt, with words for the user before the reason of the failure.
fn failed(words: &str, reason: &str) -> (r: OpenAction)
    ensures
        r@ == OpenActionView::Done(Err(words@ + reason@)),
{
    OpenAction::Done(Err(words.to_string().concat(reason)))
}

/// What to do next about opening the microphone, after the last report, if there is one. The first
/// failure ends it, with words for the user.
pub fn open_step(last: Option<OpenReport>) -> (r: OpenAction)
    ensures
        r@ == next_open_action(last),
{
    match last {
        None => OpenAction::FindDevice,
        Some(OpenReport::Device(found)) => {
            if found {
                OpenAction::ReadConfig
            } else {
                OpenAction::Done(Err("no se encontró ningún micrófono".to_string()))
            }
        },
        Some(OpenReport::Config(Err(e))) => failed("no se pudo abrir el micrófono: ", e.as_str()),
        Some(OpenReport::Config(Ok(kind))) => match kind {
            SampleKind::Other(name) => failed("formato de audio no soportado: ", name.as_str()),
            _ => OpenAction::Build(kind),
        },
        Some(OpenReport::Built(Err(e))) => failed("no se pudo iniciar la captura: ", e.as_str()),
        Some(OpenReport::Built(Ok(()))) => OpenAction::Play,
        Some(OpenReport::Playing(Err(e))) => failed("no se pudo grabar: ", e.as_str()),
        Some(OpenReport::Playing(Ok(()))) => OpenAction::Done(Ok(())),
    }
}

/// A report answers an action.
pub open spec fn answers(report: OpenReport, action: OpenActionView) -> bool {
    match report {
        OpenReport::Device(_) => action is FindDevice,
        OpenReport::Config(_) => action is ReadConfig,
        OpenReport::Built(_) => action is Build,
        OpenReport::Playing(_) => action is Play,
    }
}

/// The action after the first `n` of these reports.
pub open spec fn open_action_after(reports: Seq<OpenReport>, n: int) -> OpenActionView {
    next_open_action(
        if n == 0 {
            None
        } else {
            Some(reports[n - 1])
        },
    )
}

/// The microphone is open exactly when, each report answering the action before it, all steps
/// went well: a microphone was found, its samples are of a kind that can be recorded, and the stream
/// was built and set going. It takes at most four reports to know.
pub proof fn law_open_means_every_step_went_well(reports: Seq<OpenReport>)
    requires
        forall|i: int|
            0 <= i < reports.len() ==> answers(#[trigger] reports[i], open_action_after(reports, i)),
    ensures
        reports.len() <= 4,
        reports.len() == 4 ==> open_action_after(reports, 4) is Done,
        open_action_after(reports, reports.len() as int) == OpenActionView::Done(Ok(())) <==> {
            &&& reports.len() == 4
            &&& reports[0] == OpenReport::Device(true)
            &&& reports[1] is Config && reports[1]->Config_0 is Ok && !(reports[1]->Config_0->Ok_0 is Other)
            &&& reports[2] is Built && reports[2]->Built_0 is Ok
            &&& reports[3] is Playing && reports[3]->Playing_0 is Ok
        },
{
    if reports.len() > 0 {
        assert(answers(reports[0], open_action_after(reports, 0)));
    }
    if reports.len() > 1 {
        assert(answers(reports[1], open_action_after(reports, 1)));
    }
    if reports.len() > 2 {
        assert(answers(reports[2], open_action_after(reports, 2)));
    }
    if reports.len() > 3 {
        assert(answers(reports[3], open_action_after(reports, 3)));
    }
    if reports.len() > 4 {
        assert(answers(reports[4], open_action_after(reports, 4)));
    }
}

/// A step that failed ends the attempt, and the user is told which one it was and what the audio
/// system said about it.
pub proof fn law_the_first_failure_is_told(reason: String)
    ensures
        next_open_action(Some(OpenReport::Device(false))) == OpenActionView::Done(
            Err("no se encontró ningún micrófono"@),
        ),
        next_open_action(Some(OpenReport::Config(Err(reason)))) == OpenActionView::Done(
            Err("no se pudo abrir el micrófono: "@ + reason@),
        ),
        next_open_action(Some(OpenReport::Config(Ok(SampleKind::Other(reason)))))
            == OpenActionView::Done(Err("formato de audio no soportado: "@ + reason@)),
        next_open_action(Some(OpenReport::Built(Err(reason)))) == OpenActionView::Done(
            Err("no se pudo iniciar la captura: "@ + reason@),
        ),
        next_open_action(Some(OpenReport::Playing(Err(reason)))) == OpenActionView::Done(
            Err("no se pudo grabar: "@ + reason@),
        ),
{
}

/// A step that went well leads to the next: find the microphone, ask how it records, build a stream
/// of just the samples that it has, and set it going.
pub proof fn law_steps_follow_one_another(kind: SampleKind)
    requires
        !(kind is Other),
    ensures
        next_open_action(None) is FindDevice,
        next_open_action(Some(OpenReport::Device(true))) is ReadConfig,
        next_open_action(Some(OpenReport::Config(Ok(kind)))) == OpenActionView::Build(kind),
        next_open_action(Some(OpenReport::Built(Ok(())))) is Play,
        next_open_action(Some(OpenReport::Playing(Ok(())))) is Done,
        next_open_action(Some(OpenReport::Playing(Ok(()))))->Done_0 is Ok,
{
}

/// An action is seen with all that it holds.
pub proof fn law_actions_are_seen_whole(kind: SampleKind, e: String)
    ensures
        OpenAction::Build(kind)@ == OpenActionView::Build(kind),
        OpenAction::Done(Err(e))@ == OpenActionView::Done(Err(e@)),
        OpenAction::Done(Ok(()))@ == OpenActionView::Done(Ok(())),
{
}

} // verus!
