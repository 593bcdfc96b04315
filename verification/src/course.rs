//! What holds of a dictation whatever happens, in whatever order.

use crate::audio::Cmd;
use crate::config::ConfigView;
use crate::dictation::{
    one_more, AppModel, EffectView, InsertActionView, InsertReportView, Phase, SegmentStepView, Shown,
};
use crate::recorder::{RecorderView, SignalView};
use crate::text::{
    blank, clean, joined, law_clean_stays, law_joined_is_clean, law_trimmed_is_clean, trimmed,
};
use crate::tray::{choice_of, law_identifiers_mean_what_they_say, MenuChoiceView};
use vstd::prelude::*;
use std::sync::mpsc::Sender;

verus! {

/// Something that happens to the program.
pub enum Event {
    Toggle,
    Start,
    Pause,
    Resume,
    Cancel(Sender<Result<(), String>>),
    Finish(Sender<Result<(), String>>),
    ClipboardSaved(Option<Seq<char>>),
    Restored,
    AudioClosed(usize, Option<Result<(), Seq<char>>>),
    Deliver(usize),
    Pasted(usize, Option<Seq<char>>, bool),
    RecordingClosed,
    Queued,
    Dequeued,
    Transcribed(usize, bool, Result<Seq<char>, Seq<char>>),
    Kept(usize, Seq<char>),
    TimedOut,
    Chosen(Seq<char>),
    ShortcutTried(Seq<char>, bool),
    Keyed(Seq<char>),
    Launched,
}

/// The state after an event.
pub open spec fn after(m: AppModel, event: Event) -> AppModel {
    match event {
        Event::Toggle => m.toggled(),
        Event::Start => m.started(),
        Event::Pause => m.paused(),
        Event::Resume => m.resumed(),
        Event::Cancel(reply) => m.cancelled(reply),
        Event::Finish(reply) => m.finished(reply),
        Event::ClipboardSaved(contents) => AppModel { clipboard: contents, ..m },
        Event::Restored => m.restored(),
        Event::AudioClosed(session, answer) => m.audio_closed(session, answer),
        Event::Deliver(session) => m.delivered(session),
        Event::Pasted(session, failure, copied) => m.pasted(session, failure, copied),
        Event::RecordingClosed => m.recording_closed(),
        Event::Queued => m.queued(),
        Event::Dequeued => m.dequeued(),
        Event::Transcribed(session, polish, outcome) => m.transcribed(session, polish, outcome),
        Event::Kept(session, text) => m.kept(session, text),
        Event::TimedOut => m.timed_out(),
        Event::Chosen(id) => m.chosen(id),
        Event::ShortcutTried(choice, worked) => m.shortcut_tried(choice, worked),
        Event::Keyed(api_key) => m.keyed(api_key),
        Event::Launched => m.launched(),
    }
}

/// The state after several events.
pub open spec fn after_all(m: AppModel, events: Seq<Event>) -> AppModel
    decreases events.len(),
{
    if events.len() == 0 {
        m
    } else {
        after(after_all(m, events.drop_last()), events.last())
    }
}

/// What an event adds to what is to be done.
pub open spec fn added(m: AppModel, event: Event) -> Seq<EffectView> {
    after(m, event).effects.skip(m.effects.len() as int)
}

/// The effect that gives the clipboard its old contents back, where they are known.
spec fn restoring(m: AppModel) -> Seq<EffectView> {
    match m.clipboard {
        Some(previous) => seq![EffectView::RestoreClipboard(previous)],
        None => Seq::empty(),
    }
}

/// The effects of beginning a dictation.
spec fn starting(m: AppModel) -> Seq<EffectView> {
    if !m.config.has_key() {
        seq![EffectView::OpenSettings]
    } else if m.phase != Phase::Idle {
        Seq::empty()
    } else {
        seq![
            EffectView::SaveClipboard,
            EffectView::Preview(Seq::empty()),
            EffectView::Audio(Cmd::Start),
            EffectView::ShowIsland,
            EffectView::Show(Shown::Listening, None),
            EffectView::GrabKeys,
        ]
    }
}

/// The effects of pausing.
spec fn pausing(m: AppModel) -> Seq<EffectView> {
    if m.phase == Phase::Recording {
        seq![EffectView::Audio(Cmd::Pause), EffectView::Show(Shown::Paused, None)]
    } else {
        Seq::empty()
    }
}

/// The effects of resuming.
spec fn resuming(m: AppModel) -> Seq<EffectView> {
    if m.phase == Phase::Paused {
        seq![EffectView::Audio(Cmd::Resume), EffectView::Show(Shown::Listening, None)]
    } else {
        Seq::empty()
    }
}

/// The effects of each event, one by one.
spec fn effects_of(m: AppModel, event: Event) -> Seq<EffectView> {
    let idle = m.phase == Phase::Idle;
    match event {
        Event::Toggle => match m.phase {
            Phase::Recording => pausing(m),
            Phase::Paused => resuming(m),
            Phase::Idle => starting(m),
        },
        Event::Start => starting(m),
        Event::Pause => pausing(m),
        Event::Resume => resuming(m),
        Event::Restored => restoring(m),
        Event::Cancel(reply) => if idle {
            Seq::empty()
        } else {
            seq![EffectView::ReleaseKeys, EffectView::Audio(Cmd::Stop(reply))] + restoring(m)
                + seq![EffectView::HideIsland]
        },
        Event::Finish(reply) => if idle {
            Seq::empty()
        } else {
            seq![EffectView::ReleaseKeys, EffectView::Audio(Cmd::Stop(reply))]
        },
        Event::AudioClosed(session, answer) => if answer is Some && answer->0 is Err {
            seq![
                EffectView::Show(Shown::Error, Some(answer->0->Err_0)),
                EffectView::HideIslandAfter(2600),
            ] + if m.concluding(session) {
                restoring(m)
            } else {
                Seq::empty()
            }
        } else if m.pending > 0 {
            seq![EffectView::Show(Shown::Transcribing, None)]
        } else {
            Seq::empty()
        },
        Event::Deliver(session) => if m.concluding(session) && m.text().len() == 0 {
            seq![
                EffectView::Show(Shown::Error, Some("No se entendió nada"@)),
                EffectView::HideIslandAfter(2000),
            ] + restoring(m)
        } else {
            Seq::empty()
        },
        Event::Pasted(session, failure, copied) => (match failure {
            None => seq![EffectView::Show(Shown::Done, None), EffectView::HideIslandAfter(650)],
            Some(e) => seq![
                EffectView::Show(Shown::Error, Some(e + ". Está copiado: pega con Ctrl+V"@)),
                EffectView::HideIslandAfter(3200),
            ],
        }) + if m.concluding(session) && !(failure is Some && copied) {
            restoring(m)
        } else {
            Seq::empty()
        },
        Event::Transcribed(session, polish, outcome) => if m.session != session {
            Seq::empty()
        } else {
            match outcome {
                Err(e) => seq![
                    EffectView::Show(Shown::Error, Some(e)),
                    EffectView::HideIslandAfter(2600),
                ],
                Ok(text) => if !blank(text) && polish {
                    seq![EffectView::Preview(joined(m.transcript.push(text)))]
                } else {
                    Seq::empty()
                },
            }
        },
        Event::Kept(session, text) => if blank(text) || m.session != session {
            Seq::empty()
        } else {
            seq![EffectView::Preview(joined(m.transcript.push(trimmed(text))))]
        },
        Event::TimedOut => if idle {
            seq![EffectView::HideIsland]
        } else {
            Seq::empty()
        },
        Event::Chosen(id) => match choice_of(id) {
            MenuChoiceView::Quit => seq![EffectView::Quit],
            MenuChoiceView::Settings => seq![EffectView::OpenSettings],
            MenuChoiceView::Polish => seq![
                EffectView::SaveConfig(ConfigView { polish: !m.config.polish, ..m.config }),
            ],
            MenuChoiceView::Autostart => seq![EffectView::ToggleAutostart],
            MenuChoiceView::Shortcut(choice) => seq![EffectView::TryShortcut(choice)],
            MenuChoiceView::Nothing => Seq::empty(),
        },
        Event::ShortcutTried(choice, worked) => if worked {
            seq![EffectView::SaveConfig(ConfigView { shortcut: choice, ..m.config })]
        } else {
            seq![EffectView::KeepShortcut(m.config.shortcut)]
        },
        Event::Launched => if m.config.has_key() {
            Seq::empty()
        } else {
            seq![EffectView::OpenSettings]
        },
        _ => Seq::empty(),
    }
}

proof fn lemma_after_is_doing(m: AppModel, event: Event)
    ensures
        after(m, event).effects == m.effects + effects_of(m, event),
{
    match event {
        Event::Toggle => {
            assert(m.toggled().effects =~= m.effects + effects_of(m, event));
        },
        Event::Start => {
            assert(m.started().effects =~= m.effects + effects_of(m, event));
        },
        Event::Pause => {
            assert(m.paused().effects =~= m.effects + effects_of(m, event));
        },
        Event::Resume => {
            assert(m.resumed().effects =~= m.effects + effects_of(m, event));
        },
        Event::Restored => {
            assert(m.restored().effects =~= m.effects + effects_of(m, event));
        },
        Event::Cancel(reply) => {
            assert(m.cancelled(reply).effects =~= m.effects + effects_of(m, event));
        },
        Event::Finish(reply) => {
            assert(m.finished(reply).effects =~= m.effects + effects_of(m, event));
        },
        Event::AudioClosed(session, answer) => {
            assert(m.audio_closed(session, answer).effects =~= m.effects + effects_of(m, event));
        },
        Event::Deliver(session) => {
            assert(m.delivered(session).effects =~= m.effects + effects_of(m, event));
        },
        Event::Pasted(session, failure, copied) => {
            assert(m.pasted(session, failure, copied).effects =~= m.effects + effects_of(m, event));
        },
        Event::Transcribed(session, polish, outcome) => {
            assert(m.transcribed(session, polish, outcome).effects =~= m.effects + effects_of(
                m,
                event,
            ));
        },
        Event::Kept(session, text) => {
            assert(m.kept(session, text).effects =~= m.effects + effects_of(m, event));
        },
        Event::TimedOut => {
            assert(m.timed_out().effects =~= m.effects + effects_of(m, event));
        },
        Event::Chosen(id) => {
            assert(m.chosen(id).effects =~= m.effects + effects_of(m, event));
        },
        Event::ShortcutTried(choice, worked) => {
            assert(m.shortcut_tried(choice, worked).effects =~= m.effects + effects_of(m, event));
        },
        Event::Launched => {
            assert(m.launched().effects =~= m.effects + effects_of(m, event));
        },
        _ => {
            assert(after(m, event).effects =~= m.effects + effects_of(m, event));
        },
    }
}

proof fn lemma_added(m: AppModel, event: Event)
    ensures
        added(m, event) == effects_of(m, event),
        after(m, event).effects == m.effects + added(m, event),
{
    lemma_after_is_doing(m, event);
    assert((m.effects + effects_of(m, event)).skip(m.effects.len() as int) =~= effects_of(
        m,
        event,
    ));
}

/// No event takes back anything that is to be done, or changes its order: it only adds to the end.
pub proof fn law_effects_are_only_added(m: AppModel, event: Event)
    ensures
        after(m, event).effects == m.effects + added(m, event),
{
    lemma_added(m, event);
}

// ---------------------------------------------------------------- keys and microphone

/// The event begins a dictation.
spec fn begins(m: AppModel, event: Event) -> bool {
    (event is Toggle || event is Start) && m.phase == Phase::Idle && m.config.has_key()
}

/// The event ends a dictation.
spec fn ends(m: AppModel, event: Event) -> bool {
    (event is Cancel || event is Finish) && m.phase != Phase::Idle
}

/// The phase after an event.
spec fn phase_after(m: AppModel, event: Event) -> Phase {
    match event {
        Event::Toggle => m.toggled().phase,
        Event::Start => m.started().phase,
        Event::Pause => m.paused().phase,
        Event::Resume => m.resumed().phase,
        Event::Cancel(_) => Phase::Idle,
        Event::Finish(_) => Phase::Idle,
        _ => m.phase,
    }
}

proof fn lemma_phase(m: AppModel, event: Event)
    ensures
        after(m, event).phase == phase_after(m, event),
{
}

proof fn lemma_idle_changes(m: AppModel, event: Event)
    ensures
        begins(m, event) <==> m.phase == Phase::Idle && phase_after(m, event) != Phase::Idle,
        ends(m, event) <==> m.phase != Phase::Idle && phase_after(m, event) == Phase::Idle,
{
}

/// Neither claims the keys nor gives them back.
spec fn leaves_keys(effects: Seq<EffectView>) -> bool {
    forall|i: int|
        0 <= i < effects.len() ==> !(#[trigger] effects[i] is GrabKeys) && !(effects[i] is ReleaseKeys)
}

proof fn lemma_keys_left(m: AppModel, event: Event)
    requires
        !begins(m, event),
        !ends(m, event),
    ensures
        leaves_keys(effects_of(m, event)),
{
}

proof fn lemma_keys_changed(m: AppModel, event: Event)
    ensures
        begins(m, event) ==> effects_of(m, event).contains(EffectView::GrabKeys) && !effects_of(
            m,
            event,
        ).contains(EffectView::ReleaseKeys),
        ends(m, event) ==> effects_of(m, event).contains(EffectView::ReleaseKeys) && !effects_of(
            m,
            event,
        ).contains(EffectView::GrabKeys),
{
    let new = effects_of(m, event);
    if begins(m, event) {
        assert(new == starting(m));
        assert(new[5] == EffectView::GrabKeys);
    }
    if ends(m, event) {
        assert(new[0] == EffectView::ReleaseKeys);
    }
}

/// The events that begin a dictation claim `Enter` and `Esc` from other applications, those that end
/// one give them back, and no other event asks for either.
pub proof fn law_keys_are_claimed_with_the_dictation(m: AppModel, event: Event)
    ensures
        added(m, event).contains(EffectView::GrabKeys) <==> m.phase == Phase::Idle && after(
            m,
            event,
        ).phase != Phase::Idle,
        added(m, event).contains(EffectView::ReleaseKeys) <==> m.phase != Phase::Idle && after(
            m,
            event,
        ).phase == Phase::Idle,
{
    lemma_added(m, event);
    lemma_phase(m, event);
    lemma_idle_changes(m, event);
    lemma_keys_changed(m, event);
    if !begins(m, event) && !ends(m, event) {
        lemma_keys_left(m, event);
    }
}

/// Whether `Enter` and `Esc` are claimed from other applications once `effects` are carried out in
/// order, where `held` says whether they were before. To change the shortcut, all keys are given up.
pub open spec fn holding(held: bool, effects: Seq<EffectView>) -> bool
    decreases effects.len(),
{
    if effects.len() == 0 {
        held
    } else {
        match effects.last() {
            EffectView::GrabKeys => true,
            EffectView::ReleaseKeys => false,
            EffectView::TryShortcut(_) => false,
            EffectView::KeepShortcut(_) => false,
            _ => holding(held, effects.drop_last()),
        }
    }
}

/// The event has the shortcut changed, or changed back.
pub open spec fn changes_shortcut(event: Event) -> bool {
    match event {
        Event::Chosen(id) => choice_of(id) is Shortcut,
        Event::ShortcutTried(_, worked) => !worked,
        _ => false,
    }
}

/// Has nothing to do with the keys.
spec fn keyless(effect: EffectView) -> bool {
    match effect {
        EffectView::GrabKeys => false,
        EffectView::ReleaseKeys => false,
        EffectView::TryShortcut(_) => false,
        EffectView::KeepShortcut(_) => false,
        _ => true,
    }
}

proof fn lemma_holding_on(held: bool, effects: Seq<EffectView>)
    requires
        forall|i: int| 0 <= i < effects.len() ==> keyless(#[trigger] effects[i]),
    ensures
        holding(held, effects) == held,
    decreases effects.len(),
{
    if effects.len() > 0 {
        let front = effects.drop_last();
        assert(forall|i: int| 0 <= i < front.len() ==> front[i] == effects[i]);
        lemma_holding_on(held, front);
        assert(keyless(effects[effects.len() - 1]));
    }
}

proof fn lemma_holding_after(held: bool, effects: Seq<EffectView>, at: int, claimed: bool)
    requires
        0 <= at < effects.len(),
        claimed ==> effects[at] is GrabKeys,
        !claimed ==> effects[at] is ReleaseKeys || effects[at] is TryShortcut || effects[at] is KeepShortcut,
        forall|i: int| at < i < effects.len() ==> keyless(#[trigger] effects[i]),
    ensures
        holding(held, effects) == claimed,
    decreases effects.len(),
{
    if at < effects.len() - 1 {
        let front = effects.drop_last();
        assert(forall|i: int| 0 <= i < front.len() ==> front[i] == effects[i]);
        lemma_holding_after(held, front, at, claimed);
        assert(keyless(effects[effects.len() - 1]));
    }
}

proof fn lemma_keyless(m: AppModel, event: Event)
    requires
        !begins(m, event),
        !ends(m, event),
        !changes_shortcut(event),
    ensures
        forall|i: int|
            0 <= i < effects_of(m, event).len() ==> keyless(#[trigger] effects_of(m, event)[i]),
{
}

/// `Enter` and `Esc` are never withheld from other applications without a dictation. During one they
/// are, unless the shortcut is changed in the middle of it: that gives up all keys.
pub proof fn law_keys_are_held_while_dictating(m: AppModel, event: Event, held: bool)
    ensures
        ({
            let next = after(m, event).phase != Phase::Idle;
            let holds = holding(held, added(m, event));
            &&& (held ==> m.phase != Phase::Idle) ==> (holds ==> next)
            &&& held == (m.phase != Phase::Idle) && (m.phase == Phase::Idle || !changes_shortcut(
                event,
            )) ==> holds == next
        }),
{
    lemma_added(m, event);
    lemma_phase(m, event);
    lemma_idle_changes(m, event);
    let new = effects_of(m, event);
    if begins(m, event) {
        assert(new == starting(m));
        lemma_holding_after(held, new, 5, true);
    } else if ends(m, event) {
        assert(forall|i: int| 0 < i < new.len() ==> keyless(#[trigger] new[i]));
        lemma_holding_after(held, new, 0, false);
    } else if changes_shortcut(event) {
        lemma_holding_after(held, new, 0, false);
    } else {
        lemma_keyless(m, event);
        lemma_holding_on(held, new);
    }
}

/// What becomes of the audio thread on a command, where `opened` is how opening the microphone
/// goes, if it comes to that.
pub open spec fn obeying(
    recorder: RecorderView,
    cmd: Cmd,
    opened: Result<(), Seq<char>>,
) -> RecorderView {
    let next = recorder.next(SignalView::Command(cmd));
    if recorder is Idle && cmd is Start {
        next.next(SignalView::Opened(opened))
    } else {
        next
    }
}

/// What becomes of the audio thread while `effects` are carried out in order.
pub open spec fn heeding(
    recorder: RecorderView,
    effects: Seq<EffectView>,
    opened: Result<(), Seq<char>>,
) -> RecorderView
    decreases effects.len(),
{
    if effects.len() == 0 {
        recorder
    } else {
        let before = heeding(recorder, effects.drop_last(), opened);
        match effects.last() {
            EffectView::Audio(cmd) => obeying(before, cmd, opened),
            _ => before,
        }
    }
}

/// The audio thread does what the phase of the dictation says, or knows why it cannot.
pub open spec fn in_step(phase: Phase, recorder: RecorderView) -> bool {
    match phase {
        Phase::Idle => recorder is Idle,
        Phase::Recording => recorder is Broken || recorder == RecorderView::Live { paused: false },
        Phase::Paused => recorder is Broken || recorder == RecorderView::Live { paused: true },
    }
}

proof fn lemma_heeding_nothing(
    recorder: RecorderView,
    effects: Seq<EffectView>,
    opened: Result<(), Seq<char>>,
)
    requires
        forall|i: int| 0 <= i < effects.len() ==> !(#[trigger] effects[i] is Audio),
    ensures
        heeding(recorder, effects, opened) == recorder,
    decreases effects.len(),
{
    if effects.len() > 0 {
        let front = effects.drop_last();
        assert(forall|i: int| 0 <= i < front.len() ==> front[i] == effects[i]);
        lemma_heeding_nothing(recorder, front, opened);
        assert(!(effects[effects.len() - 1] is Audio));
    }
}

proof fn lemma_heeding_one(
    recorder: RecorderView,
    effects: Seq<EffectView>,
    opened: Result<(), Seq<char>>,
    at: int,
    cmd: Cmd,
)
    requires
        0 <= at < effects.len(),
        effects[at] == EffectView::Audio(cmd),
        forall|i: int| 0 <= i < effects.len() && i != at ==> !(#[trigger] effects[i] is Audio),
    ensures
        heeding(recorder, effects, opened) == obeying(recorder, cmd, opened),
    decreases effects.len(),
{
    let front = effects.drop_last();
    assert(forall|i: int| 0 <= i < front.len() ==> front[i] == effects[i]);
    if at == effects.len() - 1 {
        lemma_heeding_nothing(recorder, front, opened);
    } else {
        lemma_heeding_one(recorder, front, opened, at, cmd);
        assert(!(effects[effects.len() - 1] is Audio));
    }
}

proof fn lemma_heeding_start(
    m: AppModel,
    recorder: RecorderView,
    opened: Result<(), Seq<char>>,
)
    requires
        in_step(m.phase, recorder),
    ensures
        in_step(m.started().phase, heeding(recorder, starting(m), opened)),
{
    if m.phase == Phase::Idle && m.config.has_key() {
        lemma_heeding_one(recorder, starting(m), opened, 2, Cmd::Start);
    } else {
        lemma_heeding_nothing(recorder, starting(m), opened);
    }
}

proof fn lemma_heeding_pause(
    m: AppModel,
    recorder: RecorderView,
    opened: Result<(), Seq<char>>,
)
    requires
        in_step(m.phase, recorder),
    ensures
        in_step(m.paused().phase, heeding(recorder, pausing(m), opened)),
{
    if m.phase == Phase::Recording {
        lemma_heeding_one(recorder, pausing(m), opened, 0, Cmd::Pause);
    } else {
        lemma_heeding_nothing(recorder, pausing(m), opened);
    }
}

proof fn lemma_heeding_resume(
    m: AppModel,
    recorder: RecorderView,
    opened: Result<(), Seq<char>>,
)
    requires
        in_step(m.phase, recorder),
    ensures
        in_step(m.resumed().phase, heeding(recorder, resuming(m), opened)),
{
    if m.phase == Phase::Paused {
        lemma_heeding_one(recorder, resuming(m), opened, 0, Cmd::Resume);
    } else {
        lemma_heeding_nothing(recorder, resuming(m), opened);
    }
}

proof fn lemma_heeding_stop(
    m: AppModel,
    event: Event,
    recorder: RecorderView,
    opened: Result<(), Seq<char>>,
    reply: Sender<Result<(), String>>,
)
    requires
        in_step(m.phase, recorder),
        event == Event::Cancel(reply) || event == Event::Finish(reply),
    ensures
        heeding(recorder, effects_of(m, event), opened) is Idle,
{
    if m.phase == Phase::Idle {
        lemma_heeding_nothing(recorder, effects_of(m, event), opened);
    } else {
        lemma_heeding_one(recorder, effects_of(m, event), opened, 1, Cmd::Stop(reply));
    }
}

/// The event has nothing to do with the microphone.
spec fn silent(event: Event) -> bool {
    match event {
        Event::Toggle => false,
        Event::Start => false,
        Event::Pause => false,
        Event::Resume => false,
        Event::Cancel(_) => false,
        Event::Finish(_) => false,
        _ => true,
    }
}

proof fn lemma_no_command(m: AppModel, event: Event)
    requires
        silent(event),
    ensures
        forall|i: int|
            0 <= i < effects_of(m, event).len() ==> !(#[trigger] effects_of(m, event)[i] is Audio),
{
}

proof fn lemma_in_step(
    m: AppModel,
    event: Event,
    recorder: RecorderView,
    opened: Result<(), Seq<char>>,
)
    requires
        in_step(m.phase, recorder),
    ensures
        in_step(phase_after(m, event), heeding(recorder, effects_of(m, event), opened)),
{
    match event {
        Event::Toggle => {
            lemma_heeding_start(m, recorder, opened);
            lemma_heeding_pause(m, recorder, opened);
            lemma_heeding_resume(m, recorder, opened);
        },
        Event::Start => {
            lemma_heeding_start(m, recorder, opened);
        },
        Event::Pause => {
            lemma_heeding_pause(m, recorder, opened);
        },
        Event::Resume => {
            lemma_heeding_resume(m, recorder, opened);
        },
        Event::Cancel(reply) => {
            lemma_heeding_stop(m, event, recorder, opened, reply);
        },
        Event::Finish(reply) => {
            lemma_heeding_stop(m, event, recorder, opened, reply);
        },
        _ => {
            lemma_no_command(m, event);
            lemma_heeding_nothing(recorder, effects_of(m, event), opened);
        },
    }
}

/// The audio thread follows the dictation: where it was in step with the phase and carries out what
/// an event adds, it is in step with the new phase, whether or not the microphone can be opened.
pub proof fn law_recorder_follows_the_phase(
    m: AppModel,
    event: Event,
    recorder: RecorderView,
    opened: Result<(), Seq<char>>,
)
    requires
        in_step(m.phase, recorder),
    ensures
        in_step(after(m, event).phase, heeding(recorder, added(m, event), opened)),
{
    lemma_added(m, event);
    lemma_phase(m, event);
    lemma_in_step(m, event, recorder, opened);
}

/// Pausing and resuming leaves the dictation as it was: two presses of the shortcut during a
/// dictation change nothing but what is to be done.
pub proof fn law_two_presses_change_nothing(m: AppModel)
    requires
        m.phase != Phase::Idle,
    ensures
        after(after(m, Event::Toggle), Event::Toggle) == (AppModel {
            effects: after(after(m, Event::Toggle), Event::Toggle).effects,
            ..m
        }),
{
}

/// `Esc` and `Enter` do nothing without a dictation, and end it otherwise.
pub proof fn law_escape_and_enter_end_the_dictation(
    m: AppModel,
    reply: Sender<Result<(), String>>,
)
    ensures
        m.phase == Phase::Idle ==> m.cancelled(reply) == m && m.finished(reply) == m,
        m.cancelled(reply).phase == Phase::Idle,
        m.finished(reply).phase == Phase::Idle,
{
}

// ---------------------------------------------------------------- sentences

/// All sentences are clean: none is blank, and none has white space around it.
pub open spec fn tidy(m: AppModel) -> bool {
    forall|i: int| 0 <= i < m.transcript.len() ==> clean(#[trigger] m.transcript[i])
}

/// Sentences are clean from the start, and every event keeps them so.
pub proof fn law_sentences_stay_clean(config: ConfigView, m: AppModel, event: Event)
    ensures
        tidy(AppModel::initial(config)),
        tidy(m) ==> tidy(after(m, event)),
{
    law_sentences_stay_in_order(m, event);
    let sentences = after(m, event).transcript;
    if tidy(m) && event is Kept && sentences != m.transcript {
        let text = event->Kept_1;
        law_trimmed_is_clean(text);
        assert(!blank(text));
        assert(sentences == m.transcript.push(trimmed(text)));
        assert forall|i: int| 0 <= i < sentences.len() implies clean(#[trigger] sentences[i]) by {
            if i < m.transcript.len() {
                assert(sentences[i] == m.transcript[i]);
            }
        }
    }
}

/// The text that is inserted is exactly the sentences with a space between them, and there is none
/// to insert exactly when there is no sentence.
pub proof fn law_text_is_the_sentences(m: AppModel)
    requires
        tidy(m),
    ensures
        m.text() == joined(m.transcript),
        m.text().len() == 0 <==> m.transcript.len() == 0,
{
    if m.transcript.len() > 0 {
        law_joined_is_clean(m.transcript);
        law_clean_stays(joined(m.transcript));
    }
}

/// What the island shows when a sentence has been settled is what `Enter` would insert.
pub proof fn law_the_preview_is_what_is_inserted(m: AppModel, session: usize, text: Seq<char>)
    requires
        tidy(m),
        !blank(text),
        m.session == session,
    ensures
        ({
            let event = Event::Kept(session, text);
            added(m, event) == seq![EffectView::Preview(after(m, event).text())]
        }),
{
    let event = Event::Kept(session, text);
    lemma_added(m, event);
    law_sentences_stay_clean(m.config, m, event);
    law_text_is_the_sentences(after(m, event));
}

/// Sentences stay in the order in which they were settled: an event adds one to the end, leaves them
/// all, or, at the start of a dictation and on `Esc`, clears them all.
pub proof fn law_sentences_stay_in_order(m: AppModel, event: Event)
    ensures
        ({
            let sentences = after(m, event).transcript;
            ||| sentences == m.transcript
            ||| event is Kept && sentences == m.transcript.push(trimmed(event->Kept_1))
            ||| (event is Toggle || event is Start || event is Cancel) && sentences.len() == 0 && after(
                m,
                event,
            ).session != m.session
        }),
{
}

/// A new session begins exactly with a dictation and with `Esc`.
pub proof fn law_sessions_change_with_dictations(m: AppModel, event: Event)
    ensures
        after(m, event).session == if ((event is Toggle || event is Start) && m.phase == Phase::Idle
            && m.config.has_key()) || (event is Cancel && m.phase != Phase::Idle) {
            one_more(m.session)
        } else {
            m.session
        },
{
}

/// How many of the events begin a new session.
pub open spec fn session_changes(m: AppModel, events: Seq<Event>) -> nat
    decreases events.len(),
{
    if events.len() == 0 {
        0
    } else {
        let before = after_all(m, events.drop_last());
        session_changes(m, events.drop_last()) + if after(before, events.last()).session
            != before.session {
            1nat
        } else {
            0nat
        }
    }
}

proof fn lemma_session_after_all(m: AppModel, events: Seq<Event>)
    requires
        session_changes(m, events) <= usize::MAX,
    ensures
        ({
            let n = m.session + session_changes(m, events);
            after_all(m, events).session == if n <= usize::MAX {
                n
            } else {
                n - usize::MAX - 1
            }
        }),
    decreases events.len(),
{
    if events.len() > 0 {
        let front = events.drop_last();
        lemma_session_after_all(m, front);
        law_sessions_change_with_dictations(after_all(m, front), events.last());
    }
}

/// A sentence of a session that has since been thrown away or followed by another changes nothing
/// any more, and nothing of it shows, however late its transcript and its text come. (Sessions are
/// counted in a `usize`, so it takes fewer changes than that has values.)
pub proof fn law_stale_sentences_change_nothing(
    m: AppModel,
    events: Seq<Event>,
    polish: bool,
    outcome: Result<Seq<char>, Seq<char>>,
    text: Seq<char>,
)
    requires
        1 <= session_changes(m, events) <= usize::MAX,
    ensures
        after_all(m, events).session != m.session,
        after(after_all(m, events), Event::Transcribed(m.session, polish, outcome)) == after_all(
            m,
            events,
        ),
        after_all(m, events).segment_step(m.session, polish, outcome) is Drop,
        after(after_all(m, events), Event::Kept(m.session, text)) == after_all(m, events),
{
    lemma_session_after_all(m, events);
}

/// No recording began in a later session than the present one.
pub open spec fn dated(m: AppModel) -> bool {
    forall|i: int| 0 <= i < m.recordings.len() ==> #[trigger] m.recordings[i] <= m.session
}

/// No recording begins in a later session than the present one, from the start on, as long as the
/// count of sessions does not go round. So no sentence comes with a later session either.
pub proof fn law_recordings_are_dated(config: ConfigView, m: AppModel, event: Event)
    ensures
        dated(AppModel::initial(config)),
        dated(m) && m.session < usize::MAX ==> dated(after(m, event)),
        dated(m) && m.heard_in() is Some ==> m.heard_in()->0 <= m.session,
{
    lemma_recordings(m, event);
    law_sessions_change_with_dictations(m, event);
    if dated(m) && m.session < usize::MAX {
        let next = after(m, event);
        assert forall|i: int| 0 <= i < next.recordings.len() implies #[trigger] next.recordings[i]
            <= next.session by {
            if event is RecordingClosed {
                assert(next.recordings[i] == m.recordings[i + 1]);
            } else if i < m.recordings.len() {
                assert(next.recordings[i] == m.recordings[i]);
            }
        }
    }
}

/// The recordings that are open change only where one begins, which comes last, and where the audio
/// thread closes one, which is the first.
proof fn lemma_recordings(m: AppModel, event: Event)
    ensures
        after(m, event).recordings == if begins(m, event) {
            m.recordings.push(one_more(m.session))
        } else if event is RecordingClosed && m.recordings.len() > 0 {
            m.recordings.drop_first()
        } else {
            m.recordings
        },
{
}

/// How often the audio thread closes a recording in the course of `events`.
pub open spec fn closings(events: Seq<Event>) -> nat
    decreases events.len(),
{
    if events.len() == 0 {
        0
    } else {
        closings(events.drop_last()) + if events.last() is RecordingClosed {
            1nat
        } else {
            0nat
        }
    }
}

/// The audio thread works recordings off in their order: until it has closed those that were open at
/// some time, all that comes from it belongs to them, to each in turn, whatever else happens.
pub proof fn law_sentences_belong_to_their_recording(m: AppModel, events: Seq<Event>)
    requires
        closings(events) < m.recordings.len(),
    ensures
        after_all(m, events).heard_in() == Some(m.recordings[closings(events) as int]),
{
    lemma_recordings_after_all(m, events);
}

proof fn lemma_recordings_after_all(m: AppModel, events: Seq<Event>)
    requires
        closings(events) < m.recordings.len(),
    ensures
        ({
            let open = after_all(m, events).recordings;
            let gone = closings(events) as int;
            &&& open.len() >= m.recordings.len() - gone
            &&& forall|i: int|
                0 <= i < m.recordings.len() - gone ==> #[trigger] open[i] == m.recordings[i + gone]
        }),
    decreases events.len(),
{
    if events.len() > 0 {
        let front = events.drop_last();
        lemma_recordings_after_all(m, front);
        let before = after_all(m, front);
        lemma_recordings(before, events.last());
        let open = after(before, events.last()).recordings;
        let gone = closings(events) as int;
        assert forall|i: int| 0 <= i < m.recordings.len() - gone implies #[trigger] open[i]
            == m.recordings[i + gone] by {
            if events.last() is RecordingClosed {
                assert(open[i] == before.recordings[i + 1]);
            } else {
                assert(open[i] == before.recordings[i]);
            }
        }
    }
}

/// How many of the events end a dictation.
pub open spec fn endings(m: AppModel, events: Seq<Event>) -> nat
    decreases events.len(),
{
    if events.len() == 0 {
        0
    } else {
        let before = after_all(m, events.drop_last());
        endings(m, events.drop_last()) + if before.phase != Phase::Idle && after(
            before,
            events.last(),
        ).phase == Phase::Idle {
            1nat
        } else {
            0nat
        }
    }
}

/// One recording is open for each that the audio thread still owes, and one for the dictation under
/// way, which comes last.
spec fn accounted(m: AppModel, owed: int) -> bool {
    if m.phase == Phase::Idle {
        m.recordings.len() == owed
    } else {
        m.recordings.len() == owed + 1 && m.recordings.last() == m.session
    }
}

proof fn lemma_accounted(m: AppModel, event: Event, owed: int)
    requires
        accounted(m, owed),
        event is RecordingClosed ==> owed >= 1,
    ensures
        ends(m, event) ==> accounted(after(m, event), owed + 1),
        event is RecordingClosed ==> accounted(after(m, event), owed - 1),
        !ends(m, event) && !(event is RecordingClosed) ==> accounted(after(m, event), owed),
{
    lemma_recordings(m, event);
    lemma_phase(m, event);
    lemma_idle_changes(m, event);
    law_sessions_change_with_dictations(m, event);
}

proof fn lemma_endings(m: AppModel, events: Seq<Event>)
    requires
        events.len() > 0,
    ensures
        endings(m, events) == endings(m, events.drop_last()) + if ends(
            after_all(m, events.drop_last()),
            events.last(),
        ) {
            1nat
        } else {
            0nat
        },
{
    let before = after_all(m, events.drop_last());
    lemma_phase(before, events.last());
    lemma_idle_changes(before, events.last());
}

#[verifier::rlimit(40)]
proof fn lemma_all_accounted(config: ConfigView, events: Seq<Event>)
    requires
        forall|n: int|
            0 <= n <= events.len() ==> closings(#[trigger] events.take(n)) <= endings(
                AppModel::initial(config),
                events.take(n),
            ),
    ensures
        accounted(
            after_all(AppModel::initial(config), events),
            endings(AppModel::initial(config), events) - closings(events),
        ),
    decreases events.len(),
{
    if events.len() > 0 {
        let start = AppModel::initial(config);
        let front = events.drop_last();
        assert forall|n: int| 0 <= n <= front.len() implies closings(#[trigger] front.take(n))
            <= endings(start, front.take(n)) by {
            assert(front.take(n) =~= events.take(n));
        }
        lemma_all_accounted(config, front);
        assert(events.take(events.len() as int) =~= events);
        lemma_endings(start, events);
        lemma_accounted(
            after_all(start, front),
            events.last(),
            endings(start, front) - closings(front),
        );
    }
}

/// What is said during a dictation counts for it, to the last sentence: as long as the audio thread
/// closes no recording before its dictation ends, there is one open recording for each that it still
/// owes, and one for the dictation under way, which comes last. So once the older ones are closed,
/// all that comes belongs to the dictation, also what comes after `Enter` has ended it.
pub proof fn law_what_is_said_counts_for_the_dictation(
    config: ConfigView,
    events: Seq<Event>,
    reply: Sender<Result<(), String>>,
)
    requires
        forall|n: int|
            0 <= n <= events.len() ==> closings(#[trigger] events.take(n)) <= endings(
                AppModel::initial(config),
                events.take(n),
            ),
    ensures
        ({
            let m = after_all(AppModel::initial(config), events);
            let owed = endings(AppModel::initial(config), events) - closings(events);
            &&& m.phase == Phase::Idle ==> m.recordings.len() == owed
            &&& m.phase != Phase::Idle ==> m.recordings.len() == owed + 1 && m.recordings.last()
                == m.session
            &&& m.phase != Phase::Idle && owed == 0 ==> m.heard_in() == Some(m.session) && after(
                m,
                Event::Finish(reply),
            ).heard_in() == Some(after(m, Event::Finish(reply)).session)
        }),
{
    lemma_all_accounted(config, events);
    lemma_recordings(after_all(AppModel::initial(config), events), Event::Finish(reply));
}

/// Nothing that came before `Esc` counts any more: a sentence of the session that `Esc` ends, or of
/// an earlier one, changes neither the sentences nor anything that shows, however late its
/// transcript and its text come. (Sessions are counted in a `usize`, and the count must not go
/// round.)
pub proof fn law_nothing_from_before_escape_counts(
    m: AppModel,
    reply: Sender<Result<(), String>>,
    later: Seq<Event>,
    session: usize,
    polish: bool,
    outcome: Result<Seq<char>, Seq<char>>,
    text: Seq<char>,
)
    requires
        m.phase != Phase::Idle,
        session <= m.session,
        m.session + 1 + session_changes(m.cancelled(reply), later) <= usize::MAX,
    ensures
        ({
            let escaped = after(m, Event::Cancel(reply));
            let now = after_all(escaped, later);
            &&& escaped.transcript.len() == 0
            &&& now.session != session
            &&& after(now, Event::Transcribed(session, polish, outcome)) == now
            &&& now.segment_step(session, polish, outcome) is Drop
            &&& after(now, Event::Kept(session, text)) == now
        }),
{
    lemma_session_after_all(m.cancelled(reply), later);
}

/// The sentence that was being spoken at `Esc`, which comes only when the recording is closed, is
/// gone like the others. `spoken` is what happens until it comes, with the recordings from before
/// `Esc` not all closed yet; `later` is what happens after `Esc` until its transcript and its text
/// come. (Sessions are counted in a `usize`, and the count must not go round.)
pub proof fn law_nothing_said_before_escape_counts(
    m: AppModel,
    reply: Sender<Result<(), String>>,
    spoken: Seq<Event>,
    later: Seq<Event>,
    polish: bool,
    outcome: Result<Seq<char>, Seq<char>>,
    text: Seq<char>,
)
    requires
        m.phase != Phase::Idle,
        dated(m),
        closings(spoken) < m.recordings.len(),
        spoken.is_prefix_of(later),
        m.session + 1 + session_changes(m.cancelled(reply), later) <= usize::MAX,
    ensures
        ({
            let escaped = after(m, Event::Cancel(reply));
            let session = after_all(escaped, spoken).heard_in()->0;
            let now = after_all(escaped, later);
            &&& after_all(escaped, spoken).heard_in() is Some
            &&& now.session != session
            &&& after(now, Event::Transcribed(session, polish, outcome)) == now
            &&& now.segment_step(session, polish, outcome) is Drop
            &&& after(now, Event::Kept(session, text)) == now
        }),
{
    lemma_recordings(m, Event::Cancel(reply));
    law_sentences_belong_to_their_recording(m.cancelled(reply), spoken);
    let session = m.recordings[closings(spoken) as int];
    assert(session <= m.session);
    law_nothing_from_before_escape_counts(m, reply, later, session, polish, outcome, text);
}

/// A sentence that has come to wait and no longer waits leaves the count as it was.
pub proof fn law_waiting_is_counted(m: AppModel)
    requires
        m.recordings.len() > 0,
    ensures
        after(after(m, Event::Queued), Event::Dequeued) == m,
        after(after(m, Event::Dequeued), Event::Queued) == m,
{
}

/// How many sentences have come to wait in the course of `events` after `m`, less those that no
/// longer do. Where no recording is open there is no sentence.
pub open spec fn waiting(m: AppModel, events: Seq<Event>) -> int
    decreases events.len(),
{
    if events.len() == 0 {
        0
    } else {
        waiting(m, events.drop_last()) + match events.last() {
            Event::Queued => if after_all(m, events.drop_last()).recordings.len() > 0 {
                1int
            } else {
                0int
            },
            Event::Dequeued => -1int,
            _ => 0int,
        }
    }
}

/// The count of sentences that wait is true at all times, from the start on, as long as none stops
/// waiting that has not come, and there are no more than a `usize` counts.
pub proof fn law_the_count_of_waiting_sentences_is_true(config: ConfigView, events: Seq<Event>)
    requires
        forall|n: int|
            0 <= n <= events.len() ==> 0 <= #[trigger] waiting(
                AppModel::initial(config),
                events.take(n),
            ) <= usize::MAX,
    ensures
        after_all(AppModel::initial(config), events).pending == waiting(
            AppModel::initial(config),
            events,
        ),
    decreases events.len(),
{
    if events.len() > 0 {
        let front = events.drop_last();
        assert forall|n: int| 0 <= n <= front.len() implies 0 <= #[trigger] waiting(
            AppModel::initial(config),
            front.take(n),
        ) <= usize::MAX by {
            assert(front.take(n) =~= events.take(n));
        }
        law_the_count_of_waiting_sentences_is_true(config, front);
        assert(events.take(events.len() as int) =~= events);
        let before = after_all(AppModel::initial(config), front);
        lemma_only_queue_events_count(before, events.last());
    }
}

proof fn lemma_only_queue_events_count(m: AppModel, event: Event)
    ensures
        !(event is Queued || event is Dequeued) ==> after(m, event).pending == m.pending,
{
}

// ---------------------------------------------------------------- clipboard

/// The event has the clipboard given back, if it is known what was on it.
spec fn gives_back(m: AppModel, event: Event) -> bool {
    match event {
        Event::Cancel(_) => m.phase != Phase::Idle,
        Event::AudioClosed(session, answer) => m.concluding(session) && answer is Some
            && answer->0 is Err,
        Event::Deliver(session) => m.concluding(session) && m.text().len() == 0,
        Event::Pasted(session, failure, copied) => m.concluding(session) && (failure is None
            || !copied),
        Event::Restored => true,
        _ => false,
    }
}

proof fn lemma_clipboard_left(m: AppModel, event: Event)
    requires
        !gives_back(m, event),
    ensures
        forall|i: int|
            0 <= i < effects_of(m, event).len() ==> !(#[trigger] effects_of(m, event)[i] is RestoreClipboard),
{
}

proof fn lemma_clipboard_given_back(m: AppModel, event: Event)
    requires
        gives_back(m, event),
    ensures
        after(m, event).clipboard is None,
        forall|i: int|
            0 <= i < effects_of(m, event).len() && (#[trigger] effects_of(m, event)[i]) is RestoreClipboard
                ==> m.clipboard == Some(effects_of(m, event)[i]->RestoreClipboard_0),
{
}

/// What was on the clipboard comes back at most once, and only when a dictation is over or this is
/// asked for: not with each sentence. The events that give it back forget it.
pub proof fn law_clipboard_comes_back_once(m: AppModel, event: Event, contents: Seq<char>)
    requires
        added(m, event).contains(EffectView::RestoreClipboard(contents)),
    ensures
        m.clipboard == Some(contents),
        after(m, event).clipboard is None,
        event is Cancel || event is AudioClosed || event is Deliver || event is Pasted || event is Restored,
{
    lemma_added(m, event);
    let new = effects_of(m, event);
    let i = new.index_of(EffectView::RestoreClipboard(contents));
    assert(new[i] == EffectView::RestoreClipboard(contents));
    if gives_back(m, event) {
        lemma_clipboard_given_back(m, event);
    } else {
        lemma_clipboard_left(m, event);
    }
}

/// When a dictation ends, the clipboard is given back what was saved: on `Esc`, when the recording
/// failed, when nothing was understood, after the text was inserted, and when it could not even be
/// copied.
pub proof fn law_clipboard_comes_back_in_the_end(m: AppModel, event: Event, contents: Seq<char>)
    requires
        m.clipboard == Some(contents),
        match event {
            Event::Cancel(_) => m.phase != Phase::Idle,
            Event::AudioClosed(session, answer) => m.concluding(session) && answer is Some
                && answer->0 is Err,
            Event::Deliver(session) => m.concluding(session) && m.text().len() == 0,
            Event::Pasted(session, failure, copied) => m.concluding(session) && (failure is None
                || !copied),
            Event::Restored => true,
            _ => false,
        },
    ensures
        added(m, event).contains(EffectView::RestoreClipboard(contents)),
{
    lemma_added(m, event);
    let new = effects_of(m, event);
    assert(restoring(m)[0] == EffectView::RestoreClipboard(contents));
    assert(event is Restored ==> new[0] == EffectView::RestoreClipboard(contents));
    assert(!(event is Restored) ==> new[2] == EffectView::RestoreClipboard(contents));
}

/// A text that was copied and could not be inserted is not lost: it stays on the clipboard. Nothing
/// is put there in its place, neither then nor later, until another dictation saves what is on it.
pub proof fn law_a_text_that_was_not_inserted_stays_copied(
    m: AppModel,
    session: usize,
    failure: Seq<char>,
    later: Seq<Event>,
    event: Event,
    contents: Seq<char>,
)
    requires
        m.concluding(session),
        forall|i: int| 0 <= i < later.len() ==> !(#[trigger] later[i] is ClipboardSaved),
    ensures
        ({
            let failed = Event::Pasted(session, Some(failure), true);
            let now = after_all(after(m, failed), later);
            &&& !added(m, failed).contains(EffectView::RestoreClipboard(contents))
            &&& now.clipboard is None
            &&& !added(now, event).contains(EffectView::RestoreClipboard(contents))
        }),
{
    let failed = Event::Pasted(session, Some(failure), true);
    lemma_added(m, failed);
    lemma_clipboard_stays_forgotten(after(m, failed), later);
    let now = after_all(after(m, failed), later);
    if added(now, event).contains(EffectView::RestoreClipboard(contents)) {
        law_clipboard_comes_back_once(now, event, contents);
    }
}

proof fn lemma_clipboard_stays_forgotten(m: AppModel, events: Seq<Event>)
    requires
        m.clipboard is None,
        forall|i: int| 0 <= i < events.len() ==> !(#[trigger] events[i] is ClipboardSaved),
    ensures
        after_all(m, events).clipboard is None,
    decreases events.len(),
{
    if events.len() > 0 {
        let front = events.drop_last();
        assert(forall|i: int| 0 <= i < front.len() ==> front[i] == events[i]);
        lemma_clipboard_stays_forgotten(m, front);
        assert(!(events[events.len() - 1] is ClipboardSaved));
    }
}

// ---------------------------------------------------------------- inserting

/// The report answers the action.
pub open spec fn reports_on(action: InsertActionView, report: InsertReportView) -> bool {
    match action {
        InsertActionView::AwaitAudio => report is Closed,
        InsertActionView::Wait(_) => report is Waited,
        InsertActionView::Paste(_) => report is Pasted,
        InsertActionView::Done => false,
    }
}

/// How far inserting has come.
pub open spec fn insert_stage(action: InsertActionView) -> int {
    match action {
        InsertActionView::AwaitAudio => 0,
        InsertActionView::Wait(_) => 1,
        InsertActionView::Paste(_) => 2,
        InsertActionView::Done => 3,
    }
}

/// Inserting goes one way, whatever happens in between: first the audio thread closes the recording,
/// then the sentences under way are waited for, then the text is inserted, and that is all. Only
/// waiting may come again.
pub proof fn law_enter_goes_one_way(
    m: AppModel,
    session: usize,
    action: InsertActionView,
    report: InsertReportView,
)
    requires
        reports_on(action, report),
    ensures
        ({
            let next = m.insert_action(session, Some(report));
            insert_stage(action) < insert_stage(next) || (action is Wait && next is Wait)
        }),
        m.insert_action(session, None) is AwaitAudio,
{
}

/// Actions that follow one another in inserting dictation `session`: each is next after a report on
/// the one before, in whatever state the program is by then.
pub open spec fn insert_run(session: usize, actions: Seq<InsertActionView>) -> bool {
    forall|i: int| 0 < i < actions.len() ==> #[trigger] follows(session, actions[i - 1], actions[i])
}

/// `next` is next in inserting dictation `session` after a report on `action`, in some state.
pub open spec fn follows(
    session: usize,
    action: InsertActionView,
    next: InsertActionView,
) -> bool {
    exists|m: AppModel, report: InsertReportView|
        reports_on(action, report) && next == #[trigger] m.insert_action(session, Some(report))
}

proof fn lemma_run_goes_one_way(session: usize, actions: Seq<InsertActionView>, i: int, j: int)
    requires
        insert_run(session, actions),
        0 <= i < j < actions.len(),
    ensures
        insert_stage(actions[i]) < insert_stage(actions[j]) || (actions[i] is Wait && actions[j] is Wait),
    decreases j - i,
{
    assert(follows(session, actions[j - 1], actions[j]));
    let (m, report) = choose|m: AppModel, report: InsertReportView|
        reports_on(actions[j - 1], report) && actions[j] == #[trigger] m.insert_action(
            session,
            Some(report),
        );
    law_enter_goes_one_way(m, session, actions[j - 1], report);
    if i < j - 1 {
        lemma_run_goes_one_way(session, actions, i, j - 1);
    }
}

/// One press of `Enter` inserts at most one text, once: the text is never inserted in parts.
pub proof fn law_the_text_goes_in_at_once(
    session: usize,
    actions: Seq<InsertActionView>,
    i: int,
    j: int,
)
    requires
        insert_run(session, actions),
        0 <= i < actions.len(),
        0 <= j < actions.len(),
        actions[i] is Paste,
        actions[j] is Paste,
    ensures
        i == j,
{
    if i < j {
        lemma_run_goes_one_way(session, actions, i, j);
    } else if j < i {
        lemma_run_goes_one_way(session, actions, j, i);
    }
}

/// What is inserted is the whole text of the dictation that `Enter` ended. Nothing is inserted while
/// a dictation is under way, nor once another has begun.
pub proof fn law_only_the_ended_dictation_is_inserted(
    m: AppModel,
    session: usize,
    report: InsertReportView,
)
    requires
        m.insert_action(session, Some(report)) is Paste,
    ensures
        m.phase == Phase::Idle,
        m.session == session,
        m.insert_action(session, Some(report)) == InsertActionView::Paste(m.text()),
        m.text().len() > 0,
{
}

/// A dictation that was followed by another leaves that one alone: inserting it ends without a text,
/// and changes nothing; at most the user is told how it went, and neither the clipboard nor the
/// microphone is touched. (Sessions are counted in a `usize`, so it takes fewer changes than that has
/// values.)
pub proof fn law_a_new_dictation_is_left_alone(
    m: AppModel,
    reply: Sender<Result<(), String>>,
    events: Seq<Event>,
    report: InsertReportView,
)
    requires
        m.phase != Phase::Idle,
        1 <= session_changes(m.finished(reply), events) <= usize::MAX,
    ensures
        ({
            let now = after_all(after(m, Event::Finish(reply)), events);
            let next = now.insert_next(m.session, Some(report));
            &&& now.insert_action(m.session, Some(report)) is Done
            &&& next == (AppModel { effects: next.effects, ..now })
            &&& next.effects.take(now.effects.len() as int) == now.effects
            &&& forall|i: int|
                now.effects.len() <= i < next.effects.len() ==> (#[trigger] next.effects[i]) is Show
                    || next.effects[i] is HideIslandAfter
        }),
{
    lemma_session_after_all(m.finished(reply), events);
    let now = after_all(after(m, Event::Finish(reply)), events);
    let next = now.insert_next(m.session, Some(report));
    assert(next.effects.take(now.effects.len() as int) =~= now.effects);
}

/// Each step of inserting is one event or two, so what holds whatever happens holds of it.
pub proof fn law_inserting_is_made_of_events(
    m: AppModel,
    session: usize,
    report: InsertReportView,
)
    ensures
        ({
            let next = m.insert_next(session, Some(report));
            match report {
                InsertReportView::Closed(answer) => {
                    let closed = after(m, Event::AudioClosed(session, answer));
                    next == closed || next == after(closed, Event::Deliver(session))
                },
                InsertReportView::Waited(_) => next == m || next == after(
                    m,
                    Event::Deliver(session),
                ),
                InsertReportView::Pasted(failure, copied) => next == after(
                    m,
                    Event::Pasted(session, failure, copied),
                ),
            }
        }),
{
}

// ---------------------------------------------------------------- settings

/// The settings change only through the menu, a shortcut that worked, or a new key; and when the
/// menu or a shortcut changes them, they are stored.
pub proof fn law_changed_settings_are_stored(m: AppModel, event: Event)
    requires
        after(m, event).config != m.config,
    ensures
        event is Chosen || event is ShortcutTried || event is Keyed,
        event is Keyed || added(m, event).contains(
            EffectView::SaveConfig(after(m, event).config),
        ),
{
    lemma_added(m, event);
    if !(event is Keyed) {
        assert(effects_of(m, event)[0] == EffectView::SaveConfig(after(m, event).config));
    }
}

// ---------------------------------------------------------------- what changes what

/// The shortcut begins a dictation, pauses it and goes on with it; `Esc` and `Enter` end it. Nothing
/// else changes how far it has come, and without a key none begins.
pub proof fn law_what_changes_the_phase(m: AppModel, event: Event)
    ensures
        after(m, event).phase == match event {
            Event::Toggle => match m.phase {
                Phase::Recording => Phase::Paused,
                Phase::Paused => Phase::Recording,
                Phase::Idle => if m.config.has_key() {
                    Phase::Recording
                } else {
                    Phase::Idle
                },
            },
            Event::Start => if m.phase == Phase::Idle && m.config.has_key() {
                Phase::Recording
            } else {
                m.phase
            },
            Event::Pause => if m.phase == Phase::Recording {
                Phase::Paused
            } else {
                m.phase
            },
            Event::Resume => if m.phase == Phase::Paused {
                Phase::Recording
            } else {
                m.phase
            },
            Event::Cancel(_) => Phase::Idle,
            Event::Finish(_) => Phase::Idle,
            _ => m.phase,
        },
{
    lemma_phase(m, event);
}

/// A sentence whose text comes is kept, whether the dictation is going on, paused or just over: it
/// comes last, without the white space around it, unless it is blank or of another session.
pub proof fn law_every_sentence_is_kept(m: AppModel, session: usize, text: Seq<char>)
    ensures
        !blank(text) && session == m.session ==> after(m, Event::Kept(session, text)).transcript
            == m.transcript.push(trimmed(text)),
        blank(text) || session != m.session ==> after(m, Event::Kept(session, text)) == m,
        !blank(text) && session == m.session ==> added(m, Event::Kept(session, text)) == seq![
            EffectView::Preview(joined(m.transcript.push(trimmed(text)))),
        ],
{
    lemma_added(m, Event::Kept(session, text));
}

/// Only a sentence adds to the sentences, and only a new dictation and `Esc` clear them: neither
/// pausing nor `Enter` nor anything else does.
pub proof fn law_what_changes_the_sentences(m: AppModel, event: Event)
    ensures
        begins_or_cancels(m, event) ==> after(m, event).transcript.len() == 0,
        !begins_or_cancels(m, event) && !(event is Kept) ==> after(m, event).transcript
            == m.transcript,
        event is Kept ==> after(m, event).transcript == m.transcript || after(m, event).transcript
            == m.transcript.push(trimmed(event->Kept_1)),
{
}

/// The event begins a dictation or throws one away.
pub open spec fn begins_or_cancels(m: AppModel, event: Event) -> bool {
    match event {
        Event::Toggle => m.phase == Phase::Idle && m.config.has_key(),
        Event::Start => m.phase == Phase::Idle && m.config.has_key(),
        Event::Cancel(_) => m.phase != Phase::Idle,
        _ => false,
    }
}

/// The next session has the next number, until the numbers go round.
pub proof fn law_sessions_are_counted_up(n: usize)
    ensures
        n < usize::MAX ==> one_more(n) == n + 1,
        one_more(usize::MAX) == 0,
{
}

/// A recording is opened by what begins a dictation, in its session, and comes last; the audio thread
/// closes the first; and nothing else opens or closes one.
pub proof fn law_what_changes_the_recordings(m: AppModel, event: Event)
    ensures
        (event is Toggle || event is Start) && m.phase == Phase::Idle && m.config.has_key() ==> after(
            m,
            event,
        ).recordings == m.recordings.push(after(m, event).session),
        event is RecordingClosed && m.recordings.len() > 0 ==> m.recordings == seq![
            m.recordings[0],
        ] + after(m, event).recordings,
        !(event is RecordingClosed) && !((event is Toggle || event is Start) && m.phase
            == Phase::Idle && m.config.has_key()) ==> after(m, event).recordings == m.recordings,
        m.recordings.len() > 0 ==> m.heard_in() == Some(m.recordings[0]),
        m.recordings.len() == 0 ==> m.heard_in() is None,
{
    lemma_recordings(m, event);
    law_sessions_change_with_dictations(m, event);
    if event is RecordingClosed && m.recordings.len() > 0 {
        assert(m.recordings =~= seq![m.recordings[0]] + m.recordings.drop_first());
    }
}

/// A sentence that comes from an open recording is counted as waiting, and one that is done no longer
/// is; nothing else changes the count.
pub proof fn law_what_changes_the_count(m: AppModel, event: Event)
    ensures
        event is Queued && m.recordings.len() > 0 && m.pending < usize::MAX ==> after(
            m,
            event,
        ).pending == m.pending + 1,
        event is Dequeued && m.pending > 0 ==> after(m, event).pending == m.pending - 1,
        event is Queued && m.recordings.len() == 0 ==> after(m, event) == m,
        !(event is Queued) && !(event is Dequeued) ==> after(m, event).pending == m.pending,
{
    lemma_only_queue_events_count(m, event);
}

/// What was on the clipboard is remembered when it is saved, and forgotten where it is given back or
/// the text is left in its place; nothing else changes what is remembered of it.
pub proof fn law_what_changes_what_is_remembered(m: AppModel, event: Event)
    ensures
        ({
            let over = |session: usize| m.phase == Phase::Idle && m.session == session;
            after(m, event).clipboard == match event {
                Event::ClipboardSaved(contents) => contents,
                Event::Restored => None,
                Event::Cancel(_) => if m.phase == Phase::Idle {
                    m.clipboard
                } else {
                    None
                },
                Event::AudioClosed(session, answer) => if over(session) && answer is Some
                    && answer->0 is Err {
                    None
                } else {
                    m.clipboard
                },
                Event::Deliver(session) => if over(session) && m.text().len() == 0 {
                    None
                } else {
                    m.clipboard
                },
                Event::Pasted(session, _, _) => if over(session) {
                    None
                } else {
                    m.clipboard
                },
                _ => m.clipboard,
            }
        }),
{
}

/// The menu turns polishing round, a shortcut that worked becomes the shortcut, and a key is stored
/// without the white space around it; each leaves the other settings as they were, and nothing else
/// changes any.
pub proof fn law_what_changes_the_settings(m: AppModel, event: Event)
    ensures
        ({
            let config = after(m, event).config;
            &&& config.language == m.config.language
            &&& config.polish == if event is Chosen && event->Chosen_0 == "polish"@ {
                !m.config.polish
            } else {
                m.config.polish
            }
            &&& config.shortcut == if event is ShortcutTried && event->ShortcutTried_1 {
                event->ShortcutTried_0
            } else {
                m.config.shortcut
            }
            &&& config.api_key == if event is Keyed {
                trimmed(event->Keyed_0)
            } else {
                m.config.api_key
            }
        }),
{
    if event is Chosen {
        law_identifiers_mean_what_they_say(event->Chosen_0, Seq::empty());
    }
}

// ---------------------------------------------------------------- what is done when

/// With a key and at rest, the shortcut begins a dictation: the clipboard is saved first, the last
/// preview cleared, the microphone started, the island shown listening, and the keys claimed. Without
/// a key the settings open and nothing else happens.
pub proof fn law_how_a_dictation_begins(m: AppModel)
    ensures
        m.phase == Phase::Idle ==> after(m, Event::Toggle) == after(m, Event::Start),
        m.phase == Phase::Idle && m.config.has_key() ==> added(m, Event::Start) == seq![
            EffectView::SaveClipboard,
            EffectView::Preview(Seq::empty()),
            EffectView::Audio(Cmd::Start),
            EffectView::ShowIsland,
            EffectView::Show(Shown::Listening, None),
            EffectView::GrabKeys,
        ],
        !m.config.has_key() ==> added(m, Event::Start) == seq![EffectView::OpenSettings],
        m.phase != Phase::Idle && m.config.has_key() ==> after(m, Event::Start) == m,
{
    lemma_added(m, Event::Start);
}

/// Pausing halts the microphone and says so, resuming sets it going and says so, and either does
/// nothing out of place. The shortcut does the one that fits.
pub proof fn law_how_a_dictation_is_paused(m: AppModel)
    ensures
        m.phase == Phase::Recording ==> added(m, Event::Pause) == seq![
            EffectView::Audio(Cmd::Pause),
            EffectView::Show(Shown::Paused, None),
        ] && after(m, Event::Toggle) == after(m, Event::Pause),
        m.phase != Phase::Recording ==> after(m, Event::Pause) == m,
        m.phase == Phase::Paused ==> added(m, Event::Resume) == seq![
            EffectView::Audio(Cmd::Resume),
            EffectView::Show(Shown::Listening, None),
        ] && after(m, Event::Toggle) == after(m, Event::Resume),
        m.phase != Phase::Paused ==> after(m, Event::Resume) == m,
{
    lemma_added(m, Event::Pause);
    lemma_added(m, Event::Resume);
}

/// `Esc` gives the keys back, ends the recording, has the clipboard given back if it was saved, and
/// hides the island. `Enter` gives the keys back and ends the recording, and leaves the rest to come.
pub proof fn law_how_a_dictation_ends(m: AppModel, reply: Sender<Result<(), String>>)
    requires
        m.phase != Phase::Idle,
    ensures
        m.clipboard is None ==> added(m, Event::Cancel(reply)) == seq![
            EffectView::ReleaseKeys,
            EffectView::Audio(Cmd::Stop(reply)),
            EffectView::HideIsland,
        ],
        m.clipboard is Some ==> added(m, Event::Cancel(reply)) == seq![
            EffectView::ReleaseKeys,
            EffectView::Audio(Cmd::Stop(reply)),
            EffectView::RestoreClipboard(m.clipboard->0),
            EffectView::HideIsland,
        ],
        added(m, Event::Finish(reply)) == seq![
            EffectView::ReleaseKeys,
            EffectView::Audio(Cmd::Stop(reply)),
        ],
{
    lemma_added(m, Event::Cancel(reply));
    lemma_added(m, Event::Finish(reply));
    assert(effects_of(m, Event::Cancel(reply)) =~= if m.clipboard is Some {
        seq![
            EffectView::ReleaseKeys,
            EffectView::Audio(Cmd::Stop(reply)),
            EffectView::RestoreClipboard(m.clipboard->0),
            EffectView::HideIsland,
        ]
    } else {
        seq![
            EffectView::ReleaseKeys,
            EffectView::Audio(Cmd::Stop(reply)),
            EffectView::HideIsland,
        ]
    });
}

/// The user is told why a recording failed, or that sentences are still being transcribed, and else
/// nothing.
pub proof fn law_what_is_told_when_the_recording_ends(
    m: AppModel,
    session: usize,
    answer: Option<Result<(), Seq<char>>>,
    e: Seq<char>,
)
    ensures
        ({
            let told = added(m, Event::AudioClosed(session, Some(Err(e))));
            &&& 2 <= told.len() <= 3
            &&& told[0] == EffectView::Show(Shown::Error, Some(e))
            &&& told[1] == EffectView::HideIslandAfter(2600)
            &&& forall|i: int| 2 <= i < told.len() ==> #[trigger] told[i] is RestoreClipboard
        }),
        !(answer is Some && answer->0 is Err) && m.pending > 0 ==> added(
            m,
            Event::AudioClosed(session, answer),
        ) == seq![EffectView::Show(Shown::Transcribing, None)],
        !(answer is Some && answer->0 is Err) && m.pending == 0 ==> after(
            m,
            Event::AudioClosed(session, answer),
        ) == m,
{
    lemma_added(m, Event::AudioClosed(session, Some(Err(e))));
    lemma_added(m, Event::AudioClosed(session, answer));
}

/// The user is told that nothing was understood exactly where a dictation is over without a text.
pub proof fn law_what_is_told_without_a_text(m: AppModel, session: usize)
    ensures
        ({
            let told = added(m, Event::Deliver(session));
            let empty = m.phase == Phase::Idle && m.session == session && m.text().len() == 0;
            &&& empty ==> 2 <= told.len() <= 3 && told[0] == EffectView::Show(
                Shown::Error,
                Some("No se entendió nada"@),
            ) && told[1] == EffectView::HideIslandAfter(2000)
            &&& forall|i: int| 2 <= i < told.len() ==> #[trigger] told[i] is RestoreClipboard
            &&& !empty ==> after(m, Event::Deliver(session)) == m
        }),
{
    lemma_added(m, Event::Deliver(session));
}

/// The user is told that the text was inserted, or why it was not and how to get it.
pub proof fn law_what_is_told_of_the_insertion(
    m: AppModel,
    session: usize,
    copied: bool,
    e: Seq<char>,
)
    ensures
        ({
            let told = added(m, Event::Pasted(session, None, copied));
            &&& 2 <= told.len() <= 3
            &&& told[0] == EffectView::Show(Shown::Done, None)
            &&& told[1] == EffectView::HideIslandAfter(650)
            &&& forall|i: int| 2 <= i < told.len() ==> #[trigger] told[i] is RestoreClipboard
        }),
        ({
            let told = added(m, Event::Pasted(session, Some(e), copied));
            &&& 2 <= told.len() <= 3
            &&& told[0] == EffectView::Show(
                Shown::Error,
                Some(e + ". Está copiado: pega con Ctrl+V"@),
            )
            &&& told[1] == EffectView::HideIslandAfter(3200)
            &&& forall|i: int| 2 <= i < told.len() ==> #[trigger] told[i] is RestoreClipboard
        }),
{
    lemma_added(m, Event::Pasted(session, None, copied));
    lemma_added(m, Event::Pasted(session, Some(e), copied));
}

/// A transcript that is to be polished shows at once, behind the sentences that are settled; one that
/// is not shows only when it is kept. A failure is told. Nothing of this changes the sentences.
pub proof fn law_what_shows_of_a_transcript(
    m: AppModel,
    polish: bool,
    text: Seq<char>,
    e: Seq<char>,
)
    ensures
        !blank(text) ==> added(m, Event::Transcribed(m.session, true, Ok(text))) == seq![
            EffectView::Preview(joined(m.transcript.push(text))),
        ],
        !blank(text) ==> after(m, Event::Transcribed(m.session, false, Ok(text))) == m,
        blank(text) ==> after(m, Event::Transcribed(m.session, polish, Ok(text))) == m,
        added(m, Event::Transcribed(m.session, polish, Err(e))) == seq![
            EffectView::Show(Shown::Error, Some(e)),
            EffectView::HideIslandAfter(2600),
        ],
        !blank(text) ==> m.segment_step(m.session, true, Ok(text)) == SegmentStepView::Polish(text),
        !blank(text) ==> m.segment_step(m.session, false, Ok(text)) == SegmentStepView::Keep(text),
        blank(text) ==> m.segment_step(m.session, polish, Ok(text)) is Drop,
        m.segment_step(m.session, polish, Err(e)) is Drop,
{
    lemma_added(m, Event::Transcribed(m.session, true, Ok(text)));
    lemma_added(m, Event::Transcribed(m.session, polish, Err(e)));
}

/// The island goes when its time is up, exactly where no dictation is under way.
pub proof fn law_the_island_goes_when_at_rest(m: AppModel)
    ensures
        m.phase == Phase::Idle ==> added(m, Event::TimedOut) == seq![EffectView::HideIsland],
        m.phase != Phase::Idle ==> after(m, Event::TimedOut) == m,
{
    lemma_added(m, Event::TimedOut);
}

/// Each entry of the menu has done what it says, and any other does nothing.
pub proof fn law_the_menu_does_what_it_says(m: AppModel, id: Seq<char>, choice: Seq<char>)
    ensures
        added(m, Event::Chosen("quit"@)) == seq![EffectView::Quit],
        added(m, Event::Chosen("settings"@)) == seq![EffectView::OpenSettings],
        added(m, Event::Chosen("polish"@)) == seq![
            EffectView::SaveConfig(after(m, Event::Chosen("polish"@)).config),
        ],
        added(m, Event::Chosen("autostart"@)) == seq![EffectView::ToggleAutostart],
        added(m, Event::Chosen("shortcut:"@ + choice)) == seq![EffectView::TryShortcut(choice)],
        id != "quit"@ && id != "settings"@ && id != "polish"@ && id != "autostart"@ && (forall|
            other: Seq<char>,
        |
            id != #[trigger] ("shortcut:"@ + other)) ==> after(m, Event::Chosen(id)) == m,
{
    lemma_added(m, Event::Chosen("quit"@));
    lemma_added(m, Event::Chosen("settings"@));
    lemma_added(m, Event::Chosen("polish"@));
    lemma_added(m, Event::Chosen("autostart"@));
    lemma_added(m, Event::Chosen("shortcut:"@ + choice));
    law_identifiers_mean_what_they_say(id, choice);
}

/// A shortcut that worked is stored; where it did not, the one in use is set again.
pub proof fn law_a_shortcut_is_stored_or_undone(m: AppModel, choice: Seq<char>)
    ensures
        added(m, Event::ShortcutTried(choice, true)) == seq![
            EffectView::SaveConfig(after(m, Event::ShortcutTried(choice, true)).config),
        ],
        added(m, Event::ShortcutTried(choice, false)) == seq![
            EffectView::KeepShortcut(m.config.shortcut),
        ],
{
    lemma_added(m, Event::ShortcutTried(choice, true));
    lemma_added(m, Event::ShortcutTried(choice, false));
}

/// On coming up, the settings open exactly where there is no key; and the events that only take note
/// of something have nothing done.
pub proof fn law_what_has_nothing_done(m: AppModel, event: Event)
    ensures
        !m.config.has_key() ==> added(m, Event::Launched) == seq![EffectView::OpenSettings],
        m.config.has_key() ==> after(m, Event::Launched) == m,
        event is Queued || event is Dequeued || event is RecordingClosed || event is Keyed
            || event is ClipboardSaved ==> added(m, event).len() == 0,
{
    lemma_added(m, Event::Launched);
    lemma_added(m, event);
}

/// A dictation that is over is inserted as soon as no sentence is waited for, and after 45 seconds at
/// the latest: all its sentences, in order, with a space between them. Until then it is looked again
/// every 80 milliseconds.
pub proof fn law_when_the_text_is_inserted(m: AppModel, session: usize, elapsed_ms: u64)
    requires
        tidy(m),
        m.phase == Phase::Idle,
        m.session == session,
    ensures
        ({
            let waiting = InsertReportView::Waited(elapsed_ms);
            let waits = m.pending > 0 && elapsed_ms < 45_000;
            &&& waits ==> m.insert_action(session, Some(waiting)) == InsertActionView::Wait(80)
                && m.insert_next(session, Some(waiting)) == m
            &&& !waits && m.transcript.len() > 0 ==> m.insert_action(session, Some(waiting))
                == InsertActionView::Paste(joined(m.transcript)) && m.insert_next(
                session,
                Some(waiting),
            ) == m
            &&& !waits && m.transcript.len() == 0 ==> m.insert_action(session, Some(waiting)) is Done
                && m.insert_next(session, Some(waiting)) == after(m, Event::Deliver(session))
        }),
{
    law_text_is_the_sentences(m);
}

/// Once the audio thread has answered, it goes on as if no time had been spent waiting; where the
/// recording failed, nothing is inserted.
pub proof fn law_what_follows_the_audio_thread(
    m: AppModel,
    session: usize,
    answer: Option<Result<(), Seq<char>>>,
)
    ensures
        ({
            let failed = answer is Some && answer->0 is Err;
            let closed = after(m, Event::AudioClosed(session, answer));
            let report = Some(InsertReportView::Closed(answer));
            &&& failed ==> m.insert_action(session, report) is Done && m.insert_next(session, report)
                == closed
            &&& !failed ==> m.insert_action(session, report) == closed.insert_action(
                session,
                Some(InsertReportView::Waited(0)),
            ) && m.insert_next(session, report) == closed.insert_next(
                session,
                Some(InsertReportView::Waited(0)),
            )
        }),
{
}

/// A dictation is concluding exactly where it is the last one and none is under way.
pub proof fn law_what_concluding_means(m: AppModel, session: usize)
    ensures
        m.concluding(session) <==> m.phase == Phase::Idle && m.session == session,
{
}

/// The clipboard is given back where it is known what was on it, with just that, and else nothing
/// happens.
pub proof fn law_the_clipboard_is_given_back_as_it_was(m: AppModel)
    ensures
        m.clipboard is Some ==> added(m, Event::Restored) == seq![
            EffectView::RestoreClipboard(m.clipboard->0),
        ],
        m.clipboard is None ==> after(m, Event::Restored) == m,
{
    lemma_added(m, Event::Restored);
}

} // verus!
