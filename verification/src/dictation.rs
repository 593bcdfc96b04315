//! The course of a dictation.
//!
//! One shortcut starts, pauses and resumes, any number of times; `Enter` inserts the text, `Esc`
//! throws it away. Sentences arrive while the user speaks and are shown as they come, but the
//! document is not touched before `Enter`: then the whole text goes in at once.
//!
//! [`AppState`] decides; it does nothing itself. What is to be done it appends to its list of
//! effects, which the program takes and carries out in order.

use crate::audio::Cmd;
use crate::config::{Config, ConfigView};
use crate::groq::result_text;
use crate::text::{append_part, blank, join, joined, same, texts, trim, trimmed};
use crate::tray::{choice_of, menu_choice, MenuChoice, MenuChoiceView};
use vstd::prelude::*;
use std::sync::mpsc::Sender;

verus! {

/// How long `Enter` waits for the sentences under way, in milliseconds.
pub const DRAIN_TIMEOUT_MS: u64 = 45_000;

/// How often it looks whether they have come, in milliseconds.
pub const DRAIN_POLL_MS: u64 = 80;

/// The window of the settings.
pub const SETTINGS: &'static str = "settings";

/// How far a dictation has come.
#[derive(Clone, Copy, PartialEq, Eq, Structural, Debug)]
pub enum Phase {
    Idle,
    Recording,
    Paused,
}

/// What the island shows.
#[derive(Clone, Copy, PartialEq, Eq, Structural, Debug)]
pub enum Shown {
    Listening,
    Paused,
    Transcribing,
    Done,
    Error,
}

impl Shown {
    /// The name that the interface knows it by.
    pub open spec fn name_text(self) -> Seq<char> {
        match self {
            Shown::Listening => "listening"@,
            Shown::Paused => "paused"@,
            Shown::Transcribing => "transcribing"@,
            Shown::Done => "done"@,
            Shown::Error => "error"@,
        }
    }

    /// The name that the interface knows it by.
    pub fn name(self) -> (r: &'static str)
        ensures
            r@ == self.name_text(),
    {
        match self {
            Shown::Listening => "listening",
            Shown::Paused => "paused",
            Shown::Transcribing => "transcribing",
            Shown::Done => "done",
            Shown::Error => "error",
        }
    }
}

/// Something to be done.
pub enum Effect {
    /// Hand this command to the audio thread.
    Audio(Cmd),
    /// Have the island show this, with a message.
    Show(Shown, Option<String>),
    /// Show this text as what was said so far.
    Preview(String),
    ShowIsland,
    HideIsland,
    /// Hide the island after so many milliseconds, if no dictation is under way by then.
    HideIslandAfter(u64),
    OpenSettings,
    /// Read the clipboard, and report what was on it.
    SaveClipboard,
    /// Put this back on the clipboard, after a while.
    RestoreClipboard(String),
    /// Claim `Enter` and `Esc` from all other applications.
    GrabKeys,
    /// Give `Enter` and `Esc` back.
    ReleaseKeys,
    /// Store the settings.
    SaveConfig(Config),
    /// Make this the shortcut, and report whether that worked.
    TryShortcut(String),
    /// Make this the shortcut again.
    KeepShortcut(String),
    /// Start with the system from now on, or no longer: see [`crate::tray::autostart_next`].
    ToggleAutostart,
    Quit,
}

/// [`Effect`], with texts as sequences of characters.
pub enum EffectView {
    Audio(Cmd),
    Show(Shown, Option<Seq<char>>),
    Preview(Seq<char>),
    ShowIsland,
    HideIsland,
    HideIslandAfter(u64),
    OpenSettings,
    SaveClipboard,
    RestoreClipboard(Seq<char>),
    GrabKeys,
    ReleaseKeys,
    SaveConfig(ConfigView),
    TryShortcut(Seq<char>),
    KeepShortcut(Seq<char>),
    ToggleAutostart,
    Quit,
}

/// A text that may be missing, as a sequence of characters.
pub open spec fn option_text(s: Option<String>) -> Option<Seq<char>> {
    match s {
        Some(s) => Some(s@),
        None => None,
    }
}

impl View for Effect {
    type V = EffectView;

    open spec fn view(&self) -> EffectView {
        match *self {
            Effect::Audio(cmd) => EffectView::Audio(cmd),
            Effect::Show(shown, message) => EffectView::Show(shown, option_text(message)),
            Effect::Preview(text) => EffectView::Preview(text@),
            Effect::ShowIsland => EffectView::ShowIsland,
            Effect::HideIsland => EffectView::HideIsland,
            Effect::HideIslandAfter(millis) => EffectView::HideIslandAfter(millis),
            Effect::OpenSettings => EffectView::OpenSettings,
            Effect::SaveClipboard => EffectView::SaveClipboard,
            Effect::RestoreClipboard(text) => EffectView::RestoreClipboard(text@),
            Effect::GrabKeys => EffectView::GrabKeys,
            Effect::ReleaseKeys => EffectView::ReleaseKeys,
            Effect::SaveConfig(config) => EffectView::SaveConfig(config@),
            Effect::TryShortcut(shortcut) => EffectView::TryShortcut(shortcut@),
            Effect::KeepShortcut(shortcut) => EffectView::KeepShortcut(shortcut@),
            Effect::ToggleAutostart => EffectView::ToggleAutostart,
            Effect::Quit => EffectView::Quit,
        }
    }
}

/// Effects, with texts as sequences of characters.
pub open spec fn effect_views(effects: Seq<Effect>) -> Seq<EffectView> {
    Seq::new(effects.len(), |i: int| effects[i]@)
}

/// The number after `n`. The numbers go round.
pub open spec fn one_more(n: usize) -> usize {
    if n == usize::MAX {
        0
    } else {
        (n + 1) as usize
    }
}

/// The state of the program.
#[verifier::ext_equal]
pub struct AppModel {
    pub phase: Phase,
    /// How many sentences wait for their text.
    pub pending: usize,
    /// Which dictation this is. A sentence that was spoken in another one no longer counts.
    pub session: usize,
    /// The sessions of the recordings that the audio thread has not closed yet, oldest first. It
    /// works them off in order, so what comes from it belongs to the first.
    pub recordings: Seq<usize>,
    /// The sentences of this dictation.
    pub transcript: Seq<Seq<char>>,
    /// What was on the clipboard before.
    pub clipboard: Option<Seq<char>>,
    pub config: ConfigView,
    /// What is still to be done.
    pub effects: Seq<EffectView>,
}

impl AppModel {
    /// The state at the start.
    pub open spec fn initial(config: ConfigView) -> Self {
        AppModel {
            phase: Phase::Idle,
            pending: 0,
            session: 0,
            recordings: Seq::empty(),
            transcript: Seq::empty(),
            clipboard: None,
            config,
            effects: Seq::empty(),
        }
    }

    /// With more to be done.
    pub open spec fn doing(self, effects: Seq<EffectView>) -> Self {
        AppModel { effects: self.effects + effects, ..self }
    }

    /// With the clipboard to be given back its old contents, if they are known.
    pub open spec fn restored(self) -> Self {
        match self.clipboard {
            Some(previous) => AppModel { clipboard: None, ..self }.doing(
                seq![EffectView::RestoreClipboard(previous)],
            ),
            None => self,
        }
    }

    /// A dictation begins. Without a key the settings open instead; while one is under way nothing
    /// happens.
    pub open spec fn started(self) -> Self {
        if !self.config.has_key() {
            self.doing(seq![EffectView::OpenSettings])
        } else if self.phase != Phase::Idle {
            self
        } else {
            AppModel {
                phase: Phase::Recording,
                session: one_more(self.session),
                recordings: self.recordings.push(one_more(self.session)),
                transcript: Seq::empty(),
                ..self
            }.doing(
                seq![
                    EffectView::SaveClipboard,
                    EffectView::Preview(Seq::empty()),
                    EffectView::Audio(Cmd::Start),
                    EffectView::ShowIsland,
                    EffectView::Show(Shown::Listening, None),
                    EffectView::GrabKeys,
                ],
            )
        }
    }

    /// The recording is paused.
    pub open spec fn paused(self) -> Self {
        if self.phase == Phase::Recording {
            AppModel { phase: Phase::Paused, ..self }.doing(
                seq![EffectView::Audio(Cmd::Pause), EffectView::Show(Shown::Paused, None)],
            )
        } else {
            self
        }
    }

    /// The recording goes on.
    pub open spec fn resumed(self) -> Self {
        if self.phase == Phase::Paused {
            AppModel { phase: Phase::Recording, ..self }.doing(
                seq![EffectView::Audio(Cmd::Resume), EffectView::Show(Shown::Listening, None)],
            )
        } else {
            self
        }
    }

    /// The shortcut was pressed.
    pub open spec fn toggled(self) -> Self {
        match self.phase {
            Phase::Recording => self.paused(),
            Phase::Paused => self.resumed(),
            Phase::Idle => self.started(),
        }
    }

    /// `Esc` was pressed: everything said is thrown away, and what is still under way will be.
    pub open spec fn cancelled(self, reply: Sender<Result<(), String>>) -> Self {
        if self.phase == Phase::Idle {
            self
        } else {
            AppModel {
                phase: Phase::Idle,
                session: one_more(self.session),
                transcript: Seq::empty(),
                ..self
            }.doing(
                seq![EffectView::ReleaseKeys, EffectView::Audio(Cmd::Stop(reply))],
            ).restored().doing(seq![EffectView::HideIsland])
        }
    }

    /// `Enter` was pressed: the recording ends.
    pub open spec fn finished(self, reply: Sender<Result<(), String>>) -> Self {
        if self.phase == Phase::Idle {
            self
        } else {
            AppModel { phase: Phase::Idle, ..self }.doing(
                seq![EffectView::ReleaseKeys, EffectView::Audio(Cmd::Stop(reply))],
            )
        }
    }

    /// The audio thread has closed the oldest recording.
    pub open spec fn recording_closed(self) -> Self {
        if self.recordings.len() == 0 {
            self
        } else {
            AppModel { recordings: self.recordings.drop_first(), ..self }
        }
    }

    /// The session that what now comes from the audio thread belongs to.
    pub open spec fn heard_in(self) -> Option<usize> {
        if self.recordings.len() == 0 {
            None
        } else {
            Some(self.recordings[0])
        }
    }

    /// Dictation `session` has ended and is still the last one.
    pub open spec fn concluding(self, session: usize) -> bool {
        self.phase == Phase::Idle && self.session == session
    }

    /// The audio thread has ended the recording of dictation `session`, or is gone (`None`). The
    /// clipboard is given back where the recording failed, unless it is another dictation's by now.
    pub open spec fn audio_closed(
        self,
        session: usize,
        answer: Option<Result<(), Seq<char>>>,
    ) -> Self {
        if answer is Some && answer->0 is Err {
            let told = self.doing(
                seq![
                    EffectView::Show(Shown::Error, Some(answer->0->Err_0)),
                    EffectView::HideIslandAfter(2600),
                ],
            );
            if self.concluding(session) {
                told.restored()
            } else {
                told
            }
        } else if self.pending > 0 {
            self.doing(seq![EffectView::Show(Shown::Transcribing, None)])
        } else {
            self
        }
    }

    /// Sentences of dictation `session` are still waited for, after so many milliseconds.
    pub open spec fn draining(self, session: usize, elapsed_ms: u64) -> bool {
        self.concluding(session) && self.pending > 0 && elapsed_ms < DRAIN_TIMEOUT_MS
    }

    /// The text of the dictation.
    pub open spec fn text(self) -> Seq<char> {
        trimmed(joined(self.transcript))
    }

    /// What dictation `session` inserts: its whole text, if it has any and is still the last.
    pub open spec fn delivery(self, session: usize) -> Option<Seq<char>> {
        if self.concluding(session) && self.text().len() > 0 {
            Some(self.text())
        } else {
            None
        }
    }

    /// The text of dictation `session` was asked for, to be inserted.
    pub open spec fn delivered(self, session: usize) -> Self {
        if self.concluding(session) && self.text().len() == 0 {
            self.doing(
                seq![
                    EffectView::Show(Shown::Error, Some("No se entendió nada"@)),
                    EffectView::HideIslandAfter(2000),
                ],
            ).restored()
        } else {
            self
        }
    }

    /// The user is told that the text was inserted, or was not, for this reason.
    pub open spec fn told_of_paste(self, failure: Option<Seq<char>>) -> Self {
        match failure {
            None => self.doing(
                seq![EffectView::Show(Shown::Done, None), EffectView::HideIslandAfter(650)],
            ),
            Some(e) => self.doing(
                seq![
                    EffectView::Show(
                        Shown::Error,
                        Some(e + ". Está copiado: pega con Ctrl+V"@),
                    ),
                    EffectView::HideIslandAfter(3200),
                ],
            ),
        }
    }

    /// The text of dictation `session` was inserted, or was not, for this reason; `copied` says
    /// whether it got as far as the clipboard. A text that was copied and not inserted stays on the
    /// clipboard, and what was there before does not come back. Else it does, unless the clipboard is
    /// another dictation's by now.
    pub open spec fn pasted(
        self,
        session: usize,
        failure: Option<Seq<char>>,
        copied: bool,
    ) -> Self {
        let told = self.told_of_paste(failure);
        if !self.concluding(session) {
            told
        } else if failure is Some && copied {
            AppModel { clipboard: None, ..told }
        } else {
            told.restored()
        }
    }

    /// The sentences of dictation `session` have been waited for, so many milliseconds.
    pub open spec fn waited(self, session: usize, elapsed_ms: u64) -> Self {
        if self.draining(session, elapsed_ms) {
            self
        } else {
            self.delivered(session)
        }
    }

    /// What is next after so many milliseconds of waiting for the sentences of dictation `session`.
    pub open spec fn wait_action(self, session: usize, elapsed_ms: u64) -> InsertActionView {
        if self.draining(session, elapsed_ms) {
            InsertActionView::Wait(DRAIN_POLL_MS)
        } else {
            match self.delivery(session) {
                Some(text) => InsertActionView::Paste(text),
                None => InsertActionView::Done,
            }
        }
    }

    /// The state after a step of inserting dictation `session`.
    pub open spec fn insert_next(self, session: usize, report: Option<InsertReportView>) -> Self {
        match report {
            None => self,
            Some(InsertReportView::Closed(answer)) => {
                let closed = self.audio_closed(session, answer);
                if answer is Some && answer->0 is Err {
                    closed
                } else {
                    closed.waited(session, 0)
                }
            },
            Some(InsertReportView::Waited(elapsed_ms)) => self.waited(session, elapsed_ms),
            Some(InsertReportView::Pasted(failure, copied)) => self.pasted(session, failure, copied),
        }
    }

    /// What is next in inserting dictation `session`.
    pub open spec fn insert_action(
        self,
        session: usize,
        report: Option<InsertReportView>,
    ) -> InsertActionView {
        match report {
            None => InsertActionView::AwaitAudio,
            Some(InsertReportView::Closed(answer)) => if answer is Some && answer->0 is Err {
                InsertActionView::Done
            } else {
                self.audio_closed(session, answer).wait_action(session, 0)
            },
            Some(InsertReportView::Waited(elapsed_ms)) => self.wait_action(session, elapsed_ms),
            Some(InsertReportView::Pasted(_, _)) => InsertActionView::Done,
        }
    }

    /// A sentence of session `session` has its transcript, or has none, for a reason. `polish` says
    /// whether it is to be polished: then it shows as a draft. Nothing shows if the session is
    /// another by now.
    pub open spec fn transcribed(
        self,
        session: usize,
        polish: bool,
        outcome: Result<Seq<char>, Seq<char>>,
    ) -> Self {
        if self.session != session {
            self
        } else {
            match outcome {
                Err(e) => self.doing(
                    seq![
                        EffectView::Show(Shown::Error, Some(e)),
                        EffectView::HideIslandAfter(2600),
                    ],
                ),
                Ok(text) => if !blank(text) && polish {
                    self.doing(seq![EffectView::Preview(joined(self.transcript.push(text)))])
                } else {
                    self
                },
            }
        }
    }

    /// What is next for a sentence of session `session` with this transcript, or with none.
    pub open spec fn segment_step(
        self,
        session: usize,
        polish: bool,
        outcome: Result<Seq<char>, Seq<char>>,
    ) -> SegmentStepView {
        match outcome {
            Ok(text) => if self.session != session || blank(text) {
                SegmentStepView::Drop
            } else if polish {
                SegmentStepView::Polish(text)
            } else {
                SegmentStepView::Keep(text)
            },
            Err(_) => SegmentStepView::Drop,
        }
    }

    /// A sentence of session `session` has its text: it joins the others, unless it is blank or the
    /// session is another by now.
    pub open spec fn kept(self, session: usize, text: Seq<char>) -> Self {
        if blank(text) || self.session != session {
            self
        } else {
            let transcript = self.transcript.push(trimmed(text));
            AppModel { transcript, ..self }.doing(seq![EffectView::Preview(joined(transcript))])
        }
    }

    /// A sentence of the oldest recording waits for its text.
    pub open spec fn queued(self) -> Self {
        if self.recordings.len() == 0 {
            self
        } else {
            AppModel { pending: one_more(self.pending), ..self }
        }
    }

    /// A sentence no longer waits.
    pub open spec fn dequeued(self) -> Self {
        AppModel {
            pending: if self.pending == 0 {
                usize::MAX
            } else {
                (self.pending - 1) as usize
            },
            ..self
        }
    }

    /// The island has shown its last message for long enough.
    pub open spec fn timed_out(self) -> Self {
        if self.phase == Phase::Idle {
            self.doing(seq![EffectView::HideIsland])
        } else {
            self
        }
    }

    /// An entry of the menu was chosen.
    pub open spec fn chosen(self, id: Seq<char>) -> Self {
        match choice_of(id) {
            MenuChoiceView::Quit => self.doing(seq![EffectView::Quit]),
            MenuChoiceView::Settings => self.doing(seq![EffectView::OpenSettings]),
            MenuChoiceView::Polish => {
                let config = ConfigView { polish: !self.config.polish, ..self.config };
                AppModel { config, ..self }.doing(seq![EffectView::SaveConfig(config)])
            },
            MenuChoiceView::Autostart => self.doing(seq![EffectView::ToggleAutostart]),
            MenuChoiceView::Shortcut(choice) => self.doing(seq![EffectView::TryShortcut(choice)]),
            MenuChoiceView::Nothing => self,
        }
    }

    /// A shortcut was tried: where it worked it stays, and else the old one comes back.
    pub open spec fn shortcut_tried(self, choice: Seq<char>, worked: bool) -> Self {
        if worked {
            let config = ConfigView { shortcut: choice, ..self.config };
            AppModel { config, ..self }.doing(seq![EffectView::SaveConfig(config)])
        } else {
            self.doing(seq![EffectView::KeepShortcut(self.config.shortcut)])
        }
    }

    /// A key was entered.
    pub open spec fn keyed(self, api_key: Seq<char>) -> Self {
        AppModel { config: ConfigView { api_key: trimmed(api_key), ..self.config }, ..self }
    }

    /// The program has come up: without a key the settings open.
    pub open spec fn launched(self) -> Self {
        if self.config.has_key() {
            self
        } else {
            self.doing(seq![EffectView::OpenSettings])
        }
    }
}

/// The state of the program.
pub struct AppState {
    phase: Phase,
    pending: usize,
    session: usize,
    recordings: Vec<usize>,
    transcript: Vec<String>,
    clipboard: Option<String>,
    config: Config,
    effects: Vec<Effect>,
}

impl View for AppState {
    type V = AppModel;

    closed spec fn view(&self) -> AppModel {
        AppModel {
            phase: self.phase,
            pending: self.pending,
            session: self.session,
            recordings: self.recordings@,
            transcript: texts(self.transcript@),
            clipboard: option_text(self.clipboard),
            config: self.config@,
            effects: effect_views(self.effects@),
        }
    }
}

impl AppState {
    /// The state at the start, with these settings.
    pub fn new(config: Config) -> (r: Self)
        ensures
            r@ == AppModel::initial(config@),
    {
        let r = AppState {
            phase: Phase::Idle,
            pending: 0,
            session: 0,
            recordings: Vec::new(),
            transcript: Vec::new(),
            clipboard: None,
            config,
            effects: Vec::new(),
        };
        assert(r@ =~= AppModel::initial(config@));
        r
    }

    /// The settings.
    pub fn config(&self) -> (r: Config)
        ensures
            r@ == self@.config,
    {
        self.config.clone()
    }

    /// How far the dictation has come.
    pub fn phase(&self) -> (r: Phase)
        ensures
            r == self@.phase,
    {
        self.phase
    }

    /// Adds to what is to be done.
    fn emit(&mut self, effect: Effect)
        ensures
            final(self)@ == old(self)@.doing(seq![effect@]),
    {
        self.effects.push(effect);
        assert(self@ =~= old(self)@.doing(seq![effect@]));
    }

    /// Has a command handed to the audio thread.
    pub fn send_audio(&mut self, cmd: Cmd)
        ensures
            final(self)@ == old(self)@.doing(seq![EffectView::Audio(cmd)]),
    {
        self.emit(Effect::Audio(cmd));
    }

    /// Hands out what is to be done.
    pub fn take_effects(&mut self) -> (r: Vec<Effect>)
        ensures
            effect_views(r@) == old(self)@.effects,
            final(self)@ == (AppModel { effects: Seq::empty(), ..old(self)@ }),
    {
        let mut effects: Vec<Effect> = Vec::new();
        std::mem::swap(&mut effects, &mut self.effects);
        assert(self@ =~= (AppModel { effects: Seq::empty(), ..old(self)@ }));
        effects
    }

    // ------------------------------------------------------------ the shortcut

    /// The shortcut: starts, pauses and resumes, as often as it is pressed.
    pub fn toggle(&mut self)
        ensures
            final(self)@ == old(self)@.toggled(),
    {
        match self.phase {
            Phase::Recording => self.pause_recording(),
            Phase::Paused => self.resume_recording(),
            Phase::Idle => self.start_recording(),
        }
    }

    /// Pauses the recording, if one is going on.
    pub fn pause_recording(&mut self)
        ensures
            final(self)@ == old(self)@.paused(),
    {
        if self.phase != Phase::Recording {
            return ;
        }
        self.phase = Phase::Paused;
        self.send_audio(Cmd::Pause);
        self.emit(Effect::Show(Shown::Paused, None));
        assert(self@ =~= old(self)@.paused());
    }

    /// Goes on with the recording, if it is paused.
    pub fn resume_recording(&mut self)
        ensures
            final(self)@ == old(self)@.resumed(),
    {
        if self.phase != Phase::Paused {
            return ;
        }
        self.phase = Phase::Recording;
        self.send_audio(Cmd::Resume);
        self.emit(Effect::Show(Shown::Listening, None));
        assert(self@ =~= old(self)@.resumed());
    }

    /// Begins a dictation, if there is a key and none is under way. Without a key the settings open.
    pub fn start_recording(&mut self)
        ensures
            final(self)@ == old(self)@.started(),
    {
        if !self.config.has_key() {
            self.emit(Effect::OpenSettings);
            return ;
        }
        if self.phase != Phase::Idle {
            return ;
        }
        self.phase = Phase::Recording;
        self.session = self.session.wrapping_add(1);
        self.recordings.push(self.session);
        self.transcript = Vec::new();
        self.emit(Effect::SaveClipboard);
        self.emit(Effect::Preview(String::new()));
        self.send_audio(Cmd::Start);
        self.emit(Effect::ShowIsland);
        self.emit(Effect::Show(Shown::Listening, None));
        self.emit(Effect::GrabKeys);
        assert(self@ =~= old(self)@.started());
    }

    /// Takes in what was on the clipboard, if anything, to give it back later.
    pub fn clipboard_saved(&mut self, contents: Option<String>)
        ensures
            final(self)@ == (AppModel { clipboard: option_text(contents), ..old(self)@ }),
    {
        self.clipboard = contents;
        assert(self@ =~= (AppModel { clipboard: option_text(contents), ..old(self)@ }));
    }

    /// Gives the clipboard its old contents back, if they are known, once.
    pub fn restore_clipboard(&mut self)
        ensures
            final(self)@ == old(self)@.restored(),
    {
        let mut previous: Option<String> = None;
        std::mem::swap(&mut previous, &mut self.clipboard);
        if let Some(text) = previous {
            self.emit(Effect::RestoreClipboard(text));
        }
        assert(self@ =~= old(self)@.restored());
    }

    // ------------------------------------------------------------ Esc and Enter

    /// `Esc`: throws the dictation away, with the sentences still under way. The audio thread
    /// answers `reply`. Says whether there was a dictation.
    pub fn cancel_recording(&mut self, reply: Sender<Result<(), String>>) -> (r: bool)
        ensures
            final(self)@ == old(self)@.cancelled(reply),
            r == (old(self)@.phase != Phase::Idle),
    {
        if self.phase == Phase::Idle {
            return false;
        }
        self.phase = Phase::Idle;
        self.session = self.session.wrapping_add(1);
        self.transcript = Vec::new();
        self.emit(Effect::ReleaseKeys);
        self.send_audio(Cmd::Stop(reply));
        assert(self@ =~= (AppModel {
            phase: Phase::Idle,
            session: one_more(old(self)@.session),
            transcript: Seq::empty(),
            ..old(self)@
        }).doing(seq![EffectView::ReleaseKeys, EffectView::Audio(Cmd::Stop(reply))]));
        self.restore_clipboard();
        self.emit(Effect::HideIsland);
        true
    }

    /// `Enter`: ends the recording. The audio thread answers `reply` once the last sentence is on
    /// its way. Hands back the session of the dictation, if there was one: it is then inserted with
    /// [`AppState::insert_step`].
    pub fn finish(&mut self, reply: Sender<Result<(), String>>) -> (r: Option<usize>)
        ensures
            final(self)@ == old(self)@.finished(reply),
            r == if old(self)@.phase != Phase::Idle {
                Some(old(self)@.session)
            } else {
                None
            },
    {
        if self.phase == Phase::Idle {
            return None;
        }
        self.phase = Phase::Idle;
        self.emit(Effect::ReleaseKeys);
        self.send_audio(Cmd::Stop(reply));
        assert(self@ =~= old(self)@.finished(reply));
        Some(self.session)
    }

    /// Whether dictation `session` has ended and is still the last one.
    fn is_concluding(&self, session: usize) -> (r: bool)
        ensures
            r == self@.concluding(session),
    {
        self.phase == Phase::Idle && self.session == session
    }

    /// The audio thread has answered for dictation `session`, or is gone (`None`). Says whether there
    /// may be anything to wait for and insert: not where the recording failed. Then the user is told
    /// why, and the clipboard is given back, unless it is another dictation's by now.
    pub fn audio_closed(&mut self, session: usize, answer: Option<Result<(), String>>) -> (r: bool)
        ensures
            final(self)@ == old(self)@.audio_closed(session, answer_text(answer)),
            r == !(answer is Some && answer->0 is Err),
    {
        match answer {
            Some(Err(e)) => {
                self.emit(Effect::Show(Shown::Error, Some(e)));
                self.emit(Effect::HideIslandAfter(2600));
                assert(self@ =~= old(self)@.doing(
                    seq![
                        EffectView::Show(Shown::Error, Some(e@)),
                        EffectView::HideIslandAfter(2600),
                    ],
                ));
                if self.is_concluding(session) {
                    self.restore_clipboard();
                }
                false
            },
            _ => {
                if self.pending > 0 {
                    self.emit(Effect::Show(Shown::Transcribing, None));
                }
                true
            },
        }
    }

    /// Whether to go on waiting for the sentences of dictation `session`, after so many milliseconds.
    pub fn draining(&self, session: usize, elapsed_ms: u64) -> (r: bool)
        ensures
            r == self@.draining(session, elapsed_ms),
    {
        self.is_concluding(session) && self.pending > 0 && elapsed_ms < DRAIN_TIMEOUT_MS
    }

    /// The whole text of dictation `session`, to be inserted at once; nothing where nothing was
    /// understood, or where another dictation has begun.
    pub fn deliver(&mut self, session: usize) -> (r: Option<String>)
        ensures
            final(self)@ == old(self)@.delivered(session),
            option_text(r) == old(self)@.delivery(session),
    {
        if !self.is_concluding(session) {
            return None;
        }
        let whole = join(self.transcript.as_slice());
        let text = trim(whole.as_str()).to_string();
        if text.as_str().is_empty() {
            self.emit(Effect::Show(Shown::Error, Some("No se entendió nada".to_string())));
            self.emit(Effect::HideIslandAfter(2000));
            assert(self@ =~= old(self)@.doing(
                seq![
                    EffectView::Show(Shown::Error, Some("No se entendió nada"@)),
                    EffectView::HideIslandAfter(2000),
                ],
            ));
            self.restore_clipboard();
            None
        } else {
            Some(text)
        }
    }

    /// The text of dictation `session` was inserted, or was not, for a reason; `copied` says whether
    /// it got as far as the clipboard. A text that was copied and not inserted is left there; else the
    /// clipboard is given back, unless it is another dictation's by now.
    pub fn pasted(&mut self, session: usize, outcome: Result<(), String>, copied: bool)
        ensures
            final(self)@ == old(self)@.pasted(session, failure_text(outcome), copied),
    {
        let ghost failure = failure_text(outcome);
        let failed = outcome.is_err();
        match outcome {
            Ok(()) => {
                self.emit(Effect::Show(Shown::Done, None));
                self.emit(Effect::HideIslandAfter(650));
            },
            Err(e) => {
                let message = e.concat(". Está copiado: pega con Ctrl+V");
                self.emit(Effect::Show(Shown::Error, Some(message)));
                self.emit(Effect::HideIslandAfter(3200));
            },
        }
        assert(self@ =~= old(self)@.told_of_paste(failure));
        if !self.is_concluding(session) {
            return ;
        }
        if failed && copied {
            self.clipboard = None;
            assert(self@ =~= old(self)@.pasted(session, failure, copied));
        } else {
            self.restore_clipboard();
        }
    }

    /// The next step of inserting dictation `session`, which [`AppState::finish`] has ended: wait
    /// for the audio thread, then for the sentences under way, and insert the whole text once.
    /// `report` is how the step before went, if there was one.
    pub fn insert_step(&mut self, session: usize, report: Option<InsertReport>) -> (r: InsertAction)
        ensures
            final(self)@ == old(self)@.insert_next(session, report_view(report)),
            r@ == old(self)@.insert_action(session, report_view(report)),
    {
        match report {
            None => InsertAction::AwaitAudio,
            Some(InsertReport::Closed(answer)) => {
                if self.audio_closed(session, answer) {
                    self.drain_or_deliver(session, 0)
                } else {
                    InsertAction::Done
                }
            },
            Some(InsertReport::Waited(elapsed_ms)) => self.drain_or_deliver(session, elapsed_ms),
            Some(InsertReport::Pasted(outcome, copied)) => {
                self.pasted(session, outcome, copied);
                InsertAction::Done
            },
        }
    }

    /// Goes on waiting for the sentences of dictation `session`, or has its text inserted.
    fn drain_or_deliver(&mut self, session: usize, elapsed_ms: u64) -> (r: InsertAction)
        ensures
            final(self)@ == old(self)@.waited(session, elapsed_ms),
            r@ == old(self)@.wait_action(session, elapsed_ms),
    {
        if self.draining(session, elapsed_ms) {
            return InsertAction::Wait(DRAIN_POLL_MS);
        }
        match self.deliver(session) {
            Some(text) => InsertAction::Paste(text),
            None => InsertAction::Done,
        }
    }

    /// A key of the dictation was pressed or let go of. The audio thread answers `reply`, if it is
    /// used.
    pub fn on_shortcut(
        &mut self,
        pressed: bool,
        is_escape: bool,
        is_enter: bool,
        reply: Sender<Result<(), String>>,
    ) -> (r: Ending)
        ensures
            final(self)@ == if !pressed {
                old(self)@
            } else if is_escape {
                old(self)@.cancelled(reply)
            } else if is_enter {
                old(self)@.finished(reply)
            } else {
                old(self)@.toggled()
            },
            r == if !pressed || old(self)@.phase == Phase::Idle {
                Ending::NoEnd
            } else if is_escape {
                Ending::Cancelled
            } else if is_enter {
                Ending::Finishing(old(self)@.session)
            } else {
                Ending::NoEnd
            },
    {
        if !pressed {
            return Ending::NoEnd;
        }
        if is_escape {
            if self.cancel_recording(reply) {
                Ending::Cancelled
            } else {
                Ending::NoEnd
            }
        } else if is_enter {
            match self.finish(reply) {
                Some(session) => Ending::Finishing(session),
                None => Ending::NoEnd,
            }
        } else {
            self.toggle();
            Ending::NoEnd
        }
    }

    /// The island has shown its last message for long enough: it goes, unless the user has begun
    /// another dictation.
    pub fn hide_island_if_idle(&mut self)
        ensures
            final(self)@ == old(self)@.timed_out(),
    {
        if self.phase == Phase::Idle {
            self.emit(Effect::HideIsland);
        }
    }

    // ------------------------------------------------------------ sentences

    /// A sentence comes from the audio thread, and begins to wait for its text. It belongs to the
    /// session that comes back, the one in which its recording began. Without a recording there is
    /// no sentence.
    pub fn queue_segment(&mut self) -> (r: Option<usize>)
        ensures
            final(self)@ == old(self)@.queued(),
            r == old(self)@.heard_in(),
    {
        if self.recordings.len() == 0 {
            return None;
        }
        self.pending = self.pending.wrapping_add(1);
        assert(self@ =~= old(self)@.queued());
        Some(self.recordings[0])
    }

    /// The audio thread has closed a recording: all its sentences have come.
    pub fn recording_closed(&mut self)
        ensures
            final(self)@ == old(self)@.recording_closed(),
    {
        if self.recordings.len() > 0 {
            self.recordings.remove(0);
        }
        assert(self@ =~= old(self)@.recording_closed());
    }

    /// A sentence no longer waits.
    pub fn segment_done(&mut self)
        ensures
            final(self)@ == old(self)@.dequeued(),
    {
        self.pending = self.pending.wrapping_sub(1);
        assert(self@ =~= old(self)@.dequeued());
    }

    /// Whether a sentence of session `session` is still wanted, and the settings to transcribe it
    /// with.
    pub fn process_segment(&self, session: usize) -> (r: Option<Config>)
        ensures
            r is Some == (self@.session == session),
            r is Some ==> r->0@ == self@.config,
    {
        if self.session != session {
            None
        } else {
            Some(self.config())
        }
    }

    /// The transcript of a sentence of session `session` has come, or has not, for a reason. A
    /// transcript that will be polished shows at once, as a draft. `polish` is what the settings said
    /// when the sentence was taken up. A sentence whose session is over is dropped, and nothing
    /// shows. Says what is next.
    pub fn segment_transcribed(
        &mut self,
        session: usize,
        polish: bool,
        outcome: Result<String, String>,
    ) -> (r: SegmentStep)
        ensures
            old(self)@.session != session ==> final(self)@ == old(self)@ && r@ is Drop,
            final(self)@ == old(self)@.transcribed(session, polish, result_text(outcome)),
            r@ == old(self)@.segment_step(session, polish, result_text(outcome)),
    {
        if self.session != session {
            return SegmentStep::Drop;
        }
        match outcome {
            Err(e) => {
                self.emit(Effect::Show(Shown::Error, Some(e)));
                self.emit(Effect::HideIslandAfter(2600));
                assert(self@ =~= old(self)@.transcribed(session, polish, Err(e@)));
                SegmentStep::Drop
            },
            Ok(text) => {
                if trim(text.as_str()).is_empty() {
                    return SegmentStep::Drop;
                }
                if polish {
                    let draft = preview_with_draft(self.transcript.as_slice(), text.as_str());
                    self.emit(Effect::Preview(draft));
                    SegmentStep::Polish(text)
                } else {
                    SegmentStep::Keep(text)
                }
            },
        }
    }

    /// A sentence of session `session` has its text: it joins the others, and all of them show,
    /// unless it is blank or the session is another by now.
    pub fn keep_segment(&mut self, session: usize, text: &str)
        ensures
            final(self)@ == old(self)@.kept(session, text@),
    {
        let clean = trim(text);
        if clean.is_empty() || self.session != session {
            return ;
        }
        self.transcript.push(clean.to_string());
        assert(texts(self.transcript@) =~= old(self)@.transcript.push(trimmed(text@)));
        let full = join(self.transcript.as_slice());
        self.emit(Effect::Preview(full));
        assert(self@ =~= old(self)@.kept(session, text@));
    }

    // ------------------------------------------------------------ settings

    /// An entry of the menu was chosen.
    pub fn handle_menu(&mut self, id: &str)
        ensures
            final(self)@ == old(self)@.chosen(id@),
    {
        match menu_choice(id) {
            MenuChoice::Quit => self.emit(Effect::Quit),
            MenuChoice::Settings => self.emit(Effect::OpenSettings),
            MenuChoice::Polish => {
                self.config.polish = !self.config.polish;
                let config = self.config();
                self.emit(Effect::SaveConfig(config));
                assert(self@ =~= old(self)@.chosen(id@));
            },
            MenuChoice::Autostart => self.emit(Effect::ToggleAutostart),
            MenuChoice::Shortcut(choice) => self.emit(Effect::TryShortcut(choice)),
            MenuChoice::Nothing => {},
        }
    }

    /// The shortcut `choice` was tried. Where another application has it already, the old one comes
    /// back.
    pub fn shortcut_tried(&mut self, choice: &str, worked: bool)
        ensures
            final(self)@ == old(self)@.shortcut_tried(choice@, worked),
    {
        if worked {
            self.config.shortcut = choice.to_string();
            let config = self.config();
            self.emit(Effect::SaveConfig(config));
        } else {
            let previous = self.config.shortcut.clone();
            self.emit(Effect::KeepShortcut(previous));
        }
        assert(self@ =~= old(self)@.shortcut_tried(choice@, worked));
    }

    /// Takes in the key that the user has entered. Hands back the settings, to be stored.
    pub fn save_api_key(&mut self, api_key: &str) -> (r: Config)
        ensures
            final(self)@ == old(self)@.keyed(api_key@),
            r@ == final(self)@.config,
    {
        self.config.api_key = trim(api_key).to_string();
        assert(self@ =~= old(self)@.keyed(api_key@));
        self.config()
    }

    /// The program has come up. Without a key the settings open.
    pub fn launched(&mut self)
        ensures
            final(self)@ == old(self)@.launched(),
    {
        if !self.config.has_key() {
            self.emit(Effect::OpenSettings);
        }
    }
}

/// An answer of the audio thread, with its text as a sequence of characters.
pub open spec fn answer_text(answer: Option<Result<(), String>>) -> Option<
    Result<(), Seq<char>>,
> {
    match answer {
        Some(Ok(())) => Some(Ok(())),
        Some(Err(e)) => Some(Err(e@)),
        None => None,
    }
}

/// Why something failed, if it did, as a sequence of characters.
pub open spec fn failure_text(outcome: Result<(), String>) -> Option<Seq<char>> {
    match outcome {
        Ok(()) => None,
        Err(e) => Some(e@),
    }
}

/// How a dictation ends, if it does.
#[derive(Clone, Copy, PartialEq, Eq, Structural, Debug)]
pub enum Ending {
    /// It goes on, or there is none.
    NoEnd,
    /// It is thrown away.
    Cancelled,
    /// The dictation of this session is about to be inserted.
    Finishing(usize),
}

/// What to do next about inserting a dictation.
pub enum InsertAction {
    /// Wait for the audio thread to answer.
    AwaitAudio,
    /// Wait so many milliseconds.
    Wait(u64),
    /// Insert this text.
    Paste(String),
    /// Nothing more.
    Done,
}

/// How a step of inserting a dictation went.
pub enum InsertReport {
    /// The audio thread has answered, or is gone (`None`).
    Closed(Option<Result<(), String>>),
    /// So many milliseconds have gone by since the audio thread answered.
    Waited(u64),
    /// The text was inserted, or was not, for a reason; and whether it was copied, see
    /// [`crate::paste::copied`].
    Pasted(Result<(), String>, bool),
}

/// [`InsertAction`], with texts as sequences of characters.
pub enum InsertActionView {
    AwaitAudio,
    Wait(u64),
    Paste(Seq<char>),
    Done,
}

/// [`InsertReport`], with texts as sequences of characters.
pub enum InsertReportView {
    Closed(Option<Result<(), Seq<char>>>),
    Waited(u64),
    Pasted(Option<Seq<char>>, bool),
}

impl View for InsertAction {
    type V = InsertActionView;

    open spec fn view(&self) -> InsertActionView {
        match *self {
            InsertAction::AwaitAudio => InsertActionView::AwaitAudio,
            InsertAction::Wait(millis) => InsertActionView::Wait(millis),
            InsertAction::Paste(text) => InsertActionView::Paste(text@),
            InsertAction::Done => InsertActionView::Done,
        }
    }
}

/// A report that may be missing, with texts as sequences of characters.
pub open spec fn report_view(report: Option<InsertReport>) -> Option<InsertReportView> {
    match report {
        None => None,
        Some(InsertReport::Closed(answer)) => Some(InsertReportView::Closed(answer_text(answer))),
        Some(InsertReport::Waited(elapsed_ms)) => Some(InsertReportView::Waited(elapsed_ms)),
        Some(InsertReport::Pasted(outcome, copied)) => Some(
            InsertReportView::Pasted(failure_text(outcome), copied),
        ),
    }
}

/// What is next for a sentence.
pub enum SegmentStep {
    /// Nothing.
    Drop,
    /// Polish this, and keep the result.
    Polish(String),
    /// Keep this.
    Keep(String),
}

/// [`SegmentStep`], with texts as sequences of characters.
pub enum SegmentStepView {
    Drop,
    Polish(Seq<char>),
    Keep(Seq<char>),
}

impl View for SegmentStep {
    type V = SegmentStepView;

    open spec fn view(&self) -> SegmentStepView {
        match *self {
            SegmentStep::Drop => SegmentStepView::Drop,
            SegmentStep::Polish(text) => SegmentStepView::Polish(text@),
            SegmentStep::Keep(text) => SegmentStepView::Keep(text@),
        }
    }
}

/// The sentences that are settled, and after them the one that is still being polished.
pub fn preview_with_draft(confirmed: &[String], draft: &str) -> (r: String)
    ensures
        r@ == joined(texts(confirmed@).push(draft@)),
{
    let mut r = join(confirmed);
    append_part(&mut r, draft, confirmed.len());
    assert(texts(confirmed@).push(draft@).drop_last() =~= texts(confirmed@));
    assert(r@ =~= joined(texts(confirmed@).push(draft@)));
    r
}

/// Whether closing the window `label` only hides it: the program lives in the tray.
pub fn hides_on_close(label: &str) -> (r: bool)
    ensures
        r == (label@ == SETTINGS@),
{
    same(label, SETTINGS)
}

/// At the start nothing is under way, nothing was said, and there is nothing to be done.
pub proof fn law_the_state_at_the_start(config: ConfigView)
    ensures
        ({
            let m = AppModel::initial(config);
            &&& m.phase == Phase::Idle
            &&& m.pending == 0
            &&& m.recordings.len() == 0
            &&& m.transcript.len() == 0
            &&& m.clipboard is None
            &&& m.config == config
            &&& m.effects.len() == 0
        }),
{
}

/// What is to be done is seen with all that it holds, in order.
pub proof fn law_effects_are_seen_whole(
    effects: Seq<Effect>,
    i: int,
    cmd: Cmd,
    shown: Shown,
    text: String,
    millis: u64,
    config: Config,
)
    ensures
        effect_views(effects).len() == effects.len(),
        0 <= i < effects.len() ==> effect_views(effects)[i] == effects[i]@,
        Effect::Audio(cmd)@ == EffectView::Audio(cmd),
        Effect::Show(shown, Some(text))@ == EffectView::Show(shown, Some(text@)),
        Effect::Show(shown, None)@ == EffectView::Show(shown, None),
        Effect::Preview(text)@ == EffectView::Preview(text@),
        Effect::HideIslandAfter(millis)@ == EffectView::HideIslandAfter(millis),
        Effect::RestoreClipboard(text)@ == EffectView::RestoreClipboard(text@),
        Effect::SaveConfig(config)@ == EffectView::SaveConfig(config@),
        Effect::TryShortcut(text)@ == EffectView::TryShortcut(text@),
        Effect::KeepShortcut(text)@ == EffectView::KeepShortcut(text@),
        Effect::ShowIsland@ is ShowIsland && Effect::HideIsland@ is HideIsland,
        Effect::OpenSettings@ is OpenSettings && Effect::SaveClipboard@ is SaveClipboard,
        Effect::GrabKeys@ is GrabKeys && Effect::ReleaseKeys@ is ReleaseKeys,
        Effect::ToggleAutostart@ is ToggleAutostart && Effect::Quit@ is Quit,
{
}

/// What comes from outside is taken in as it is: texts that may be missing, answers of the audio
/// thread, outcomes and reports; and what is next is seen with its text.
pub proof fn law_reports_are_taken_in_whole(text: String, elapsed_ms: u64, copied: bool)
    ensures
        option_text(Some(text)) == Some(text@),
        option_text(None) is None,
        answer_text(Some(Err(text))) == Some(Err::<(), Seq<char>>(text@)),
        answer_text(Some(Ok(()))) == Some(Ok::<(), Seq<char>>(())),
        answer_text(None) is None,
        failure_text(Err(text)) == Some(text@),
        failure_text(Ok(())) is None,
        report_view(None) is None,
        report_view(Some(InsertReport::Closed(Some(Err(text))))) == Some(
            InsertReportView::Closed(Some(Err(text@))),
        ),
        report_view(Some(InsertReport::Closed(None))) == Some(InsertReportView::Closed(None)),
        report_view(Some(InsertReport::Waited(elapsed_ms))) == Some(
            InsertReportView::Waited(elapsed_ms),
        ),
        report_view(Some(InsertReport::Pasted(Err(text), copied))) == Some(
            InsertReportView::Pasted(Some(text@), copied),
        ),
        report_view(Some(InsertReport::Pasted(Ok(()), copied))) == Some(
            InsertReportView::Pasted(None, copied),
        ),
        InsertAction::Paste(text)@ == InsertActionView::Paste(text@),
        InsertAction::Wait(elapsed_ms)@ == InsertActionView::Wait(elapsed_ms),
        SegmentStep::Polish(text)@ == SegmentStepView::Polish(text@),
        SegmentStep::Keep(text)@ == SegmentStepView::Keep(text@),
{
}

} // verus!
