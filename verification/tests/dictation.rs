use riff::audio::Cmd;
use riff::config::Config;
use riff::dictation::{
    hides_on_close, preview_with_draft, AppState, Effect, Ending, InsertAction, InsertReport, Phase,
    SegmentStep, Shown,
};
use riff::recorder::{Order, Recorder, Signal};
use std::sync::mpsc::{channel, Sender};

fn with_key() -> AppState {
    let mut config = Config::default();
    config.api_key = "k".to_string();
    AppState::new(config)
}

fn reply() -> Sender<Result<(), String>> {
    channel().0
}

fn effects(state: &mut AppState) -> Vec<String> {
    state
        .take_effects()
        .iter()
        .map(|effect| match effect {
            Effect::Audio(Cmd::Start) => "start".to_string(),
            Effect::Audio(Cmd::Pause) => "pause".to_string(),
            Effect::Audio(Cmd::Resume) => "resume".to_string(),
            Effect::Audio(Cmd::Stop(_)) => "stop".to_string(),
            Effect::Show(shown, message) => match message {
                Some(m) => format!("{}: {m}", shown.name()),
                None => shown.name().to_string(),
            },
            Effect::Preview(text) => format!("preview {text}"),
            Effect::ShowIsland => "island".to_string(),
            Effect::HideIsland => "hide".to_string(),
            Effect::HideIslandAfter(millis) => format!("hide {millis}"),
            Effect::OpenSettings => "settings".to_string(),
            Effect::SaveClipboard => "save clipboard".to_string(),
            Effect::RestoreClipboard(text) => format!("restore {text}"),
            Effect::GrabKeys => "grab".to_string(),
            Effect::ReleaseKeys => "release".to_string(),
            Effect::SaveConfig(c) => format!("store {} {} {}", c.api_key, c.shortcut, c.polish),
            Effect::TryShortcut(s) => format!("try {s}"),
            Effect::KeepShortcut(s) => format!("keep {s}"),
            Effect::ToggleAutostart => "autostart".to_string(),
            Effect::Quit => "quit".to_string(),
        })
        .collect()
}

fn queued(state: &mut AppState) -> usize {
    state.queue_segment().unwrap()
}

fn begun() -> AppState {
    let mut state = with_key();
    state.toggle();
    state.clipboard_saved(Some("old".to_string()));
    state.take_effects();
    state
}

#[test]
fn without_a_key_the_settings_open() {
    let mut state = AppState::new(Config::default());
    state.launched();
    state.toggle();
    assert_eq!(effects(&mut state), vec!["settings", "settings"]);
    assert_eq!(state.phase(), Phase::Idle);
    let mut state = with_key();
    state.launched();
    assert!(effects(&mut state).is_empty());
}

#[test]
fn the_shortcut_starts_pauses_and_resumes() {
    let mut state = with_key();
    state.toggle();
    assert_eq!(state.phase(), Phase::Recording);
    assert_eq!(
        effects(&mut state),
        vec!["save clipboard", "preview ", "start", "island", "listening", "grab"]
    );
    for _ in 0..3 {
        state.toggle();
        assert_eq!(state.phase(), Phase::Paused);
        assert_eq!(effects(&mut state), vec!["pause", "paused"]);
        state.toggle();
        assert_eq!(state.phase(), Phase::Recording);
        assert_eq!(effects(&mut state), vec!["resume", "listening"]);
    }
    state.start_recording();
    state.resume_recording();
    assert!(effects(&mut state).is_empty());
    state.pause_recording();
    state.pause_recording();
    assert_eq!(effects(&mut state), vec!["pause", "paused"]);
}

#[test]
fn commands_are_handed_to_the_audio_thread() {
    let mut state = with_key();
    state.send_audio(Cmd::Resume);
    assert_eq!(effects(&mut state), vec!["resume"]);
    assert!(effects(&mut state).is_empty());
}

#[test]
fn escape_throws_everything_away() {
    let mut state = begun();
    let session = queued(&mut state);
    state.keep_segment(session, "Hola.");
    state.take_effects();
    assert!(state.cancel_recording(reply()));
    assert_eq!(effects(&mut state), vec!["release", "stop", "restore old", "hide"]);
    assert_eq!(state.phase(), Phase::Idle);
    // The sentence under way no longer counts.
    assert!(state.process_segment(session).is_none());
    assert!(matches!(
        state.segment_transcribed(session, true, Ok("tarde".to_string())),
        SegmentStep::Drop
    ));
    assert!(matches!(
        state.segment_transcribed(session, true, Err("E".to_string())),
        SegmentStep::Drop
    ));
    state.keep_segment(session, "Tarde.");
    assert!(effects(&mut state).is_empty());
    assert_eq!(state.deliver(session), None);
    assert!(!state.cancel_recording(reply()));
    assert!(effects(&mut state).is_empty());
}

#[test]
fn escape_throws_away_the_sentence_being_spoken() {
    let mut state = begun();
    assert!(state.cancel_recording(reply()));
    state.take_effects();
    // Closing the recording flushes the sentence.
    let flushed = queued(&mut state);
    state.recording_closed();
    assert!(state.process_segment(flushed).is_none());
    state.keep_segment(flushed, "Tarde.");
    state.segment_done();
    assert!(effects(&mut state).is_empty());
    // Nor does it come up in the next dictation.
    state.toggle();
    state.take_effects();
    state.keep_segment(flushed, "Tarde.");
    assert!(effects(&mut state).is_empty());
}

#[test]
fn escape_throws_it_away_though_another_dictation_has_begun() {
    let mut state = begun();
    assert!(state.cancel_recording(reply()));
    state.toggle();
    state.take_effects();
    let flushed = queued(&mut state);
    state.keep_segment(flushed, "Vieja.");
    assert!(effects(&mut state).is_empty());
    state.recording_closed();
    let spoken = queued(&mut state);
    state.keep_segment(spoken, "Nueva.");
    assert_eq!(effects(&mut state), vec!["preview Nueva."]);
}

#[test]
fn without_a_recording_there_is_no_sentence() {
    let mut state = with_key();
    assert_eq!(state.queue_segment(), None);
    state.recording_closed();
    assert!(state.audio_closed(0, Some(Ok(()))));
    assert!(effects(&mut state).is_empty());
    state.toggle();
    assert!(state.queue_segment().is_some());
    state.recording_closed();
    assert_eq!(state.queue_segment(), None);
}

#[test]
fn enter_inserts_the_whole_text_at_once() {
    let mut state = begun();
    let session = queued(&mut state);
    assert!(state.process_segment(session).is_some());
    state.keep_segment(session, " Hola. ");
    state.keep_segment(session, "¿Qué tal?");
    assert_eq!(effects(&mut state), vec!["preview Hola.", "preview Hola. ¿Qué tal?"]);
    assert_eq!(state.finish(reply()), Some(session));
    assert_eq!(effects(&mut state), vec!["release", "stop"]);
    assert_eq!(state.phase(), Phase::Idle);
    assert!(state.audio_closed(session, Some(Ok(()))));
    assert_eq!(effects(&mut state), vec!["transcribing"]);
    assert!(state.draining(session, 0));
    assert!(state.draining(session, 44_999));
    assert!(!state.draining(session, 45_000));
    state.segment_done();
    assert!(!state.draining(session, 0));
    assert_eq!(state.deliver(session), Some("Hola. ¿Qué tal?".to_string()));
    assert!(effects(&mut state).is_empty());
    state.pasted(session, Ok(()), true);
    assert_eq!(effects(&mut state), vec!["done", "hide 650", "restore old"]);
    assert_eq!(state.finish(reply()), None);
}

fn insert_name(action: InsertAction) -> String {
    match action {
        InsertAction::AwaitAudio => "await audio".to_string(),
        InsertAction::Wait(millis) => format!("wait {millis}"),
        InsertAction::Paste(text) => format!("paste {text}"),
        InsertAction::Done => "done".to_string(),
    }
}

fn insert(state: &mut AppState, session: usize, report: Option<InsertReport>) -> String {
    insert_name(state.insert_step(session, report))
}

#[test]
fn enter_takes_its_steps_in_order() {
    let mut state = begun();
    let first = queued(&mut state);
    let second = queued(&mut state);
    state.keep_segment(first, "Uno.");
    state.segment_done();
    let session = state.finish(reply()).unwrap();
    state.take_effects();
    assert_eq!(insert(&mut state, session, None), "await audio");
    assert_eq!(insert(&mut state, session, Some(InsertReport::Closed(Some(Ok(()))))), "wait 80");
    assert_eq!(effects(&mut state), vec!["transcribing"]);
    assert_eq!(insert(&mut state, session, Some(InsertReport::Waited(80))), "wait 80");
    state.keep_segment(second, "Dos.");
    state.segment_done();
    state.take_effects();
    assert_eq!(insert(&mut state, session, Some(InsertReport::Waited(160))), "paste Uno. Dos.");
    assert!(effects(&mut state).is_empty());
    assert_eq!(insert(&mut state, session, Some(InsertReport::Pasted(Ok(()), true))), "done");
    assert_eq!(effects(&mut state), vec!["done", "hide 650", "restore old"]);
}

#[test]
fn enter_waits_for_late_sentences_only_so_long() {
    let mut state = begun();
    let kept = queued(&mut state);
    queued(&mut state);
    state.keep_segment(kept, "Uno.");
    let session = state.finish(reply()).unwrap();
    assert_eq!(insert(&mut state, session, Some(InsertReport::Closed(None))), "wait 80");
    assert_eq!(insert(&mut state, session, Some(InsertReport::Waited(44_999))), "wait 80");
    assert_eq!(insert(&mut state, session, Some(InsertReport::Waited(45_000))), "paste Uno.");
}

#[test]
fn enter_gives_up_where_there_is_nothing_to_insert() {
    let mut state = begun();
    let session = state.finish(reply()).unwrap();
    state.take_effects();
    assert_eq!(insert(&mut state, session, Some(InsertReport::Closed(Some(Ok(()))))), "done");
    assert_eq!(
        effects(&mut state),
        vec!["error: No se entendió nada", "hide 2000", "restore old"]
    );
    let mut state = begun();
    let session = state.finish(reply()).unwrap();
    state.take_effects();
    let failed = InsertReport::Closed(Some(Err("sin micrófono".to_string())));
    assert_eq!(insert(&mut state, session, Some(failed)), "done");
    assert_eq!(effects(&mut state), vec!["error: sin micrófono", "hide 2600", "restore old"]);
}

#[test]
fn a_text_that_could_not_be_inserted_is_on_the_clipboard() {
    let mut state = begun();
    let session = state.finish(reply()).unwrap();
    state.take_effects();
    state.pasted(session, Err("E".to_string()), true);
    assert_eq!(
        effects(&mut state),
        vec!["error: E. Está copiado: pega con Ctrl+V", "hide 3200"]
    );
    // What was there before does not come back later either.
    state.restore_clipboard();
    assert!(effects(&mut state).is_empty());
}

#[test]
fn a_clipboard_that_took_no_text_is_given_back() {
    let mut state = begun();
    let session = state.finish(reply()).unwrap();
    state.take_effects();
    let failed = InsertReport::Pasted(Err("portapapeles: E".to_string()), false);
    assert_eq!(insert(&mut state, session, Some(failed)), "done");
    assert_eq!(
        effects(&mut state),
        vec!["error: portapapeles: E. Está copiado: pega con Ctrl+V", "hide 3200", "restore old"]
    );
    state.restore_clipboard();
    assert!(effects(&mut state).is_empty());
}

#[test]
fn nothing_understood_is_said_so() {
    let mut state = begun();
    let session = state.finish(reply()).unwrap();
    assert!(state.audio_closed(session, None));
    state.take_effects();
    assert_eq!(state.deliver(session), None);
    assert_eq!(
        effects(&mut state),
        vec!["error: No se entendió nada", "hide 2000", "restore old"]
    );
}

#[test]
fn a_failed_recording_is_explained() {
    let mut state = begun();
    let session = state.finish(reply()).unwrap();
    state.take_effects();
    assert!(!state.audio_closed(session, Some(Err("sin micrófono".to_string()))));
    assert_eq!(effects(&mut state), vec!["error: sin micrófono", "hide 2600", "restore old"]);
}

#[test]
fn the_keys_of_a_dictation() {
    let mut state = with_key();
    assert_eq!(state.on_shortcut(false, false, false, reply()), Ending::NoEnd);
    assert_eq!(state.phase(), Phase::Idle);
    assert_eq!(state.on_shortcut(true, true, false, reply()), Ending::NoEnd);
    assert_eq!(state.on_shortcut(true, false, true, reply()), Ending::NoEnd);
    assert_eq!(state.on_shortcut(true, false, false, reply()), Ending::NoEnd);
    assert_eq!(state.phase(), Phase::Recording);
    assert_eq!(state.on_shortcut(true, true, false, reply()), Ending::Cancelled);
    state.toggle();
    let session = queued(&mut state);
    assert!(state.process_segment(session).is_none());
    state.recording_closed();
    let session = queued(&mut state);
    assert_eq!(state.on_shortcut(true, false, true, reply()), Ending::Finishing(session));
    assert_eq!(state.phase(), Phase::Idle);
}

#[test]
fn the_island_stays_during_a_dictation() {
    let mut state = begun();
    state.hide_island_if_idle();
    assert!(effects(&mut state).is_empty());
    state.finish(reply());
    state.take_effects();
    state.hide_island_if_idle();
    assert_eq!(effects(&mut state), vec!["hide"]);
}

#[test]
fn a_draft_shows_while_it_is_polished() {
    let mut state = begun();
    let session = queued(&mut state);
    state.keep_segment(session, "Uno.");
    state.take_effects();
    assert!(matches!(
        state.segment_transcribed(session, true, Ok("dos".to_string())),
        SegmentStep::Polish(t) if t == "dos"
    ));
    assert_eq!(effects(&mut state), vec!["preview Uno. dos"]);
    assert!(matches!(
        state.segment_transcribed(session, false, Ok("dos".to_string())),
        SegmentStep::Keep(t) if t == "dos"
    ));
    assert!(effects(&mut state).is_empty());
    assert!(matches!(
        state.segment_transcribed(session, true, Ok(" ".to_string())),
        SegmentStep::Drop
    ));
    assert!(effects(&mut state).is_empty());
    assert!(matches!(
        state.segment_transcribed(session, true, Err("E".to_string())),
        SegmentStep::Drop
    ));
    assert_eq!(effects(&mut state), vec!["error: E", "hide 2600"]);
}

#[test]
fn a_blank_sentence_is_not_kept() {
    let mut state = begun();
    let session = queued(&mut state);
    state.keep_segment(session, "  ");
    assert!(effects(&mut state).is_empty());
    assert_eq!(state.finish(reply()), Some(session));
    assert_eq!(state.deliver(session), None);
}

#[test]
fn a_new_dictation_forgets_the_last_one() {
    let mut state = begun();
    let first = queued(&mut state);
    state.keep_segment(first, "Uno.");
    assert_eq!(state.finish(reply()), Some(first));
    state.toggle();
    // The sentence that closing the first recording brings belongs to the first dictation.
    assert_eq!(queued(&mut state), first);
    state.recording_closed();
    let second = queued(&mut state);
    assert_ne!(first, second);
    state.keep_segment(first, "Tarde.");
    state.keep_segment(second, "Dos.");
    state.take_effects();
    // The first dictation has nothing to insert any more. At most the user is told how it went: the
    // clipboard is the second's by now.
    state.clipboard_saved(Some("new".to_string()));
    assert_eq!(insert(&mut state, first, Some(InsertReport::Closed(None))), "done");
    assert_eq!(effects(&mut state), vec!["transcribing"]);
    assert_eq!(state.deliver(first), None);
    assert!(!state.draining(first, 0));
    assert!(effects(&mut state).is_empty());
    assert!(!state.audio_closed(first, Some(Err("E".to_string()))));
    assert_eq!(effects(&mut state), vec!["error: E", "hide 2600"]);
    state.pasted(first, Ok(()), true);
    assert_eq!(effects(&mut state), vec!["done", "hide 650"]);
    state.pasted(first, Err("E".to_string()), true);
    assert_eq!(
        effects(&mut state),
        vec!["error: E. Está copiado: pega con Ctrl+V", "hide 3200"]
    );
    // The second is not inserted before it ends.
    assert_eq!(state.deliver(second), None);
    assert_eq!(state.finish(reply()), Some(second));
    assert_eq!(state.deliver(second), Some("Dos.".to_string()));
    state.take_effects();
    state.pasted(second, Ok(()), true);
    assert_eq!(effects(&mut state), vec!["done", "hide 650", "restore new"]);
}

#[test]
fn previews_end_in_the_draft() {
    let none: Vec<String> = Vec::new();
    assert_eq!(preview_with_draft(&none, "uno"), "uno");
    assert_eq!(preview_with_draft(&["Uno.".to_string(), "Dos.".to_string()], "tres"), "Uno. Dos. tres");
}

#[test]
fn the_menu_changes_the_settings() {
    let mut state = with_key();
    state.handle_menu("polish");
    state.handle_menu("autostart");
    state.handle_menu("settings");
    state.handle_menu("quit");
    state.handle_menu("heading");
    state.handle_menu("shortcut:Alt+J");
    assert_eq!(
        effects(&mut state),
        vec!["store k Alt+R false", "autostart", "settings", "quit", "try Alt+J"]
    );
    assert!(!state.config().polish);
    state.shortcut_tried("Alt+J", false);
    assert_eq!(effects(&mut state), vec!["keep Alt+R"]);
    state.shortcut_tried("Alt+J", true);
    assert_eq!(effects(&mut state), vec!["store k Alt+J false"]);
    assert_eq!(state.config().shortcut, "Alt+J");
}

#[test]
fn a_key_is_trimmed() {
    let mut state = AppState::new(Config::default());
    assert_eq!(state.save_api_key("  gsk \n").api_key, "gsk");
    assert_eq!(state.config().api_key, "gsk");
}

#[test]
fn only_the_settings_hide_on_closing() {
    assert!(hides_on_close("settings"));
    assert!(!hides_on_close("island"));
}

#[test]
fn what_the_island_shows_has_a_name() {
    assert_eq!(Shown::Listening.name(), "listening");
    assert_eq!(Shown::Paused.name(), "paused");
    assert_eq!(Shown::Transcribing.name(), "transcribing");
    assert_eq!(Shown::Done.name(), "done");
    assert_eq!(Shown::Error.name(), "error");
}

#[test]
fn what_is_to_be_done_adds_up_in_order() {
    let mut state = with_key();
    state.handle_menu("settings");
    state.toggle();
    state.toggle();
    assert_eq!(
        effects(&mut state),
        vec![
            "settings", "save clipboard", "preview ", "start", "island", "listening", "grab", "pause",
            "paused",
        ]
    );
}

/// Hands the audio commands of `state` to a recorder whose microphone opens or not.
fn heed(state: &mut AppState, recorder: &mut Recorder, opens: bool) {
    for effect in state.take_effects() {
        if let Effect::Audio(cmd) = effect {
            for order in recorder.step(Signal::Command(cmd)) {
                if matches!(order, Order::Open) {
                    let opened = if opens { Ok(()) } else { Err("E".to_string()) };
                    recorder.step(Signal::Opened(opened));
                }
            }
        }
    }
}

fn in_step(state: &AppState, recorder: &Recorder) -> bool {
    match (state.phase(), recorder) {
        (Phase::Idle, Recorder::Idle) => true,
        (Phase::Idle, _) => false,
        (_, Recorder::Broken(_)) => true,
        (Phase::Recording, Recorder::Live { paused }) => !*paused,
        (Phase::Paused, Recorder::Live { paused }) => *paused,
        _ => false,
    }
}

#[test]
fn the_recorder_follows_the_dictation() {
    for opens in [true, false] {
        let mut state = with_key();
        let mut recorder = Recorder::new();
        for round in 0..20 {
            match round % 7 {
                3 => {
                    state.finish(reply());
                }
                6 => {
                    state.cancel_recording(reply());
                }
                _ => state.toggle(),
            }
            heed(&mut state, &mut recorder, opens);
            assert!(in_step(&state, &recorder), "round {round}");
        }
    }
}

/// Whether `Enter` and `Esc` are claimed once the effects of `state` are carried out.
fn held(state: &mut AppState, before: bool) -> bool {
    state.take_effects().iter().fold(before, |held, effect| match effect {
        Effect::GrabKeys => true,
        Effect::ReleaseKeys | Effect::TryShortcut(_) | Effect::KeepShortcut(_) => false,
        _ => held,
    })
}

#[test]
fn the_keys_are_claimed_during_a_dictation() {
    let mut state = with_key();
    for end_with_enter in [true, false] {
        assert!(!held(&mut state, false));
        state.toggle();
        assert!(held(&mut state, false));
        state.toggle();
        assert!(held(&mut state, true));
        if end_with_enter {
            state.finish(reply());
        } else {
            state.cancel_recording(reply());
        }
        assert!(!held(&mut state, true));
    }
    // To change the shortcut, all keys are given up.
    state.toggle();
    state.handle_menu("shortcut:Alt+J");
    assert!(!held(&mut state, false));
    assert_eq!(state.phase(), Phase::Recording);
}
