use riff::audio::Cmd;
use riff::microphone::{open_step, OpenAction, OpenReport, SampleKind};
use riff::recorder::{Order, Recorder, Signal};
use std::sync::mpsc::{channel, Receiver};

fn names(orders: &[Order]) -> Vec<&'static str> {
    orders
        .iter()
        .map(|order| match order {
            Order::Open => "open",
            Order::Close => "close",
            Order::Halt => "halt",
            Order::Play => "play",
            Order::Flush => "flush",
            Order::TakeReady => "take",
            Order::Reply(_, Ok(())) => "ok",
            Order::Reply(_, Err(_)) => "err",
            Order::Exit => "exit",
        })
        .collect()
}

fn command(recorder: &mut Recorder, cmd: Cmd) -> Vec<&'static str> {
    names(&recorder.step(Signal::Command(cmd)))
}

fn stop(recorder: &mut Recorder) -> (Vec<&'static str>, Receiver<Result<(), String>>) {
    let (tx, rx) = channel();
    let orders = recorder.step(Signal::Command(Cmd::Stop(tx)));
    let seen = names(&orders);
    for order in orders {
        if let Order::Reply(to, outcome) = order {
            to.send(outcome).unwrap();
        }
    }
    (seen, rx)
}

#[test]
fn a_recording_from_start_to_stop() {
    let mut recorder = Recorder::new();
    assert_eq!(recorder.patience(), None);
    assert_eq!(command(&mut recorder, Cmd::Start), vec!["open"]);
    assert!(recorder.step(Signal::Opened(Ok(()))).is_empty());
    assert_eq!(recorder.patience(), Some(40));
    assert_eq!(names(&recorder.step(Signal::Tick)), vec!["take"]);
    assert!(command(&mut recorder, Cmd::Start).is_empty());
    assert!(command(&mut recorder, Cmd::Resume).is_empty());
    assert_eq!(command(&mut recorder, Cmd::Pause), vec!["halt", "flush"]);
    assert!(command(&mut recorder, Cmd::Pause).is_empty());
    assert!(recorder.step(Signal::Tick).is_empty());
    assert_eq!(command(&mut recorder, Cmd::Resume), vec!["play"]);
    let (orders, rx) = stop(&mut recorder);
    assert_eq!(orders, vec!["close", "flush", "ok"]);
    assert_eq!(rx.recv().unwrap(), Ok(()));
    assert_eq!(recorder.patience(), None);
}

#[test]
fn stop_without_a_recording_is_answered() {
    let mut recorder = Recorder::new();
    let (orders, rx) = stop(&mut recorder);
    assert_eq!(orders, vec!["err"]);
    assert_eq!(rx.recv().unwrap(), Err("no había ninguna grabación".to_string()));
    assert!(command(&mut recorder, Cmd::Pause).is_empty());
    assert!(command(&mut recorder, Cmd::Resume).is_empty());
}

#[test]
fn stop_after_a_failed_start_is_told_why() {
    let mut recorder = Recorder::new();
    assert_eq!(command(&mut recorder, Cmd::Start), vec!["open"]);
    assert!(recorder.step(Signal::Opened(Err("no hay".to_string()))).is_empty());
    assert_eq!(recorder.patience(), None);
    assert!(command(&mut recorder, Cmd::Start).is_empty());
    assert!(command(&mut recorder, Cmd::Pause).is_empty());
    let (orders, rx) = stop(&mut recorder);
    assert_eq!(orders, vec!["err"]);
    assert_eq!(rx.recv().unwrap(), Err("no hay".to_string()));
    assert_eq!(command(&mut recorder, Cmd::Start), vec!["open"]);
}

#[test]
fn the_thread_ends_when_nobody_is_left() {
    let mut recorder = Recorder::new();
    assert_eq!(names(&recorder.step(Signal::Disconnected)), vec!["exit"]);
    recorder.step(Signal::Opened(Ok(())));
    assert_eq!(names(&recorder.step(Signal::Disconnected)), vec!["close", "exit"]);
}

fn opened(report: Option<OpenReport>) -> String {
    match open_step(report) {
        OpenAction::FindDevice => "find".to_string(),
        OpenAction::ReadConfig => "config".to_string(),
        OpenAction::Build(SampleKind::F32) => "build f32".to_string(),
        OpenAction::Build(SampleKind::I16) => "build i16".to_string(),
        OpenAction::Build(SampleKind::U16) => "build u16".to_string(),
        OpenAction::Build(SampleKind::Other(_)) => "build other".to_string(),
        OpenAction::Play => "play".to_string(),
        OpenAction::Done(Ok(())) => "ok".to_string(),
        OpenAction::Done(Err(e)) => e,
    }
}

#[test]
fn a_microphone_is_opened_step_by_step() {
    assert_eq!(opened(None), "find");
    assert_eq!(opened(Some(OpenReport::Device(true))), "config");
    assert_eq!(opened(Some(OpenReport::Config(Ok(SampleKind::F32)))), "build f32");
    assert_eq!(opened(Some(OpenReport::Config(Ok(SampleKind::I16)))), "build i16");
    assert_eq!(opened(Some(OpenReport::Config(Ok(SampleKind::U16)))), "build u16");
    assert_eq!(opened(Some(OpenReport::Built(Ok(())))), "play");
    assert_eq!(opened(Some(OpenReport::Playing(Ok(())))), "ok");
}

#[test]
fn failures_to_open_are_explained() {
    let e = || "E".to_string();
    assert_eq!(opened(Some(OpenReport::Device(false))), "no se encontró ningún micrófono");
    assert_eq!(opened(Some(OpenReport::Config(Err(e())))), "no se pudo abrir el micrófono: E");
    assert_eq!(
        opened(Some(OpenReport::Config(Ok(SampleKind::Other("I24".to_string()))))),
        "formato de audio no soportado: I24"
    );
    assert_eq!(opened(Some(OpenReport::Built(Err(e())))), "no se pudo iniciar la captura: E");
    assert_eq!(opened(Some(OpenReport::Playing(Err(e())))), "no se pudo grabar: E");
}
