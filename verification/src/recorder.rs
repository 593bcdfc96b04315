//! The audio thread: what it does with each command, while it records and while it does not.
//!
//! The thread waits for a signal, hands it to [`Recorder::step`], and carries out the orders that
//! come back, in order.

use crate::audio::{Cmd, POLL_MS};
use vstd::prelude::*;
use std::sync::mpsc::Sender;

verus! {

/// What the audio thread is doing.
pub enum Recorder {
    /// Nothing is being recorded.
    Idle,
    /// The microphone could not be opened; the reason is owed to whoever ends the recording.
    Broken(String),
    /// A recording is under way.
    Live { paused: bool },
}

/// What reaches the audio thread.
pub enum Signal {
    Command(Cmd),
    /// The outcome of the order to open the microphone.
    Opened(Result<(), String>),
    /// No command came within the polling interval.
    Tick,
    /// Nobody is left to send commands.
    Disconnected,
}

/// What the audio thread has to do.
pub enum Order {
    /// Open the microphone with an empty buffer, and report back how it went.
    Open,
    /// Close the microphone. Nothing writes to the buffer afterwards.
    Close,
    /// Halt the microphone.
    Halt,
    /// Set the halted microphone going again.
    Play,
    /// Send out what is left in the buffer.
    Flush,
    /// Send out a sentence, if one is ready.
    TakeReady,
    /// Answer the command that ended the recording.
    Reply(Sender<Result<(), String>>, Result<(), String>),
    /// End the thread.
    Exit,
}

/// [`Recorder`], with texts as sequences of characters.
pub enum RecorderView {
    Idle,
    Broken(Seq<char>),
    Live { paused: bool },
}

/// [`Signal`], with texts as sequences of characters.
pub enum SignalView {
    Command(Cmd),
    Opened(Result<(), Seq<char>>),
    Tick,
    Disconnected,
}

/// [`Order`], with texts as sequences of characters.
pub enum OrderView {
    Open,
    Close,
    Halt,
    Play,
    Flush,
    TakeReady,
    Reply(Sender<Result<(), String>>, Result<(), Seq<char>>),
    Exit,
}

/// An outcome, with its text as a sequence of characters.
pub open spec fn outcome_text(r: Result<(), String>) -> Result<(), Seq<char>> {
    match r {
        Ok(()) => Ok(()),
        Err(e) => Err(e@),
    }
}

impl View for Recorder {
    type V = RecorderView;

    open spec fn view(&self) -> RecorderView {
        match *self {
            Recorder::Idle => RecorderView::Idle,
            Recorder::Broken(e) => RecorderView::Broken(e@),
            Recorder::Live { paused } => RecorderView::Live { paused },
        }
    }
}

impl View for Signal {
    type V = SignalView;

    open spec fn view(&self) -> SignalView {
        match *self {
            Signal::Command(c) => SignalView::Command(c),
            Signal::Opened(r) => SignalView::Opened(outcome_text(r)),
            Signal::Tick => SignalView::Tick,
            Signal::Disconnected => SignalView::Disconnected,
        }
    }
}

impl View for Order {
    type V = OrderView;

    open spec fn view(&self) -> OrderView {
        match *self {
            Order::Open => OrderView::Open,
            Order::Close => OrderView::Close,
            Order::Halt => OrderView::Halt,
            Order::Play => OrderView::Play,
            Order::Flush => OrderView::Flush,
            Order::TakeReady => OrderView::TakeReady,
            Order::Reply(to, r) => OrderView::Reply(to, outcome_text(r)),
            Order::Exit => OrderView::Exit,
        }
    }
}

/// Orders, with texts as sequences of characters.
pub open spec fn order_views(orders: Seq<Order>) -> Seq<OrderView> {
    Seq::new(orders.len(), |i: int| orders[i]@)
}

/// What whoever ends a recording is told when there is none.
pub const NO_RECORDING: &'static str = "no había ninguna grabación";

impl RecorderView {
    /// What becomes of the thread on `signal`.
    pub open spec fn next(self, signal: SignalView) -> RecorderView {
        match (self, signal) {
            (_, SignalView::Disconnected) => RecorderView::Idle,
            (RecorderView::Idle, SignalView::Opened(Ok(()))) => RecorderView::Live {
                paused: false,
            },
            (RecorderView::Idle, SignalView::Opened(Err(e))) => RecorderView::Broken(e),
            (_, SignalView::Command(Cmd::Stop(_))) => RecorderView::Idle,
            (RecorderView::Live { .. }, SignalView::Command(Cmd::Pause)) => RecorderView::Live {
                paused: true,
            },
            (RecorderView::Live { .. }, SignalView::Command(Cmd::Resume)) => RecorderView::Live {
                paused: false,
            },
            _ => self,
        }
    }

    /// What the thread does on `signal`.
    pub open spec fn orders(self, signal: SignalView) -> Seq<OrderView> {
        match (self, signal) {
            (RecorderView::Live { .. }, SignalView::Disconnected) => seq![
                OrderView::Close,
                OrderView::Exit,
            ],
            (_, SignalView::Disconnected) => seq![OrderView::Exit],
            (RecorderView::Idle, SignalView::Command(Cmd::Start)) => seq![OrderView::Open],
            (RecorderView::Idle, SignalView::Command(Cmd::Stop(to))) => seq![
                OrderView::Reply(to, Err(NO_RECORDING@)),
            ],
            (RecorderView::Broken(e), SignalView::Command(Cmd::Stop(to))) => seq![
                OrderView::Reply(to, Err(e)),
            ],
            (RecorderView::Live { .. }, SignalView::Command(Cmd::Stop(to))) => seq![
                OrderView::Close,
                OrderView::Flush,
                OrderView::Reply(to, Ok(())),
            ],
            (RecorderView::Live { paused: false }, SignalView::Command(Cmd::Pause)) => seq![
                OrderView::Halt,
                OrderView::Flush,
            ],
            (RecorderView::Live { paused: true }, SignalView::Command(Cmd::Resume)) => seq![
                OrderView::Play,
            ],
            (RecorderView::Live { paused: false }, SignalView::Tick) => seq![OrderView::TakeReady],
            _ => Seq::empty(),
        }
    }
}

impl Recorder {
    /// A thread that records nothing.
    pub fn new() -> (r: Self)
        ensures
            r@ == RecorderView::Idle,
    {
        Recorder::Idle
    }

    /// How long to wait for a command, in milliseconds; without end where there is nothing to poll.
    pub fn patience(&self) -> (r: Option<u64>)
        ensures
            r == if self@ is Live {
                Some(POLL_MS)
            } else {
                None
            },
    {
        match self {
            Recorder::Live { .. } => Some(POLL_MS),
            _ => None,
        }
    }

    /// Takes a signal in, and says what to do about it.
    pub fn step(&mut self, signal: Signal) -> (r: Vec<Order>)
        ensures
            final(self)@ == old(self)@.next(signal@),
            order_views(r@) == old(self)@.orders(signal@),
    {
        let mut state = Recorder::Idle;
        std::mem::swap(&mut state, self);
        let (next, orders) = state.respond(signal);
        *self = next;
        orders
    }

    /// The state that follows `self` on `signal`, and what to do about the signal.
    fn respond(self, signal: Signal) -> (r: (Recorder, Vec<Order>))
        ensures
            r.0@ == self@.next(signal@),
            order_views(r.1@) =~= self@.orders(signal@),
    {
        match self {
            Recorder::Idle => match signal {
                Signal::Command(Cmd::Start) => (Recorder::Idle, vec![Order::Open]),
                Signal::Command(Cmd::Stop(to)) => (
                    Recorder::Idle,
                    vec![Order::Reply(to, Err(NO_RECORDING.to_string()))],
                ),
                Signal::Command(_) => (Recorder::Idle, Vec::new()),
                Signal::Opened(Ok(())) => (Recorder::Live { paused: false }, Vec::new()),
                Signal::Opened(Err(e)) => (Recorder::Broken(e), Vec::new()),
                Signal::Tick => (Recorder::Idle, Vec::new()),
                Signal::Disconnected => (Recorder::Idle, vec![Order::Exit]),
            },
            Recorder::Broken(e) => match signal {
                Signal::Command(Cmd::Stop(to)) => (
                    Recorder::Idle,
                    vec![Order::Reply(to, Err(e))],
                ),
                Signal::Disconnected => (Recorder::Idle, vec![Order::Exit]),
                _ => (Recorder::Broken(e), Vec::new()),
            },
            Recorder::Live { paused } => match signal {
                Signal::Command(Cmd::Stop(to)) => (
                    Recorder::Idle,
                    vec![Order::Close, Order::Flush, Order::Reply(to, Ok(()))],
                ),
                Signal::Command(Cmd::Pause) => {
                    if paused {
                        (Recorder::Live { paused: true }, Vec::new())
                    } else {
                        (Recorder::Live { paused: true }, vec![Order::Halt, Order::Flush])
                    }
                },
                Signal::Command(Cmd::Resume) => {
                    if paused {
                        (Recorder::Live { paused: false }, vec![Order::Play])
                    } else {
                        (Recorder::Live { paused: false }, Vec::new())
                    }
                },
                Signal::Tick => {
                    if paused {
                        (Recorder::Live { paused: true }, Vec::new())
                    } else {
                        (Recorder::Live { paused: false }, vec![Order::TakeReady])
                    }
                },
                Signal::Disconnected => (Recorder::Idle, vec![Order::Close, Order::Exit]),
                _ => (Recorder::Live { paused }, Vec::new()),
            },
        }
    }
}

/// Whoever ends a recording is answered, exactly once and last of all, whatever the thread is
/// doing: with success where a recording was under way, once the last sentence has gone out, and
/// else with the reason why there was none. Nothing is being recorded afterwards.
pub proof fn law_stop_is_always_answered(
    recorder: RecorderView,
    to: Sender<Result<(), String>>,
)
    ensures
        ({
            let signal = SignalView::Command(Cmd::Stop(to));
            let orders = recorder.orders(signal);
            &&& recorder.next(signal) is Idle
            &&& orders.len() > 0
            &&& orders.last() == OrderView::Reply(
                to,
                match recorder {
                    RecorderView::Idle => Err(NO_RECORDING@),
                    RecorderView::Broken(e) => Err(e),
                    RecorderView::Live { .. } => Ok(()),
                },
            )
            &&& forall|i: int| 0 <= i < orders.len() - 1 ==> !(#[trigger] orders[i] is Reply)
            &&& recorder is Live ==> orders.len() > 1 && orders[orders.len() - 2] is Flush
        }),
{
}

/// Nobody is answered but whoever ends the recording.
pub proof fn law_only_stop_is_answered(recorder: RecorderView, signal: SignalView, i: int)
    requires
        0 <= i < recorder.orders(signal).len(),
        recorder.orders(signal)[i] is Reply,
    ensures
        signal is Command,
        signal->Command_0 is Stop,
{
}

/// The buffer is only flushed once the microphone no longer writes to it: right before every
/// flush it was closed or halted.
pub proof fn law_flush_only_a_still_microphone(
    recorder: RecorderView,
    signal: SignalView,
    i: int,
)
    requires
        0 <= i < recorder.orders(signal).len(),
        recorder.orders(signal)[i] is Flush,
    ensures
        i > 0,
        recorder.orders(signal)[i - 1] is Close || recorder.orders(signal)[i - 1] is Halt,
{
}

/// The microphone is closed exactly when a recording ends, and asked for only when none is under
/// way.
pub proof fn law_microphone_follows_the_recording(recorder: RecorderView, signal: SignalView)
    ensures
        recorder.orders(signal).contains(OrderView::Close) <==> recorder is Live
            && !(recorder.next(signal) is Live),
        recorder.orders(signal).contains(OrderView::Open) ==> recorder is Idle,
        !(recorder is Live) && recorder.next(signal) is Live ==> signal is Opened
            && signal->Opened_0 is Ok,
{
    let orders = recorder.orders(signal);
    if recorder is Live && !(recorder.next(signal) is Live) {
        assert(orders[0] == OrderView::Close);
    }
}

/// A recording can be paused and resumed any number of times: pausing halts the microphone and ends
/// the sentence under way, resuming undoes pausing, and asking twice for either does nothing the
/// second time.
pub proof fn law_pause_and_resume(paused: bool)
    ensures
        ({
            let live = RecorderView::Live { paused };
            let pause = SignalView::Command(Cmd::Pause);
            let resume = SignalView::Command(Cmd::Resume);
            &&& !paused ==> live.orders(pause) == seq![OrderView::Halt, OrderView::Flush]
            &&& live.next(pause).orders(resume) == seq![OrderView::Play]
            &&& live.next(pause).next(resume) == RecorderView::Live { paused: false }
            &&& live.next(pause).next(pause) == live.next(pause)
            &&& live.next(pause).orders(pause).len() == 0
            &&& live.next(resume).next(resume) == live.next(resume)
            &&& live.next(resume).orders(resume).len() == 0
        }),
{
}

/// While a recording is paused no sentence is cut.
pub proof fn law_no_sentence_while_paused(signal: SignalView)
    ensures
        !(RecorderView::Live { paused: true }).orders(signal).contains(OrderView::TakeReady),
{
}

/// A recording begins with the microphone: the command opens it, a microphone that opens makes the
/// recording live, and one that does not leaves the reason to be told.
pub proof fn law_a_recording_begins_with_the_microphone(e: Seq<char>)
    ensures
        RecorderView::Idle.orders(SignalView::Command(Cmd::Start)) == seq![OrderView::Open],
        RecorderView::Idle.next(SignalView::Command(Cmd::Start)) is Idle,
        RecorderView::Idle.next(SignalView::Opened(Ok(()))) == (RecorderView::Live { paused: false }),
        RecorderView::Idle.next(SignalView::Opened(Err(e))) == RecorderView::Broken(e),
        RecorderView::Idle.orders(SignalView::Opened(Ok(()))).len() == 0,
        RecorderView::Idle.orders(SignalView::Opened(Err(e))).len() == 0,
{
}

/// While a recording is live and not paused, a sentence is looked for whenever no command came, and
/// the recording goes on.
pub proof fn law_sentences_are_looked_for(paused: bool)
    ensures
        (RecorderView::Live { paused: false }).orders(SignalView::Tick) == seq![
            OrderView::TakeReady,
        ],
        (RecorderView::Live { paused: true }).orders(SignalView::Tick).len() == 0,
        (RecorderView::Live { paused }).next(SignalView::Tick) == (RecorderView::Live { paused }),
{
}

/// Where the microphone could not be opened, nothing happens until the recording is ended or nobody
/// is left to do so; and the reason is kept till then.
pub proof fn law_a_broken_recording_waits(e: Seq<char>, signal: SignalView)
    requires
        !(signal is Disconnected),
        signal is Command ==> !(signal->Command_0 is Stop),
    ensures
        RecorderView::Broken(e).next(signal) == RecorderView::Broken(e),
        RecorderView::Broken(e).orders(signal).len() == 0,
{
}

/// A recording that is ended, paused or not, closes the microphone, sends out what is left, and only
/// then answers; it ends by nothing else, unless nobody is left to send commands.
pub proof fn law_a_recording_ends_in_order(
    paused: bool,
    to: Sender<Result<(), String>>,
    signal: SignalView,
)
    ensures
        (RecorderView::Live { paused }).orders(SignalView::Command(Cmd::Stop(to))) == seq![
            OrderView::Close,
            OrderView::Flush,
            OrderView::Reply(to, Ok(())),
        ],
        !((RecorderView::Live { paused }).next(signal) is Live) ==> signal is Disconnected || (
        signal is Command && signal->Command_0 is Stop),
{
}

/// The thread ends exactly when nobody is left to send commands, after closing the microphone if it
/// is open.
pub proof fn law_the_thread_ends_when_nobody_is_left(recorder: RecorderView, signal: SignalView)
    ensures
        recorder.orders(signal).contains(OrderView::Exit) <==> signal is Disconnected,
        recorder is Live ==> recorder.orders(SignalView::Disconnected) == seq![
            OrderView::Close,
            OrderView::Exit,
        ],
        !(recorder is Live) ==> recorder.orders(SignalView::Disconnected) == seq![OrderView::Exit],
        recorder.next(SignalView::Disconnected) is Idle,
{
    let orders = recorder.orders(signal);
    if signal is Disconnected {
        assert(orders[orders.len() - 1] == OrderView::Exit);
    }
}

/// Without a recording, pausing, resuming and waiting do nothing; and a recording that is under way
/// is not begun again.
pub proof fn law_commands_out_of_place_do_nothing(recorder: RecorderView, signal: SignalView)
    requires
        ({
            ||| recorder is Idle && (signal is Tick || (signal is Command && (
            signal->Command_0 is Pause || signal->Command_0 is Resume)))
            ||| recorder is Live && (signal is Opened || (signal is Command
                && signal->Command_0 is Start))
        }),
    ensures
        recorder.next(signal) == recorder,
        recorder.orders(signal).len() == 0,
{
}

/// What the audio thread is doing, what reaches it and what it has to do are seen with all their
/// texts.
pub proof fn law_orders_are_seen_whole(
    e: String,
    paused: bool,
    cmd: Cmd,
    to: Sender<Result<(), String>>,
    orders: Seq<Order>,
    i: int,
)
    ensures
        Recorder::Broken(e)@ == RecorderView::Broken(e@),
        (Recorder::Live { paused })@ == (RecorderView::Live { paused }),
        Recorder::Idle@ is Idle,
        Signal::Command(cmd)@ == SignalView::Command(cmd),
        Signal::Opened(Err(e))@ == SignalView::Opened(Err(e@)),
        Signal::Opened(Ok(()))@ == SignalView::Opened(Ok(())),
        Order::Reply(to, Err(e))@ == OrderView::Reply(to, Err(e@)),
        Order::Reply(to, Ok(()))@ == OrderView::Reply(to, Ok(())),
        order_views(orders).len() == orders.len(),
        0 <= i < orders.len() ==> order_views(orders)[i] == orders[i]@,
{
}

} // verus!
