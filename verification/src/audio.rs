//! Microphone capture: when a stretch of sound is speech, where a sentence ends, and what the
//! audio thread does with each command.
//!
//! Sound is cut at natural pauses, never every so many seconds: each piece is then a whole
//! sentence, and no word is split. Samples pass through untouched, so the buffer is generic in
//! them; a peak crosses into this module as the bit pattern of a non-negative `f32`, whose order
//! as an integer is the order of the values.

use vstd::prelude::*;
use std::sync::mpsc::Sender;

verus! {

/// Bits of the peak (0.022) below which a block of sound counts as silence.
pub const SILENCE_PEAK: u32 = 0x3cb4_3958;

/// Bits of the peak (0.045) from which a block of sound may be speech.
pub const VOICE_PEAK: u32 = 0x3d38_51ec;

/// How long a sound has to stay at speech level to count as speech, in milliseconds. The click of
/// a key lasts 10 to 30 ms, the shortest syllable well over this.
pub const SUSTAINED_VOICE_MS: u64 = 90;

/// Speech that a segment needs to be worth a request, in milliseconds.
pub const MIN_VOICED_MS: u64 = 350;

/// The pause that ends a sentence, in milliseconds.
pub const SILENCE_TO_CUT_MS: u64 = 450;

/// The shortest segment worth a request, in milliseconds.
pub const MIN_SEGMENT_MS: u64 = 600;

/// The length at which a segment is cut even without a pause, in milliseconds.
pub const MAX_SEGMENT_MS: u64 = 18_000;

/// What is kept of the pause behind the last sound, in milliseconds.
pub const TAIL_MARGIN_MS: u64 = 150;

/// How often a ready segment is looked for, in milliseconds.
pub const POLL_MS: u64 = 40;

/// How often the interface hears of the level, in milliseconds.
pub const LEVEL_INTERVAL_MS: u64 = 40;

/// The sending half of a channel of the standard library, carried through as it is: nothing is
/// claimed of it.
#[verifier::external_type_specification]
#[verifier::external_body]
#[verifier::reject_recursive_types(T)]
pub struct ExSender<T>(std::sync::mpsc::Sender<T>);

/// A command to the audio thread.
pub enum Cmd {
    Start,
    /// Stops the microphone and keeps what was said. Ends the sentence under way.
    Pause,
    /// Opens the microphone again.
    Resume,
    /// Ends the recording. Answered once the last sentence has gone out.
    Stop(Sender<Result<(), String>>),
}

/// How loud a block of sound is.
#[derive(Clone, Copy, PartialEq, Eq, Structural, Debug)]
pub enum Level {
    Silence,
    Noise,
    Voice,
}

/// Whether the interface is to hear of the level again, so many milliseconds after the last time.
pub fn level_due(elapsed_ms: u64) -> (r: bool)
    ensures
        r == (elapsed_ms >= LEVEL_INTERVAL_MS),
{
    elapsed_ms >= LEVEL_INTERVAL_MS
}

/// The level of a block whose peak has the bits `peak`.
pub open spec fn level_of(peak: u32) -> Level {
    if peak < SILENCE_PEAK {
        Level::Silence
    } else if peak < VOICE_PEAK {
        Level::Noise
    } else {
        Level::Voice
    }
}

/// The level of a block whose peak, non-negative, has the bits `peak`.
pub fn level(peak: u32) -> (r: Level)
    ensures
        r == level_of(peak),
{
    if peak < SILENCE_PEAK {
        Level::Silence
    } else if peak < VOICE_PEAK {
        Level::Noise
    } else {
        Level::Voice
    }
}

/// The thresholds of segmentation, in samples.
#[derive(Clone, Copy, Debug)]
pub struct Limits {
    /// The pause that ends a sentence.
    pub silence_needed: usize,
    /// The shortest segment.
    pub min_len: usize,
    /// The length at which a segment is cut without a pause.
    pub max_len: usize,
    /// What is kept of the pause at the end.
    pub margin: usize,
    /// The least speech in a segment.
    pub min_voiced: usize,
}

/// What is known of the sound since the last cut.
pub struct Heard<S> {
    /// All samples since the last cut.
    pub samples: Seq<S>,
    /// How many of the last samples are silence.
    pub trailing_silence: nat,
    /// How many of the last samples are at speech level.
    pub loud_run: nat,
    /// How many samples counted as speech.
    pub voiced: nat,
    /// Whether any sound counted as speech.
    pub has_voice: bool,
}

impl<S> Heard<S> {
    /// Nothing yet.
    pub open spec fn nothing() -> Self {
        Heard {
            samples: Seq::empty(),
            trailing_silence: 0,
            loud_run: 0,
            voiced: 0,
            has_voice: false,
        }
    }

    /// The counts are counts of the samples, the last samples are not both silent and loud, and
    /// there is no speech without a voice.
    pub open spec fn wf(self) -> bool {
        &&& self.trailing_silence <= self.samples.len()
        &&& self.loud_run <= self.samples.len()
        &&& self.voiced <= self.samples.len()
        &&& self.trailing_silence == 0 || self.loud_run == 0
        &&& !self.has_voice ==> self.voiced == 0
    }

    /// Whether one more block at speech level, `added` samples long, makes the sound last
    /// `sustained` samples.
    pub open spec fn lasts(self, added: nat, sustained: nat) -> bool {
        self.loud_run + added >= sustained
    }

    /// One more block of sound.
    pub open spec fn and(self, block: Seq<S>, level: Level, sustained: nat) -> Self {
        let spoken = level is Voice && self.lasts(block.len(), sustained);
        Heard {
            samples: self.samples + block,
            trailing_silence: if level is Silence {
                self.trailing_silence + block.len()
            } else {
                0
            },
            loud_run: if level is Voice {
                self.loud_run + block.len()
            } else {
                0
            },
            voiced: if spoken {
                self.voiced + block.len()
            } else {
                self.voiced
            },
            has_voice: self.has_voice || spoken,
        }
    }

    /// The pause at the end is long enough to end a sentence.
    pub open spec fn paused(self, limits: Limits) -> bool {
        self.trailing_silence >= limits.silence_needed
    }

    /// There is a sentence to cut: speech, not too short, and a pause behind it or too long to
    /// wait for one.
    pub open spec fn ready(self, limits: Limits) -> bool {
        &&& self.has_voice
        &&& self.samples.len() >= limits.min_len
        &&& self.paused(limits) || self.samples.len() >= limits.max_len
    }

    /// How many samples a cut keeps: all but the pause at the end, of which a margin stays.
    pub open spec fn kept(self, limits: Limits) -> int {
        if self.paused(limits) && limits.margin < self.trailing_silence {
            self.samples.len() - self.trailing_silence + limits.margin
        } else {
            self.samples.len() as int
        }
    }

    /// What a cut hands out: nothing where there is no sentence, or where what was kept is too
    /// short or holds too little speech.
    pub open spec fn segment(self, limits: Limits) -> Seq<S> {
        if self.ready(limits) && self.kept(limits) >= limits.min_len && self.voiced
            >= limits.min_voiced {
            self.samples.take(self.kept(limits))
        } else {
            Seq::empty()
        }
    }

    /// What a flush hands out: everything, where there is enough speech in it.
    pub open spec fn remainder(self, min_voiced: nat) -> Seq<S> {
        if self.has_voice && self.voiced >= min_voiced {
            self.samples
        } else {
            Seq::empty()
        }
    }
}

/// The sound since the last cut, with what decides where to cut next.
pub struct Capture<S> {
    samples: Vec<S>,
    trailing_silence: usize,
    loud_run: usize,
    voiced: usize,
    has_voice: bool,
}

impl<S> View for Capture<S> {
    type V = Heard<S>;

    closed spec fn view(&self) -> Heard<S> {
        Heard {
            samples: self.samples@,
            trailing_silence: self.trailing_silence as nat,
            loud_run: self.loud_run as nat,
            voiced: self.voiced as nat,
            has_voice: self.has_voice,
        }
    }
}

impl<S> Capture<S> {
    /// An empty buffer.
    pub fn new() -> (r: Self)
        ensures
            r@ == Heard::<S>::nothing(),
            r@.wf(),
    {
        Capture {
            samples: Vec::new(),
            trailing_silence: 0,
            loud_run: 0,
            voiced: 0,
            has_voice: false,
        }
    }

    /// Forgets all sound, to begin the next sentence.
    pub fn reset_segment(&mut self)
        ensures
            final(self)@ == Heard::<S>::nothing(),
            final(self)@.wf(),
    {
        self.samples = Vec::new();
        self.trailing_silence = 0;
        self.loud_run = 0;
        self.voiced = 0;
        self.has_voice = false;
    }

    /// Takes in a block of sound at `level`; `sustained` is how many samples a sound has to last
    /// to count as speech.
    pub fn absorb(&mut self, block: Vec<S>, level: Level, sustained: usize)
        requires
            old(self)@.wf(),
            old(self)@.samples.len() + block@.len() <= usize::MAX,
        ensures
            final(self)@ == old(self)@.and(block@, level, sustained as nat),
            final(self)@.wf(),
    {
        let mut block = block;
        let added: usize = block.len();
        self.samples.append(&mut block);
        if level == Level::Silence {
            self.trailing_silence = self.trailing_silence + added;
        } else {
            self.trailing_silence = 0;
        }
        if level == Level::Voice {
            self.loud_run = self.loud_run + added;
            if self.loud_run >= sustained {
                self.has_voice = true;
                self.voiced = self.voiced + added;
            }
        } else {
            self.loud_run = 0;
        }
    }

    /// Cuts off a sentence, if one is ready, and forgets the pause behind it. Empty where there is
    /// nothing to send: no sentence is ready, or what was cut off is mere noise.
    pub fn take_ready_segment(&mut self, limits: &Limits) -> (r: Vec<S>)
        requires
            old(self)@.wf(),
        ensures
            r@ == old(self)@.segment(*limits),
            final(self)@ == if old(self)@.ready(*limits) {
                Heard::<S>::nothing()
            } else {
                old(self)@
            },
            final(self)@.wf(),
    {
        let len: usize = self.samples.len();
        if !self.has_voice || len < limits.min_len {
            return Vec::new();
        }
        let by_pause = self.trailing_silence >= limits.silence_needed;
        let by_length = len >= limits.max_len;
        if !by_pause && !by_length {
            return Vec::new();
        }
        let keep: usize = if by_pause && limits.margin < self.trailing_silence {
            len - self.trailing_silence + limits.margin
        } else {
            len
        };
        let voiced: usize = self.voiced;
        let mut taken: Vec<S> = Vec::new();
        std::mem::swap(&mut taken, &mut self.samples);
        self.reset_segment();
        if keep < limits.min_len || voiced < limits.min_voiced {
            return Vec::new();
        }
        taken.truncate(keep);
        taken
    }

    /// Hands out all sound, pause or not, and forgets it. Empty where there is not enough speech
    /// in it.
    pub fn flush_pending(&mut self, min_voiced: usize) -> (r: Vec<S>)
        ensures
            r@ == old(self)@.remainder(min_voiced as nat),
            final(self)@ == Heard::<S>::nothing(),
            final(self)@.wf(),
    {
        let enough = self.has_voice && self.voiced >= min_voiced;
        let mut samples: Vec<S> = Vec::new();
        std::mem::swap(&mut samples, &mut self.samples);
        self.reset_segment();
        if enough {
            samples
        } else {
            Vec::new()
        }
    }
}

/// The sound of several blocks, one after the other, from silence.
pub open spec fn heard<S>(blocks: Seq<(Seq<S>, Level)>, sustained: nat) -> Heard<S>
    decreases blocks.len(),
{
    if blocks.len() == 0 {
        Heard::nothing()
    } else {
        heard(blocks.drop_last(), sustained).and(blocks.last().0, blocks.last().1, sustained)
    }
}

/// How many samples the blocks from `from` up to `to` hold.
pub open spec fn span<S>(blocks: Seq<(Seq<S>, Level)>, from: int, to: int) -> nat
    decreases to - from,
{
    if from < to {
        span(blocks, from, to - 1) + blocks[to - 1].0.len()
    } else {
        0
    }
}

/// The blocks from `from` up to `to` are all at `level`.
pub open spec fn all_at<S>(
    blocks: Seq<(Seq<S>, Level)>,
    from: int,
    to: int,
    level: Level,
) -> bool {
    forall|i: int| from <= i < to ==> (#[trigger] blocks[i]).1 == level
}

/// A run of blocks at speech level that lasts at least `sustained` samples.
pub open spec fn speech<S>(
    blocks: Seq<(Seq<S>, Level)>,
    from: int,
    to: int,
    sustained: nat,
) -> bool {
    &&& 0 <= from < to <= blocks.len()
    &&& all_at(blocks, from, to, Level::Voice)
    &&& span(blocks, from, to) >= sustained
}

proof fn lemma_span_of_front<S>(blocks: Seq<(Seq<S>, Level)>, from: int, to: int)
    requires
        0 <= from,
        to <= blocks.len() - 1,
    ensures
        span(blocks.drop_last(), from, to) == span(blocks, from, to),
    decreases to - from,
{
    if from < to {
        lemma_span_of_front(blocks, from, to - 1);
    }
}

proof fn lemma_span_starts_earlier<S>(
    blocks: Seq<(Seq<S>, Level)>,
    earlier: int,
    from: int,
    to: int,
)
    requires
        earlier <= from <= to,
    ensures
        span(blocks, from, to) <= span(blocks, earlier, to),
    decreases to - from,
{
    if from < to {
        lemma_span_starts_earlier(blocks, earlier, from, to - 1);
    }
}

/// The two running counts measure the run of blocks at the end: from some block on all are at
/// the level in question, the block before is not, and the count is the length of that run.
proof fn lemma_running_counts<S>(blocks: Seq<(Seq<S>, Level)>, sustained: nat) -> (r: (int, int))
    ensures
        0 <= r.0 <= blocks.len(),
        all_at(blocks, r.0, blocks.len() as int, Level::Voice),
        r.0 > 0 ==> blocks[r.0 - 1].1 != Level::Voice,
        heard(blocks, sustained).loud_run == span(blocks, r.0, blocks.len() as int),
        0 <= r.1 <= blocks.len(),
        all_at(blocks, r.1, blocks.len() as int, Level::Silence),
        r.1 > 0 ==> blocks[r.1 - 1].1 != Level::Silence,
        heard(blocks, sustained).trailing_silence == span(blocks, r.1, blocks.len() as int),
    decreases blocks.len(),
{
    if blocks.len() == 0 {
        (0, 0)
    } else {
        let front = blocks.drop_last();
        let n = blocks.len() as int;
        let (v, s) = lemma_running_counts(front, sustained);
        assert(forall|i: int| 0 <= i < front.len() ==> front[i] == blocks[i]);
        lemma_span_of_front(blocks, v, n - 1);
        lemma_span_of_front(blocks, s, n - 1);
        let voice = if blocks.last().1 is Voice {
            v
        } else {
            n
        };
        let silence = if blocks.last().1 is Silence {
            s
        } else {
            n
        };
        assert(all_at(blocks, voice, n, Level::Voice)) by {
            assert forall|i: int| voice <= i < n implies (#[trigger] blocks[i]).1
                == Level::Voice by {
                if i < n - 1 {
                    assert(front[i].1 == Level::Voice);
                }
            }
        }
        assert(all_at(blocks, silence, n, Level::Silence)) by {
            assert forall|i: int| silence <= i < n implies (#[trigger] blocks[i]).1
                == Level::Silence by {
                if i < n - 1 {
                    assert(front[i].1 == Level::Silence);
                }
            }
        }
        (voice, silence)
    }
}

/// Sound counts as speech exactly when it stays at speech level, without a gap, for at least
/// `sustained` samples: however many clicks there are, short ones never add up to a voice.
pub proof fn law_only_sustained_sound_is_speech<S>(
    blocks: Seq<(Seq<S>, Level)>,
    sustained: nat,
)
    ensures
        heard(blocks, sustained).has_voice <==> exists|from: int, to: int|
            speech(blocks, from, to, sustained),
    decreases blocks.len(),
{
    if blocks.len() > 0 {
        let front = blocks.drop_last();
        let n = blocks.len() as int;
        law_only_sustained_sound_is_speech(front, sustained);
        assert(forall|i: int| 0 <= i < front.len() ==> front[i] == blocks[i]);
        if heard(blocks, sustained).has_voice {
            if heard(front, sustained).has_voice {
                let (from, to) = choose|from: int, to: int| speech(front, from, to, sustained);
                lemma_span_of_front(blocks, from, to);
                assert forall|i: int| from <= i < to implies (#[trigger] blocks[i]).1
                    == Level::Voice by {
                    assert(front[i].1 == Level::Voice);
                }
                assert(speech(blocks, from, to, sustained));
            } else {
                let (v, _) = lemma_running_counts(blocks, sustained);
                assert(v < n);
                assert(speech(blocks, v, n, sustained));
            }
        }
        if exists|from: int, to: int| speech(blocks, from, to, sustained) {
            let (from, to) = choose|from: int, to: int| speech(blocks, from, to, sustained);
            if to < n {
                lemma_span_of_front(blocks, from, to);
                assert forall|i: int| from <= i < to implies (#[trigger] front[i]).1
                    == Level::Voice by {
                    assert(blocks[i].1 == Level::Voice);
                }
                assert(speech(front, from, to, sustained));
            } else {
                let (v, _) = lemma_running_counts(blocks, sustained);
                assert(blocks[n - 1].1 == Level::Voice);
                assert(v <= from) by {
                    if v > from {
                        assert(blocks[v - 1].1 == Level::Voice);
                    }
                }
                lemma_span_starts_earlier(blocks, v, from, n);
            }
        }
    } else {
        assert(!exists|from: int, to: int| speech(blocks, from, to, sustained));
    }
}

/// The pause at the end is as long as the run of silent blocks at the end: all blocks from some
/// block on are silent, the one before is not, and the pause counts their samples.
pub proof fn law_pause_is_the_silence_at_the_end<S>(
    blocks: Seq<(Seq<S>, Level)>,
    sustained: nat,
)
    ensures
        exists|from: int|
            {
                &&& 0 <= from <= blocks.len()
                &&& all_at(blocks, from, blocks.len() as int, Level::Silence)
                &&& from > 0 ==> blocks[from - 1].1 != Level::Silence
                &&& heard(blocks, sustained).trailing_silence == #[trigger] span(
                    blocks,
                    from,
                    blocks.len() as int,
                )
            },
{
    let (_, s) = lemma_running_counts(blocks, sustained);
    assert(span(blocks, s, blocks.len() as int) == heard(blocks, sustained).trailing_silence);
}

/// Whatever is heard, the counts stay counts of the samples, and what is heard does not end both in
/// silence and at speech level.
pub proof fn law_heard_is_well_formed<S>(blocks: Seq<(Seq<S>, Level)>, sustained: nat)
    ensures
        heard(blocks, sustained).wf(),
        heard(blocks, sustained).trailing_silence == 0 || heard(blocks, sustained).loud_run == 0,
    decreases blocks.len(),
{
    if blocks.len() > 0 {
        law_heard_is_well_formed(blocks.drop_last(), sustained);
    }
}

/// There is a voice exactly when some samples counted as speech. (An empty block counts for no
/// sample, so where any sound at all is speech, no block at speech level may be empty.)
pub proof fn law_a_voice_has_samples<S>(blocks: Seq<(Seq<S>, Level)>, sustained: nat)
    requires
        sustained > 0 || forall|i: int|
            0 <= i < blocks.len() && (#[trigger] blocks[i]).1 is Voice ==> blocks[i].0.len() > 0,
    ensures
        heard(blocks, sustained).has_voice <==> heard(blocks, sustained).voiced > 0,
{
    lemma_loud_is_voiced(blocks, sustained);
}

proof fn lemma_loud_is_voiced<S>(blocks: Seq<(Seq<S>, Level)>, sustained: nat)
    requires
        sustained > 0 || forall|i: int|
            0 <= i < blocks.len() && (#[trigger] blocks[i]).1 is Voice ==> blocks[i].0.len() > 0,
    ensures
        heard(blocks, sustained).has_voice <==> heard(blocks, sustained).voiced > 0,
        heard(blocks, sustained).loud_run >= sustained > 0 ==> heard(blocks, sustained).voiced > 0,
    decreases blocks.len(),
{
    if blocks.len() > 0 {
        let front = blocks.drop_last();
        assert(forall|i: int| 0 <= i < front.len() ==> front[i] == blocks[i]);
        lemma_loud_is_voiced(front, sustained);
        assert(blocks.last() == blocks[blocks.len() - 1]);
    }
}

/// The pause at the end is quiet all through: where every sample of a silent block is `quiet`, so is
/// every sample of the pause.
pub proof fn law_the_pause_is_quiet<S>(
    blocks: Seq<(Seq<S>, Level)>,
    sustained: nat,
    quiet: spec_fn(S) -> bool,
)
    requires
        forall|i: int, k: int|
            0 <= i < blocks.len() && blocks[i].1 is Silence && 0 <= k < blocks[i].0.len() ==> quiet(
                #[trigger] blocks[i].0[k],
            ),
    ensures
        ({
            let h = heard(blocks, sustained);
            forall|k: int|
                h.samples.len() - h.trailing_silence <= k < h.samples.len() ==> quiet(
                    #[trigger] h.samples[k],
                )
        }),
    decreases blocks.len(),
{
    law_heard_is_well_formed(blocks, sustained);
    if blocks.len() > 0 {
        let front = blocks.drop_last();
        let last = blocks.len() - 1;
        assert forall|i: int, k: int|
            0 <= i < front.len() && front[i].1 is Silence && 0 <= k < front[i].0.len() implies quiet(
            #[trigger] front[i].0[k],
        ) by {
            assert(quiet(blocks[i].0[k]));
        }
        law_the_pause_is_quiet(front, sustained, quiet);
        law_heard_is_well_formed(front, sustained);
        let before = heard(front, sustained);
        let h = heard(blocks, sustained);
        assert forall|k: int|
            h.samples.len() - h.trailing_silence <= k < h.samples.len() implies quiet(
            #[trigger] h.samples[k],
        ) by {
            if k < before.samples.len() {
                assert(h.samples[k] == before.samples[k]);
            } else {
                assert(h.samples[k] == blocks[last].0[k - before.samples.len()]);
            }
        }
    }
}

/// A cut loses nothing but pause: what a ready segment leaves behind is part of the pause at
/// its end, or nothing, and a margin of the pause stays.
pub proof fn law_cut_drops_only_pause<S>(h: Heard<S>, limits: Limits)
    requires
        h.wf(),
        h.ready(limits),
    ensures
        h.samples.len() - h.trailing_silence <= h.kept(limits) <= h.samples.len(),
        h.kept(limits) < h.samples.len() ==> h.paused(limits) && h.kept(limits) == h.samples.len()
            - h.trailing_silence + limits.margin,
{
}

/// Speech without a pause is cut all the same once it is long enough, and nothing of it is lost.
pub proof fn law_speech_without_a_pause_is_cut<S>(h: Heard<S>, limits: Limits)
    requires
        h.wf(),
        h.has_voice,
        h.samples.len() >= limits.max_len >= limits.min_len,
        !h.paused(limits),
        h.voiced >= limits.min_voiced,
    ensures
        h.ready(limits),
        h.segment(limits) == h.samples,
{
    assert(h.samples.take(h.samples.len() as int) =~= h.samples);
}

/// Every segment that is handed out is worth a request: it has enough speech in it, and is the
/// beginning of what was heard; and one that was cut off, and not flushed, is long enough.
pub proof fn law_segments_are_worth_a_request<S>(h: Heard<S>, limits: Limits)
    requires
        h.wf(),
    ensures
        h.segment(limits).len() > 0 ==> h.has_voice && h.voiced >= limits.min_voiced
            && h.segment(limits).len() >= limits.min_len && h.segment(limits) == h.samples.take(
            h.segment(limits).len() as int,
        ),
        h.remainder(limits.min_voiced as nat).len() > 0 ==> h.has_voice && h.voiced
            >= limits.min_voiced && h.remainder(limits.min_voiced as nat) == h.samples,
{
}

// ---------------------------------------------------------------- what is heard, in full

/// How many samples of the first `n` blocks are speech: those of the blocks at the end of a run at
/// speech level that has lasted at least `sustained` samples by then.
pub open spec fn spoken_samples<S>(
    blocks: Seq<(Seq<S>, Level)>,
    n: int,
    sustained: nat,
) -> nat
    decreases n,
{
    if n <= 0 {
        0
    } else {
        spoken_samples(blocks, n - 1, sustained) + if exists|from: int|
            speech(blocks, from, n, sustained) {
            blocks[n - 1].0.len()
        } else {
            0
        }
    }
}

proof fn lemma_speech_of_front<S>(
    blocks: Seq<(Seq<S>, Level)>,
    from: int,
    to: int,
    sustained: nat,
)
    requires
        to <= blocks.len() - 1,
    ensures
        speech(blocks.drop_last(), from, to, sustained) == speech(blocks, from, to, sustained),
{
    let front = blocks.drop_last();
    if 0 <= from < to {
        lemma_span_of_front(blocks, from, to);
        assert(forall|i: int| 0 <= i < front.len() ==> front[i] == blocks[i]);
        if all_at(front, from, to, Level::Voice) {
            assert forall|i: int| from <= i < to implies (#[trigger] blocks[i]).1 == Level::Voice by {
                assert(front[i].1 == Level::Voice);
            }
        }
        if all_at(blocks, from, to, Level::Voice) {
            assert forall|i: int| from <= i < to implies (#[trigger] front[i]).1 == Level::Voice by {
                assert(blocks[i].1 == Level::Voice);
            }
        }
    }
}

proof fn lemma_spoken_of_front<S>(blocks: Seq<(Seq<S>, Level)>, n: int, sustained: nat)
    requires
        n <= blocks.len() - 1,
    ensures
        spoken_samples(blocks.drop_last(), n, sustained) == spoken_samples(blocks, n, sustained),
    decreases n,
{
    if n > 0 {
        lemma_spoken_of_front(blocks, n - 1, sustained);
        assert forall|from: int| speech(blocks.drop_last(), from, n, sustained) == #[trigger] speech(
            blocks,
            from,
            n,
            sustained,
        ) by {
            lemma_speech_of_front(blocks, from, n, sustained);
        }
        if exists|from: int| speech(blocks.drop_last(), from, n, sustained) {
            let from = choose|from: int| speech(blocks.drop_last(), from, n, sustained);
            assert(speech(blocks, from, n, sustained));
        }
    }
}

/// Speech is counted over the whole segment, not only at its end: the count is the sum of all blocks
/// that are speech, run by run. A block counts where the sound has been at speech level, without a
/// gap up to and with that block, for at least `sustained` samples.
pub proof fn law_all_speech_is_counted<S>(blocks: Seq<(Seq<S>, Level)>, sustained: nat)
    ensures
        heard(blocks, sustained).voiced == spoken_samples(blocks, blocks.len() as int, sustained),
    decreases blocks.len(),
{
    if blocks.len() > 0 {
        let front = blocks.drop_last();
        let n = blocks.len() as int;
        law_all_speech_is_counted(front, sustained);
        lemma_spoken_of_front(blocks, n - 1, sustained);
        let (v, _) = lemma_running_counts(blocks, sustained);
        let spoken = blocks.last().1 is Voice && heard(blocks, sustained).loud_run >= sustained;
        if spoken {
            assert(v < n);
            assert(speech(blocks, v, n, sustained));
        }
        if exists|from: int| speech(blocks, from, n, sustained) {
            let from = choose|from: int| speech(blocks, from, n, sustained);
            assert(blocks[n - 1].1 == Level::Voice);
            assert(v <= from) by {
                if v > from {
                    assert(blocks[v - 1].1 == Level::Voice);
                }
            }
            lemma_span_starts_earlier(blocks, v, from, n);
        }
    }
}

/// The run of sound at speech level at the end is as long as its blocks: all blocks from some block on
/// are at speech level, the one before is not, and the run counts their samples.
pub proof fn law_the_run_is_the_voice_at_the_end<S>(
    blocks: Seq<(Seq<S>, Level)>,
    sustained: nat,
)
    ensures
        exists|from: int|
            {
                &&& 0 <= from <= blocks.len()
                &&& all_at(blocks, from, blocks.len() as int, Level::Voice)
                &&& from > 0 ==> blocks[from - 1].1 != Level::Voice
                &&& heard(blocks, sustained).loud_run == #[trigger] span(
                    blocks,
                    from,
                    blocks.len() as int,
                )
            },
{
    let (v, _) = lemma_running_counts(blocks, sustained);
    assert(span(blocks, v, blocks.len() as int) == heard(blocks, sustained).loud_run);
}

/// Every sample that came is there, in the order in which the blocks came.
pub proof fn law_no_sample_is_lost<S>(blocks: Seq<(Seq<S>, Level)>, sustained: nat, i: int, k: int)
    requires
        0 <= i < blocks.len(),
        0 <= k < blocks[i].0.len(),
    ensures
        heard(blocks, sustained).samples.len() == span(blocks, 0, blocks.len() as int),
        span(blocks, 0, i) + k < heard(blocks, sustained).samples.len(),
        heard(blocks, sustained).samples[span(blocks, 0, i) + k] == blocks[i].0[k],
    decreases blocks.len(),
{
    let front = blocks.drop_last();
    let n = blocks.len() as int;
    lemma_samples_are_spanned(blocks, sustained);
    lemma_samples_are_spanned(front, sustained);
    lemma_span_of_front(blocks, 0, n - 1);
    if i < n - 1 {
        law_no_sample_is_lost(front, sustained, i, k);
        lemma_span_of_front(blocks, 0, i);
    }
}

proof fn lemma_samples_are_spanned<S>(blocks: Seq<(Seq<S>, Level)>, sustained: nat)
    ensures
        heard(blocks, sustained).samples.len() == span(blocks, 0, blocks.len() as int),
    decreases blocks.len(),
{
    if blocks.len() > 0 {
        lemma_samples_are_spanned(blocks.drop_last(), sustained);
        lemma_span_of_front(blocks, 0, blocks.len() - 1);
    }
}

/// More sound only adds: no sample is lost or moved, what counted as speech still counts, and a voice
/// that was heard stays heard.
pub proof fn law_more_sound_only_adds<S>(
    h: Heard<S>,
    block: Seq<S>,
    level: Level,
    sustained: nat,
)
    ensures
        h.and(block, level, sustained).samples == h.samples + block,
        h.voiced <= h.and(block, level, sustained).voiced <= h.voiced + block.len(),
        h.has_voice ==> h.and(block, level, sustained).has_voice,
        level != Level::Voice ==> h.and(block, level, sustained).voiced == h.voiced && h.and(
            block,
            level,
            sustained,
        ).has_voice == h.has_voice,
{
}

/// The louder, the more a block counts for: below 0.022 it is silence, from 0.045 on it is at speech
/// level, and in between it is neither.
pub proof fn law_levels_follow_the_peak(peak: u32)
    ensures
        level_of(peak) == Level::Silence <==> peak < 0x3cb4_3958,
        level_of(peak) == Level::Voice <==> peak >= 0x3d38_51ec,
{
}

/// A sentence with enough speech in it is handed out as soon as the pause behind it is long enough:
/// all of it up to the pause, and of the pause a margin, or all where it is shorter than that.
pub proof fn law_a_pause_hands_out_the_sentence<S>(h: Heard<S>, limits: Limits)
    requires
        h.wf(),
        h.has_voice,
        h.voiced >= limits.min_voiced,
        h.trailing_silence >= limits.silence_needed,
        h.samples.len() - h.trailing_silence >= limits.min_len,
    ensures
        h.ready(limits),
        h.segment(limits).len() == h.samples.len() - h.trailing_silence + if limits.margin
            < h.trailing_silence {
            limits.margin as int
        } else {
            h.trailing_silence as int
        },
        forall|k: int| 0 <= k < h.segment(limits).len() ==> h.segment(limits)[k] == h.samples[k],
{
}

/// What is handed out depends on nothing but the five limits: something is handed out exactly when
/// there is a voice with enough speech, a pause that is long enough or a length that is too great, and
/// enough is left without the pause.
pub proof fn law_when_a_sentence_is_handed_out<S>(h: Heard<S>, limits: Limits)
    requires
        h.wf(),
        limits.min_len > 0,
    ensures
        ({
            let len = h.samples.len() as int;
            let pause = h.trailing_silence as int;
            let kept = if pause >= limits.silence_needed && pause > limits.margin {
                len - pause + limits.margin
            } else {
                len
            };
            &&& h.segment(limits).len() > 0 <==> h.has_voice && h.voiced >= limits.min_voiced && kept
                >= limits.min_len && (pause >= limits.silence_needed || len >= limits.max_len)
            &&& h.segment(limits).len() > 0 ==> h.segment(limits).len() == kept
        }),
{
}

/// The buffer is emptied for the next sentence exactly when there is a voice in it, it is long enough,
/// and it ends in a pause or is too long to wait for one. So sound without a voice, or too little of
/// it, or with no pause yet, stays to be gone on with.
pub proof fn law_when_the_buffer_is_emptied<S>(h: Heard<S>, limits: Limits)
    ensures
        h.ready(limits) <==> h.has_voice && h.samples.len() >= limits.min_len && (h.trailing_silence
            >= limits.silence_needed || h.samples.len() >= limits.max_len),
        !h.ready(limits) ==> h.segment(limits).len() == 0,
{
}

/// A flush hands out everything where there is enough speech, whatever pause stands at the end, and
/// else nothing.
pub proof fn law_a_flush_hands_out_everything<S>(h: Heard<S>, min_voiced: nat)
    ensures
        h.has_voice && h.voiced >= min_voiced ==> h.remainder(min_voiced) == h.samples,
        !h.has_voice || h.voiced < min_voiced ==> h.remainder(min_voiced).len() == 0,
{
}

/// An emptied buffer remembers nothing of what was in it.
pub proof fn law_nothing_is_left_of_the_last_sentence<S>()
    ensures
        Heard::<S>::nothing().samples.len() == 0,
        Heard::<S>::nothing().trailing_silence == 0,
        Heard::<S>::nothing().loud_run == 0,
        Heard::<S>::nothing().voiced == 0,
        !Heard::<S>::nothing().has_voice,
{
}

/// The spans of time fit together: a click is shorter than what counts as speech, the least speech
/// fits in the shortest segment, the margin fits in the pause, and both in the longest segment.
pub proof fn law_spans_of_time_fit_together()
    ensures
        30 < SUSTAINED_VOICE_MS == 90,
        SUSTAINED_VOICE_MS < MIN_VOICED_MS == 350,
        MIN_VOICED_MS < MIN_SEGMENT_MS == 600,
        TAIL_MARGIN_MS == 150,
        TAIL_MARGIN_MS < SILENCE_TO_CUT_MS == 450,
        MIN_SEGMENT_MS + SILENCE_TO_CUT_MS < MAX_SEGMENT_MS == 18_000,
        POLL_MS == 40,
        LEVEL_INTERVAL_MS == 40,
{
}

} // verus!
