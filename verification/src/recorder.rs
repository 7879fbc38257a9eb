//! A short recording of received audio, kept in memory, that can be played
//! back as transmit audio. Samples are the bits of floating-point numbers.
use vstd::prelude::*;

verus! {

pub const SAMPLE_RATE_HZ: usize = 48_000;

pub const MAX_SECONDS: usize = 60;

pub const MAX_SAMPLES: usize = 2_880_000;

/// Nanoseconds of a full recording.
pub const MAX_NS: u64 = 60_000_000_000;

/// The recorder. `started_at` is when the recording began, in nanoseconds
/// of a clock that never runs back.
#[derive(Debug)]
pub struct ReportRecorder {
    pub recording: bool,
    pub playing: bool,
    pub buffer: Vec<u32>,
    pub play_pos: usize,
    pub started_at: u64,
}

/// The samples recorded, and whether recording goes on, after one more
/// sample came in.
pub open spec fn frame_written(b: Seq<u32>, recording: bool, mono: u32) -> (Seq<u32>, bool) {
    if recording {
        (b.push(mono), b.len() + 1 < MAX_SAMPLES)
    } else {
        (b, false)
    }
}

/// The same after a run of samples.
pub open spec fn frames_written(b: Seq<u32>, recording: bool, frames: Seq<u32>) -> (Seq<u32>, bool)
    decreases frames.len(),
{
    if frames.len() == 0 {
        (b, recording)
    } else {
        let (sofar, on) = frames_written(b, recording, frames.drop_last());
        frame_written(sofar, on, frames.last())
    }
}

/// The recorder after its play button.
pub open spec fn play_toggled(r: ReportRecorder) -> ReportRecorder {
    if r.playing {
        ReportRecorder { playing: false, ..r }
    } else if r.buffer@.len() == 0 {
        r
    } else {
        ReportRecorder { playing: true, play_pos: 0, ..r }
    }
}

/// The sample that playback gives next.
pub open spec fn playback_sample(r: ReportRecorder) -> Option<u32> {
    if r.playing && r.play_pos < r.buffer@.len() {
        Some(r.buffer@[r.play_pos as int])
    } else {
        None
    }
}

/// The recorder after its next sample was asked for.
pub open spec fn after_playback(r: ReportRecorder) -> ReportRecorder {
    if !r.playing {
        r
    } else {
        ReportRecorder {
            play_pos: (r.play_pos + 1) as usize,
            playing: r.play_pos < r.buffer@.len(),
            ..r
        }
    }
}

/// The recorder after `n` samples were asked for.
pub open spec fn after_samples(r: ReportRecorder, n: nat) -> ReportRecorder
    decreases n,
{
    if n == 0 {
        r
    } else {
        after_playback(after_samples(r, (n - 1) as nat))
    }
}

impl ReportRecorder {
    pub open spec fn wf(self) -> bool {
        &&& self.buffer@.len() <= MAX_SAMPLES
        &&& self.recording ==> self.buffer@.len() < MAX_SAMPLES
        &&& self.play_pos <= MAX_SAMPLES + 1
        &&& self.playing ==> self.play_pos <= MAX_SAMPLES
    }

    pub fn new() -> (r: Self)
        ensures
            r.wf(),
            !r.recording,
            !r.playing,
            r.buffer@ == Seq::<u32>::empty(),
            r.play_pos == 0,
            r.started_at == 0,
    {
        ReportRecorder {
            recording: false,
            playing: false,
            buffer: Vec::new(),
            play_pos: 0,
            started_at: 0,
        }
    }

    pub fn is_recording(&self) -> (b: bool)
        ensures
            b == self.recording,
    {
        self.recording
    }

    pub fn is_playing(&self) -> (b: bool)
        ensures
            b == self.playing,
    {
        self.playing
    }

    pub fn has_recording(&self) -> (b: bool)
        ensures
            b <==> self.buffer@.len() > 0,
    {
        self.buffer.len() > 0
    }

    /// Starts a new recording, which ends any playback and drops what was
    /// recorded before; while one is running, ends it early.
    pub fn toggle_record(&mut self, now: u64)
        requires
            old(self).wf(),
        ensures
            final(self).wf(),
            final(self).recording == !old(self).recording,
            old(self).recording ==> *final(self) == (ReportRecorder {
                recording: false,
                ..*old(self)
            }),
            !old(self).recording ==> {
                &&& !final(self).playing
                &&& final(self).buffer@ == Seq::<u32>::empty()
                &&& final(self).started_at == now
                &&& final(self).play_pos == old(self).play_pos
            },
    {
        if self.recording {
            self.recording = false;
            return;
        }
        self.playing = false;
        self.buffer.clear();
        self.started_at = now;
        self.recording = true;
    }

    /// Records one sample, where a recording is running; a full recording
    /// ends by itself.
    pub fn write_frame(&mut self, mono: u32)
        requires
            old(self).wf(),
        ensures
            final(self).wf(),
            (final(self).buffer@, final(self).recording) == frame_written(
                old(self).buffer@,
                old(self).recording,
                mono,
            ),
            final(self).playing == old(self).playing,
            final(self).play_pos == old(self).play_pos,
            final(self).started_at == old(self).started_at,
    {
        if !self.recording {
            return;
        }
        self.buffer.push(mono);
        if self.buffer.len() >= MAX_SAMPLES {
            self.recording = false;
        }
    }

    /// Starts playback from the beginning, where there is a recording;
    /// while playback is running, ends it early.
    pub fn toggle_play(&mut self)
        requires
            old(self).wf(),
        ensures
            final(self).wf(),
            *final(self) == play_toggled(*old(self)),
    {
        if self.playing {
            self.playing = false;
            return;
        }
        if self.buffer.len() == 0 {
            return;
        }
        self.play_pos = 0;
        self.playing = true;
    }

    /// The next sample of the playback, which ends by itself behind the
    /// last one.
    pub fn next_sample(&mut self) -> (s: Option<u32>)
        requires
            old(self).wf(),
        ensures
            final(self).wf(),
            s == playback_sample(*old(self)),
            *final(self) == after_playback(*old(self)),
    {
        if !self.playing {
            return None;
        }
        let pos: usize = self.play_pos;
        self.play_pos = pos + 1;
        if pos >= self.buffer.len() {
            self.playing = false;
            return None;
        }
        Some(self.buffer[pos])
    }

    /// Nanoseconds recorded so far, while a recording is running, up to a
    /// full one.
    pub fn record_progress(&self, now: u64) -> (p: Option<u64>)
        ensures
            p == (if !self.recording {
                None
            } else if now < self.started_at {
                Some(0)
            } else if now - self.started_at < MAX_NS {
                Some((now - self.started_at) as u64)
            } else {
                Some(MAX_NS)
            }),
    {
        if !self.recording {
            return None;
        }
        if now < self.started_at {
            return Some(0);
        }
        let elapsed: u64 = now - self.started_at;
        if elapsed < MAX_NS {
            Some(elapsed)
        } else {
            Some(MAX_NS)
        }
    }

    /// Samples played and samples recorded, while a playback is running.
    pub fn play_progress(&self) -> (p: Option<(usize, usize)>)
        ensures
            p == (if !self.playing || self.buffer@.len() == 0 {
                None
            } else if self.play_pos < self.buffer@.len() {
                Some((self.play_pos, self.buffer@.len() as usize))
            } else {
                Some((self.buffer@.len() as usize, self.buffer@.len() as usize))
            }),
    {
        if !self.playing {
            return None;
        }
        let total: usize = self.buffer.len();
        if total == 0 {
            return None;
        }
        if self.play_pos < total {
            Some((self.play_pos, total))
        } else {
            Some((total, total))
        }
    }
}

impl Default for ReportRecorder {
    fn default() -> (r: Self)
        ensures
            r.wf(),
            !r.recording,
            !r.playing,
            r.buffer@ == Seq::<u32>::empty(),
            r.play_pos == 0,
            r.started_at == 0,
    {
        ReportRecorder::new()
    }
}

/// A new recording holds the samples that came in since it began, up to a
/// full one, and goes on until then.
pub proof fn law_recording_holds_first_samples(frames: Seq<u32>)
    ensures
        frames_written(Seq::empty(), true, frames) == (
            if frames.len() < MAX_SAMPLES {
                frames
            } else {
                frames.take(MAX_SAMPLES as int)
            },
            frames.len() < MAX_SAMPLES,
        ),
    decreases frames.len(),
{
    if frames.len() > 0 {
        let init = frames.drop_last();
        law_recording_holds_first_samples(init);
        assert(init.push(frames.last()) =~= frames);
        if frames.len() == MAX_SAMPLES {
            assert(frames.take(MAX_SAMPLES as int) =~= frames);
        } else if frames.len() > MAX_SAMPLES {
            assert(frames.take(MAX_SAMPLES as int) =~= init.take(MAX_SAMPLES as int));
        }
    } else {
        assert(frames =~= Seq::empty());
    }
}

/// Playback gives the recording back, sample by sample and in order, and
/// ends behind its last sample; the recording stays.
pub proof fn law_playback_returns_recording(r: ReportRecorder, n: nat)
    requires
        r.wf(),
        !r.playing,
        0 < r.buffer@.len(),
        n <= r.buffer@.len(),
    ensures
        ({
            let later = after_samples(play_toggled(r), n);
            &&& later.buffer@ == r.buffer@
            &&& later.playing
            &&& playback_sample(later) == (if n < r.buffer@.len() {
                Some(r.buffer@[n as int])
            } else {
                None
            })
            &&& n == r.buffer@.len() ==> !after_playback(later).playing && after_playback(
                later,
            ).buffer@ == r.buffer@
        }),
{
    lemma_after_samples(r, n);
}

proof fn lemma_after_samples(r: ReportRecorder, n: nat)
    requires
        r.wf(),
        !r.playing,
        0 < r.buffer@.len(),
        n <= r.buffer@.len(),
    ensures
        after_samples(play_toggled(r), n) == (ReportRecorder {
            playing: true,
            play_pos: n as usize,
            ..r
        }),
    decreases n,
{
    if n > 0 {
        lemma_after_samples(r, (n - 1) as nat);
    }
}

/// The play button ends playback; where there is something recorded it
/// starts it from the beginning, and else it does nothing. It never changes
/// what is recorded.
pub proof fn law_play_button(r: ReportRecorder)
    ensures
        ({
            let after = play_toggled(r);
            &&& after.playing <==> !r.playing && r.buffer@.len() > 0
            &&& after.playing ==> after.play_pos == 0
            &&& after.buffer@ == r.buffer@ && after.recording == r.recording && after.started_at
                == r.started_at
        }),
{
}

/// Playback gives each sample once, in order, and ends behind the last one.
pub proof fn law_playback_step(r: ReportRecorder)
    requires
        r.wf(),
        r.playing,
    ensures
        r.play_pos < r.buffer@.len() ==> playback_sample(r) == Some(r.buffer@[r.play_pos as int])
            && after_playback(r).playing,
        r.play_pos >= r.buffer@.len() ==> playback_sample(r) is None && !after_playback(r).playing,
        after_playback(r).play_pos == r.play_pos + 1,
        after_playback(r).buffer@ == r.buffer@,
{
}

/// A recording lasts a minute at 48 kHz.
pub proof fn law_recording_limit()
    ensures
        MAX_SAMPLES == 60 * 48_000,
        MAX_NS == 60 * 1_000_000_000,
{
}

} // verus!
