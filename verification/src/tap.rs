//! Ring buffers that keep the most recent audio samples of each output
//! channel, so that the user interface can draw the waveform.
//!
//! Samples are stored by their bit pattern (`f32::to_bits`); the conversion
//! to and from floating point happens at the edge of the program.

use vstd::prelude::*;

verus! {

/// Number of samples that each channel keeps.
pub const DISPLAY_BUFFER_SIZE: usize = 2048;

/// Number of channels that a `TapOutput` records.
pub const TAP_CHANNELS: usize = 2;

/// Bit pattern of the sample `0.0`.
pub const SILENCE_BITS: u32 = 0;

/// A channel's history as first created: every slot holds silence.
pub open spec fn silent_history() -> Seq<u32> {
    Seq::new(DISPLAY_BUFFER_SIZE as nat, |i: int| SILENCE_BITS)
}

/// The history after one more sample: the oldest sample falls out and the
/// new one becomes the newest.
pub open spec fn history_after_write(h: Seq<u32>, sample: u32) -> Seq<u32> {
    h.drop_first().push(sample)
}

/// The history after writing the samples of `w` in order.
pub open spec fn history_after_writes(h: Seq<u32>, w: Seq<u32>) -> Seq<u32>
    decreases w.len(),
{
    if w.len() == 0 {
        h
    } else {
        history_after_write(history_after_writes(h, w.drop_last()), w.last())
    }
}

/// One channel of recorded samples: a ring buffer of `DISPLAY_BUFFER_SIZE`
/// slots and the position of the next write.
pub struct TapOutputChannel {
    contents: Vec<u32>,
    write_ptr: usize,
}

impl TapOutputChannel {
    /// The ring buffer has its full size and the write position lies in it.
    pub closed spec fn wf(self) -> bool {
        &&& self.contents.len() == DISPLAY_BUFFER_SIZE
        &&& self.write_ptr < DISPLAY_BUFFER_SIZE
    }

    /// The `i`-th sample of the channel counted from the oldest: the slot at
    /// the write position holds the oldest sample, the one just before it the
    /// newest.
    pub closed spec fn sample_at(self, i: int) -> u32 {
        self.contents@[(self.write_ptr + i) % (DISPLAY_BUFFER_SIZE as int)]
    }

    /// The slot that the next write fills.
    pub closed spec fn write_position(self) -> int {
        self.write_ptr as int
    }

    /// The samples of the channel, oldest first.
    pub open spec fn history(self) -> Seq<u32> {
        Seq::new(DISPLAY_BUFFER_SIZE as nat, |i: int| self.sample_at(i))
    }

    /// Creates a channel whose slots all hold silence.
    pub fn new() -> (res: Self)
        ensures
            res.wf(),
            res@ == silent_history(),
            res.write_position() == 0,
    {
        let mut contents: Vec<u32> = Vec::new();
        let mut i: usize = 0;
        while i < DISPLAY_BUFFER_SIZE
            invariant
                i <= DISPLAY_BUFFER_SIZE,
                contents@.len() == i,
                forall|j: int| 0 <= j < i ==> contents@[j] == SILENCE_BITS,
            decreases DISPLAY_BUFFER_SIZE - i,
        {
            contents.push(SILENCE_BITS);
            i = i + 1;
        }
        let res = TapOutputChannel { contents, write_ptr: 0 };
        assert(res.history() =~= silent_history());
        res
    }

    /// Records one sample, overwriting the oldest one.
    pub fn write(&mut self, sample: u32)
        requires
            old(self).wf(),
        ensures
            final(self).wf(),
            final(self)@ == history_after_write(old(self)@, sample),
            final(self).write_position() == next_channel(
                old(self).write_position(),
                DISPLAY_BUFFER_SIZE as int,
            ),
            0 <= final(self).write_position() < DISPLAY_BUFFER_SIZE,
    {
        let ghost old_contents = self.contents@;
        let ghost old_ptr = self.write_ptr;
        let dest = self.write_ptr;
        self.contents.set(dest, sample);
        self.write_ptr = (dest + 1) % DISPLAY_BUFFER_SIZE;
        proof {
            let n = DISPLAY_BUFFER_SIZE as int;
            let h0 = Seq::new(n as nat, |i: int| old_contents[(old_ptr + i) % n]);
            let h1 = history_after_write(h0, sample);
            assert forall|i: int| 0 <= i < n implies #[trigger] self.history()[i] == h1[i] by {
                if i < n - 1 {
                    assert((self.write_ptr + i) % n == (old_ptr + i + 1) % n);
                    assert((old_ptr + i + 1) % n != old_ptr);
                } else {
                    assert((self.write_ptr + i) % n == old_ptr);
                }
            }
            assert(self.history() =~= h1);
        }
    }

    /// The recorded samples in order, oldest first: starting at the write
    /// position (the next slot to be overwritten) and wrapping around to the
    /// newest sample just before it.
    pub fn read_in_order(&self) -> (res: Vec<u32>)
        requires
            self.wf(),
        ensures
            res@ == self@,
    {
        let mut output: Vec<u32> = Vec::new();
        let start = self.write_ptr;
        let mut i: usize = 0;
        while i < DISPLAY_BUFFER_SIZE
            invariant
                i <= DISPLAY_BUFFER_SIZE,
                start == self.write_ptr,
                self.contents.len() == DISPLAY_BUFFER_SIZE,
                self.write_ptr < DISPLAY_BUFFER_SIZE,
                output@.len() == i,
                forall|j: int| 0 <= j < i ==> output@[j] == self.history()[j],
            decreases DISPLAY_BUFFER_SIZE - i,
        {
            let idx = (start + i) % DISPLAY_BUFFER_SIZE;
            output.push(self.contents[idx]);
            i = i + 1;
        }
        assert(output@ =~= self.history());
        output
    }
}

impl View for TapOutputChannel {
    type V = Seq<u32>;

    open spec fn view(&self) -> Seq<u32> {
        self.history()
    }
}

/// The histories of all channels after `sample` is written to `channel`:
/// a channel past the last one leaves every history as it was.
pub open spec fn output_after_write(v: Seq<Seq<u32>>, sample: u32, channel: int) -> Seq<Seq<u32>> {
    if 0 <= channel < v.len() {
        v.update(channel, history_after_write(v[channel], sample))
    } else {
        v
    }
}

/// The samples of every channel that the audio thread taps.
pub struct TapOutput {
    first: TapOutputChannel,
    second: TapOutputChannel,
}

impl TapOutput {
    /// The channel that records channel 0 of a stream.
    pub closed spec fn first_channel(self) -> TapOutputChannel {
        self.first
    }

    /// The channel that records channel 1 of a stream.
    pub closed spec fn second_channel(self) -> TapOutputChannel {
        self.second
    }

    /// Both channels are well formed.
    pub closed spec fn wf(self) -> bool {
        self.first.wf() && self.second.wf()
    }

    /// Creates the channels, all silent.
    pub fn new() -> (res: Self)
        ensures
            res.wf(),
            res@ == seq![silent_history(), silent_history()],
            res.first_channel().write_position() == 0,
            res.second_channel().write_position() == 0,
    {
        let res = TapOutput { first: TapOutputChannel::new(), second: TapOutputChannel::new() };
        assert(res@ =~= seq![silent_history(), silent_history()]);
        res
    }

    /// Records `sample` on `channel`. A channel number beyond the number of
    /// channels is ignored; the number of channels itself is not a channel
    /// (the check against it lets it through to the indexing).
    pub fn write(&mut self, sample: u32, channel: usize)
        requires
            old(self).wf(),
            channel != TAP_CHANNELS,
        ensures
            final(self).wf(),
            final(self)@ == output_after_write(old(self)@, sample, channel as int),
            channel == 0 ==> final(self).first_channel().write_position() == next_channel(
                old(self).first_channel().write_position(),
                DISPLAY_BUFFER_SIZE as int,
            ) && final(self).second_channel() == old(self).second_channel(),
            channel == 1 ==> final(self).second_channel().write_position() == next_channel(
                old(self).second_channel().write_position(),
                DISPLAY_BUFFER_SIZE as int,
            ) && final(self).first_channel() == old(self).first_channel(),
            channel > TAP_CHANNELS ==> *final(self) == *old(self),
    {
        if channel > TAP_CHANNELS {
            return ;
        }
        if channel == 0 {
            self.first.write(sample);
        } else {
            self.second.write(sample);
        }
        assert(self@ =~= output_after_write(old(self)@, sample, channel as int));
    }

    /// Every channel's samples, as `TapOutputChannel::read_in_order` gives them.
    pub fn read_in_order(&self) -> (res: [Vec<u32>; 2])
        requires
            self.wf(),
        ensures
            res[0]@ == self@[0],
            res[1]@ == self@[1],
    {
        [self.first.read_in_order(), self.second.read_in_order()]
    }
}

impl View for TapOutput {
    type V = Seq<Seq<u32>>;

    open spec fn view(&self) -> Seq<Seq<u32>> {
        seq![self.first_channel()@, self.second_channel()@]
    }
}

/// The channel that a tap records next, after one more sample of a stream
/// with `channels` interleaved channels.
pub open spec fn next_channel(cur: int, channels: int) -> int {
    (cur + 1) % channels
}

/// The channel that a tap records after `k` more samples.
pub open spec fn channel_after_samples(cur: int, channels: int, k: nat) -> int
    decreases k,
{
    if k == 0 {
        cur
    } else {
        next_channel(channel_after_samples(cur, channels, (k - 1) as nat), channels)
    }
}

/// A sample source wrapped so that every sample that passes through it is
/// recorded, the samples of interleaved channels going to their channels in
/// turn.
pub struct Tap<S> {
    inner: S,
    cur_channel: usize,
}

impl<S> Tap<S> {
    /// The channel position fits the channel count of any stream.
    pub closed spec fn wf(self) -> bool {
        self.cur_channel <= u16::MAX
    }

    /// The channel that the next sample is recorded on.
    pub closed spec fn current_channel(self) -> int {
        self.cur_channel as int
    }

    /// The wrapped source.
    pub closed spec fn source(self) -> S {
        self.inner
    }

    /// Wraps `inner`; its first sample goes to the first channel.
    pub fn new(inner: S) -> (res: Self)
        ensures
            res.wf(),
            res.current_channel() == 0,
            res.source() == inner,
    {
        Tap { inner, cur_channel: 0 }
    }

    /// The wrapped source.
    pub fn inner(&self) -> (res: &S)
        ensures
            *res == self.source(),
    {
        &self.inner
    }

    /// The channel that the next sample is recorded on.
    pub fn cur_channel(&self) -> (res: usize)
        ensures
            res == self.current_channel(),
    {
        self.cur_channel
    }

    /// The wrapped source, to draw its next sample and its channel count.
    pub fn inner_mut(&mut self) -> (res: &mut S)
        ensures
            *res == old(self).source(),
            final(self).source() == *final(res),
            final(self).current_channel() == old(self).current_channel(),
            final(self).wf() == old(self).wf(),
    {
        &mut self.inner
    }

    /// Passes on the sample that the wrapped source produced. A sample is
    /// recorded on the current channel of `output`, and the following sample
    /// goes to the next of the stream's `channels` channels; the end of the
    /// stream (`None`) records nothing.
    pub fn next(&mut self, sample: Option<u32>, channels: u16, output: &mut TapOutput) -> (res: Option<u32>)
        requires
            old(self).wf(),
            old(output).wf(),
            channels > 0,
            sample is Some ==> old(self).current_channel() != TAP_CHANNELS,
        ensures
            final(self).wf(),
            final(output).wf(),
            res == sample,
            final(self).source() == old(self).source(),
            sample is None ==> final(self).current_channel() == old(self).current_channel()
                && final(output)@ == old(output)@,
            sample matches Some(s) ==> final(self).current_channel() == next_channel(
                old(self).current_channel(),
                channels as int,
            ) && final(output)@ == output_after_write(old(output)@, s, old(self).current_channel()),
            sample matches Some(s) ==> (final(output)@, final(self).current_channel()) == tap_run(
                old(output)@,
                old(self).current_channel(),
                channels as int,
                seq![s],
            ),
    {
        let ghost out0 = old(output)@;
        let ghost cur0 = self.cur_channel as int;
        match sample {
            None => None,
            Some(s) => {
                output.write(s, self.cur_channel);
                self.cur_channel = (self.cur_channel + 1) % (channels as usize);
                proof {
                    let one = seq![s];
                    assert(one.drop_last() =~= Seq::<u32>::empty());
                    assert(tap_run(out0, cur0, channels as int, one.drop_last()) == (out0, cur0));
                    assert(one.last() == s);
                }
                Some(s)
            },
        }
    }
}

/// A channel keeps exactly the last `DISPLAY_BUFFER_SIZE` samples of
/// everything it held and was given: after writing `w` to a channel with
/// history `h`, its history is the window of `h + w` that ends at the newest
/// sample.
pub proof fn law_history_keeps_last_samples(h: Seq<u32>, w: Seq<u32>)
    requires
        h.len() == DISPLAY_BUFFER_SIZE,
    ensures
        history_after_writes(h, w) == (h + w).subrange(
            w.len() as int,
            w.len() + DISPLAY_BUFFER_SIZE,
        ),
    decreases w.len(),
{
    if w.len() > 0 {
        let w0 = w.drop_last();
        law_history_keeps_last_samples(h, w0);
        let n = DISPLAY_BUFFER_SIZE as int;
        let prev = (h + w0).subrange(w0.len() as int, w0.len() + n);
        assert(history_after_write(prev, w.last()) =~= (h + w).subrange(w.len() as int, w.len() + n));
    }
}

/// What a read gives back after writes: the newest `DISPLAY_BUFFER_SIZE`
/// samples of what the channel held and was given, in the order they came;
/// in particular the newest sample written is the last one read.
pub proof fn law_read_after_writes(h: Seq<u32>, w: Seq<u32>)
    requires
        h.len() == DISPLAY_BUFFER_SIZE,
    ensures
        history_after_writes(h, w) == (h + w).subrange(w.len() as int, w.len() + DISPLAY_BUFFER_SIZE),
        history_after_writes(h, w).len() == DISPLAY_BUFFER_SIZE,
        w.len() > 0 ==> history_after_writes(h, w)[DISPLAY_BUFFER_SIZE - 1] == w.last(),
        w.len() <= DISPLAY_BUFFER_SIZE ==> history_after_writes(h, w) == h.skip(w.len() as int) + w,
{
    law_history_keeps_last_samples(h, w);
    let n = DISPLAY_BUFFER_SIZE as int;
    if w.len() <= n {
        assert((h + w).subrange(w.len() as int, w.len() + n) =~= h.skip(w.len() as int) + w);
    }
}

/// Recording on one channel leaves every other channel as it was, and keeps
/// the number of channels.
pub proof fn law_write_leaves_other_channels(v: Seq<Seq<u32>>, sample: u32, channel: int, other: int)
    requires
        0 <= other < v.len(),
        other != channel,
    ensures
        output_after_write(v, sample, channel)[other] == v[other],
        output_after_write(v, sample, channel).len() == v.len(),
{
}

/// A tap hands the samples of an interleaved stream to the channels in
/// turn: after `k` samples it records on channel `(c + k) % channels`, so
/// after one sample per channel it is back where it started.
pub proof fn law_tap_cycles_through_channels(cur: int, channels: int, k: nat)
    requires
        channels > 0,
        0 <= cur < channels,
    ensures
        channel_after_samples(cur, channels, k) == (cur + k) % channels,
        channel_after_samples(cur, channels, channels as nat) == cur,
{
    lemma_channel_after_samples(cur, channels, k);
    lemma_channel_after_samples(cur, channels, channels as nat);
    vstd::arithmetic::div_mod::lemma_mod_add_multiples_vanish(cur, channels);
    vstd::arithmetic::div_mod::lemma_small_mod(cur as nat, channels as nat);
}

/// The write position of a channel moves one slot per write and wraps
/// around: after `k` writes from position `p` it is `(p + k) %
/// DISPLAY_BUFFER_SIZE`, so `DISPLAY_BUFFER_SIZE` writes bring it back.
pub proof fn law_write_position_wraps(p: int, k: nat)
    requires
        0 <= p < DISPLAY_BUFFER_SIZE,
    ensures
        channel_after_samples(p, DISPLAY_BUFFER_SIZE as int, k) == (p + k) % (DISPLAY_BUFFER_SIZE as int),
        channel_after_samples(p, DISPLAY_BUFFER_SIZE as int, DISPLAY_BUFFER_SIZE as nat) == p,
{
    law_tap_cycles_through_channels(p, DISPLAY_BUFFER_SIZE as int, k);
}

/// The histories and the tap's channel after the samples `s` pass through a
/// tap that starts on channel `cur` of a stream of `channels` channels,
/// recording into histories `out`.
pub open spec fn tap_run(out: Seq<Seq<u32>>, cur: int, channels: int, s: Seq<u32>) -> (Seq<Seq<u32>>, int)
    decreases s.len(),
{
    if s.len() == 0 {
        (out, cur)
    } else {
        let prev = tap_run(out, cur, channels, s.drop_last());
        (output_after_write(prev.0, s.last(), prev.1), next_channel(prev.1, channels))
    }
}

/// Passing the samples `s` and then `t` through a tap is passing `s`, then
/// passing `t` from where the tap and the histories stand: so a loop of
/// `Tap::next` calls, each one step of `tap_run`, builds `tap_run` of all
/// the samples it passed on.
pub proof fn law_tap_run_appends(out: Seq<Seq<u32>>, cur: int, channels: int, s: Seq<u32>, t: Seq<u32>)
    ensures
        tap_run(out, cur, channels, s + t) == tap_run(
            tap_run(out, cur, channels, s).0,
            tap_run(out, cur, channels, s).1,
            channels,
            t,
        ),
    decreases t.len(),
{
    if t.len() == 0 {
        assert(s + t =~= s);
    } else {
        law_tap_run_appends(out, cur, channels, s, t.drop_last());
        assert((s + t).drop_last() =~= s + t.drop_last());
        assert((s + t).last() == t.last());
    }
}

/// The samples at even positions of `s`, in order.
pub open spec fn even_samples(s: Seq<u32>) -> Seq<u32> {
    Seq::new(((s.len() + 1) / 2) as nat, |i: int| s[2 * i])
}

/// The samples at odd positions of `s`, in order.
pub open spec fn odd_samples(s: Seq<u32>) -> Seq<u32> {
    Seq::new((s.len() / 2) as nat, |i: int| s[2 * i + 1])
}

/// A new tap on a stereo stream splits the interleaved frames by channel:
/// the samples at even positions go, in order, to the first channel, those
/// at odd positions to the second, and the tap ends on the channel of the
/// next sample.
pub proof fn law_stereo_stream_split(out: Seq<Seq<u32>>, s: Seq<u32>)
    requires
        out.len() == TAP_CHANNELS,
    ensures
        tap_run(out, 0, 2, s) == (
            seq![
                history_after_writes(out[0], even_samples(s)),
                history_after_writes(out[1], odd_samples(s)),
            ],
            (s.len() % 2) as int,
        ),
    decreases s.len(),
{
    if s.len() == 0 {
        assert(even_samples(s) =~= Seq::<u32>::empty());
        assert(odd_samples(s) =~= Seq::<u32>::empty());
        assert(seq![out[0], out[1]] =~= out);
    } else {
        let s0 = s.drop_last();
        law_stereo_stream_split(out, s0);
        let a = history_after_writes(out[0], even_samples(s0));
        let b = history_after_writes(out[1], odd_samples(s0));
        if s0.len() % 2 == 0 {
            assert(even_samples(s).drop_last() =~= even_samples(s0));
            assert(even_samples(s).last() == s.last());
            assert(odd_samples(s) =~= odd_samples(s0));
            assert(output_after_write(seq![a, b], s.last(), 0) =~= seq![
                history_after_write(a, s.last()),
                b,
            ]);
        } else {
            assert(odd_samples(s).drop_last() =~= odd_samples(s0));
            assert(odd_samples(s).last() == s.last());
            assert(even_samples(s) =~= even_samples(s0));
            assert(output_after_write(seq![a, b], s.last(), 1) =~= seq![
                a,
                history_after_write(b, s.last()),
            ]);
        }
    }
}

proof fn lemma_channel_after_samples(cur: int, channels: int, k: nat)
    requires
        channels > 0,
        0 <= cur < channels,
    ensures
        channel_after_samples(cur, channels, k) == (cur + k) % channels,
    decreases k,
{
    if k > 0 {
        lemma_channel_after_samples(cur, channels, (k - 1) as nat);
        vstd::arithmetic::div_mod::lemma_add_mod_noop_right(1, cur + k - 1, channels);
    } else {
        vstd::arithmetic::div_mod::lemma_small_mod(cur as nat, channels as nat);
    }
}

} // verus!
