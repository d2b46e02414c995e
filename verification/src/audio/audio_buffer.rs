use std::sync::Arc;

use vstd::prelude::*;

use crate::audio::StreamParameters;
use crate::audio_analyzer::spectrogram::keep_last;

verus! {

/// The samples of interleaved `data` that belong to channel `channel` of
/// `channels`: those at the positions `k` with `k % channels == channel`,
/// in their order.
pub open spec fn channel_samples<S>(data: Seq<S>, channels: nat, channel: nat) -> Seq<S>
    decreases data.len(),
{
    if data.len() == 0 {
        Seq::empty()
    } else {
        let earlier = channel_samples(data.drop_last(), channels, channel);
        if (data.len() - 1) as nat % channels == channel {
            earlier.push(data.last())
        } else {
            earlier
        }
    }
}

/// The value of every `Vec` of `v`.
pub open spec fn views<S>(v: Seq<Vec<S>>) -> Seq<Seq<S>> {
    v.map_values(|x: Vec<S>| x@)
}

/// Every channel buffer of `buffers` after the interleaved `data` was
/// appended and each was cut back to its last `capacity` samples.
pub open spec fn stored<S>(buffers: Seq<Seq<S>>, data: Seq<S>, capacity: nat) -> Seq<Seq<S>> {
    Seq::new(
        buffers.len(),
        |c: int| keep_last(buffers[c] + channel_samples(data, buffers.len(), c as nat), capacity),
    )
}

/// The samples `start .. start + len` of every channel buffer.
pub open spec fn window<S>(buffers: Seq<Seq<S>>, start: int, len: int) -> Seq<Seq<S>> {
    Seq::new(buffers.len(), |c: int| buffers[c].subrange(start, start + len))
}

/// Where a read of `total` samples, of which the last `new_samples` are
/// unread, starts in a buffer of `capacity` samples that holds
/// `new_count` unread samples at its end.
pub open spec fn read_start(capacity: nat, new_count: nat, new_samples: nat, total: nat) -> int {
    capacity - new_count + new_samples - total
}

/// For every channel of a stream, the last `buffer_duration_in_samples`
/// samples received, and how many of them have not been read yet.
pub struct AudioBuffer<S> {
    channels: u16,
    buffer_duration_in_samples: usize,
    channels_buffers: Vec<Vec<S>>,
    new_samples_count: usize,
}

impl<S: Copy> AudioBuffer<S> {
    /// Number of channels.
    pub closed spec fn channel_count(&self) -> nat {
        self.channels as nat
    }

    /// Samples kept per channel.
    pub closed spec fn capacity(&self) -> nat {
        self.buffer_duration_in_samples as nat
    }

    /// The samples of every channel, oldest first.
    pub closed spec fn buffers(&self) -> Seq<Seq<S>> {
        views(self.channels_buffers@)
    }

    /// How many of the newest samples of every channel have not been read.
    pub closed spec fn new_count(&self) -> nat {
        self.new_samples_count as nat
    }

    /// One buffer per channel, each full, and no more unread samples than
    /// a buffer holds.
    pub closed spec fn wf(&self) -> bool {
        &&& self.channels_buffers@.len() == self.channels
        &&& forall|c: int|
            0 <= c < self.channels_buffers@.len() ==> (#[trigger] self.channels_buffers@[c])@.len()
                == self.buffer_duration_in_samples
        &&& self.new_samples_count <= self.buffer_duration_in_samples
    }

    /// Well-formedness in terms of the views: one full buffer per channel
    /// and no more unread samples than a buffer holds.
    pub proof fn lemma_wf(&self)
        requires
            self.wf(),
        ensures
            self.buffers().len() == self.channel_count(),
            forall|c: int|
                0 <= c < self.channel_count() ==> (#[trigger] self.buffers()[c]).len()
                    == self.capacity(),
            self.new_count() <= self.capacity(),
    {
    }

    /// A buffer of `buffer_duration_in_samples` samples of `silence` for
    /// each channel of the stream, none of them unread.
    pub fn new(
        stream_parameters: Arc<StreamParameters>,
        buffer_duration_in_samples: usize,
        silence: S,
    ) -> (ab: AudioBuffer<S>)
        ensures
            ab.wf(),
            ab.channel_count() == stream_parameters.channels,
            ab.capacity() == buffer_duration_in_samples,
            ab.new_count() == 0,
            ab.buffers() == Seq::new(
                stream_parameters.channels as nat,
                |c: int| Seq::new(buffer_duration_in_samples as nat, |i: int| silence),
            ),
    {
        let channels = stream_parameters.channels;
        let mut empty_channels_buffers: Vec<Vec<S>> = Vec::with_capacity(channels as usize);
        let mut c: u16 = 0;
        while c < channels
            invariant
                c <= channels,
                empty_channels_buffers@.len() == c,
                forall|k: int|
                    0 <= k < c ==> (#[trigger] empty_channels_buffers@[k])@ == Seq::new(
                        buffer_duration_in_samples as nat,
                        |i: int| silence,
                    ),
            decreases channels - c,
        {
            let mut buffer: Vec<S> = Vec::with_capacity(buffer_duration_in_samples);
            let mut i: usize = 0;
            while i < buffer_duration_in_samples
                invariant
                    i <= buffer_duration_in_samples,
                    buffer@ == Seq::new(i as nat, |k: int| silence),
                decreases buffer_duration_in_samples - i,
            {
                buffer.push(silence);
                i = i + 1;
            }
            empty_channels_buffers.push(buffer);
            c = c + 1;
        }
        let ab = AudioBuffer {
            channels,
            buffer_duration_in_samples,
            channels_buffers: empty_channels_buffers,
            new_samples_count: 0,
        };
        assert(ab.buffers() =~= Seq::new(
            channels as nat,
            |c: int| Seq::new(buffer_duration_in_samples as nat, |i: int| silence),
        ));
        ab
    }

    /// Appends the interleaved `data` and keeps the last
    /// `buffer_duration_in_samples` samples of every channel. The number of
    /// unread samples grows by the whole frames in `data`, up to what a
    /// buffer holds.
    pub fn store(&mut self, data: Vec<S>)
        requires
            old(self).wf(),
            old(self).channel_count() > 0,
            old(self).new_count() + data@.len() / old(self).channel_count() <= usize::MAX,
        ensures
            final(self).wf(),
            final(self).channel_count() == old(self).channel_count(),
            final(self).capacity() == old(self).capacity(),
            final(self).buffers() == stored(old(self).buffers(), data@, old(self).capacity()),
            final(self).new_count() == if old(self).new_count() + data@.len()
                / old(self).channel_count() > old(self).capacity() {
                old(self).capacity()
            } else {
                old(self).new_count() + data@.len() / old(self).channel_count()
            },
    {
        let ghost old_buffers = self.buffers();
        let ghost data_view = data@;
        let new_samples = self.distribute_into_channels(data);
        self.trim_buffers();
        self.new_samples_count = self.new_samples_count + new_samples;
        if self.new_samples_count > self.buffer_duration_in_samples {
            self.new_samples_count = self.buffer_duration_in_samples;
        }
        assert(self.buffers() =~= stored(old_buffers, data_view, self.capacity()));
    }

    /// Cuts every channel buffer back to its last
    /// `buffer_duration_in_samples` samples.
    fn trim_buffers(&mut self)
        requires
            old(self).channels_buffers@.len() == old(self).channels,
            forall|c: int|
                0 <= c < old(self).channels_buffers@.len() ==> (#[trigger] old(self).channels_buffers@[c])@.len() >= old(self).buffer_duration_in_samples,
        ensures
            final(self).channels == old(self).channels,
            final(self).buffer_duration_in_samples == old(self).buffer_duration_in_samples,
            final(self).new_samples_count == old(self).new_samples_count,
            final(self).channels_buffers@.len() == old(self).channels_buffers@.len(),
            forall|c: int|
                0 <= c < final(self).channels_buffers@.len() ==> {
                    &&& (#[trigger] final(self).channels_buffers@[c])@ == keep_last(
                        old(self).channels_buffers@[c]@,
                        old(self).buffer_duration_in_samples as nat,
                    )
                    &&& final(self).channels_buffers@[c]@.len()
                        == old(self).buffer_duration_in_samples
                },
    {
        let ghost orig = self.channels_buffers@;
        let n = self.channels_buffers.len();
        let cap = self.buffer_duration_in_samples;
        let mut channel: usize = 0;
        while channel < n
            invariant
                channel <= n,
                n == orig.len(),
                cap == self.buffer_duration_in_samples,
                self.channels == old(self).channels,
                self.buffer_duration_in_samples == old(self).buffer_duration_in_samples,
                self.new_samples_count == old(self).new_samples_count,
                self.channels_buffers@.len() == n,
                forall|c: int| 0 <= c < n ==> (#[trigger] orig[c])@.len() >= cap,
                forall|c: int|
                    channel <= c < n ==> #[trigger] self.channels_buffers@[c] == orig[c],
                forall|c: int|
                    0 <= c < channel ==> {
                        &&& (#[trigger] self.channels_buffers@[c])@ == keep_last(
                            orig[c]@,
                            cap as nat,
                        )
                        &&& self.channels_buffers@[c]@.len() == cap
                    },
            decreases n - channel,
        {
            let ghost before = self.channels_buffers@;
            assert(before[channel as int] == orig[channel as int]);
            let buffer = &mut self.channels_buffers[channel];
            if buffer.len() > cap {
                let oversize = buffer.len() - cap;
                let tail = buffer.split_off(oversize);
                *buffer = tail;
            }
            assert(buffer@ =~= keep_last(orig[channel as int]@, cap as nat));
            assert(self.channels_buffers@ == before.update(channel as int, *buffer));
            channel = channel + 1;
        }
    }

    /// Appends sample `k` of the interleaved `data` to channel
    /// `k % channels`; returns the number of whole frames in `data`.
    fn distribute_into_channels(&mut self, data: Vec<S>) -> (new_samples_per_channel: usize)
        requires
            old(self).channels_buffers@.len() == old(self).channels,
            old(self).channels > 0,
        ensures
            new_samples_per_channel == data@.len() / (old(self).channels as nat),
            final(self).channels == old(self).channels,
            final(self).buffer_duration_in_samples == old(self).buffer_duration_in_samples,
            final(self).new_samples_count == old(self).new_samples_count,
            final(self).channels_buffers@.len() == old(self).channels_buffers@.len(),
            forall|c: int|
                0 <= c < final(self).channels_buffers@.len() ==> (#[trigger] final(self).channels_buffers@[c])@ == old(self).channels_buffers@[c]@ + channel_samples(
                    data@,
                    old(self).channels as nat,
                    c as nat,
                ),
    {
        let ghost orig = self.channels_buffers@;
        let channels = self.channels as usize;
        let new_samples_per_channel = data.len() / channels;
        let mut k: usize = 0;
        while k < data.len()
            invariant
                k <= data@.len(),
                channels == self.channels,
                channels > 0,
                self.channels == old(self).channels,
                self.buffer_duration_in_samples == old(self).buffer_duration_in_samples,
                self.new_samples_count == old(self).new_samples_count,
                orig.len() == channels,
                self.channels_buffers@.len() == channels,
                forall|c: int|
                    0 <= c < channels ==> (#[trigger] self.channels_buffers@[c])@ == orig[c]@
                        + channel_samples(data@.take(k as int), channels as nat, c as nat),
            decreases data@.len() - k,
        {
            let ghost before = self.channels_buffers@;
            let channel = k % channels;
            let sample = data[k];
            let buffer = &mut self.channels_buffers[channel];
            buffer.push(sample);
            assert(self.channels_buffers@ == before.update(channel as int, *buffer));
            assert(data@.take(k + 1).drop_last() =~= data@.take(k as int));
            assert forall|c: int| 0 <= c < channels implies (#[trigger] self.channels_buffers@[c])@
                == orig[c]@ + channel_samples(data@.take(k + 1), channels as nat, c as nat) by {
                assert(before[c]@ == orig[c]@ + channel_samples(
                    data@.take(k as int),
                    channels as nat,
                    c as nat,
                ));
                if c == channel {
                    assert(self.channels_buffers@[c]@ =~= orig[c]@ + channel_samples(
                        data@.take(k + 1),
                        channels as nat,
                        c as nat,
                    ));
                }
            }
            k = k + 1;
        }
        assert(data@.take(data@.len() as int) =~= data@);
        new_samples_per_channel
    }

    /// Reads `total_sample_count` samples of every channel, of which the
    /// last `new_samples` are the oldest unread ones, and marks those
    /// `new_samples` as read. Fails, changing nothing, when fewer than
    /// `new_samples` samples are unread.
    pub fn read_new_samples(&mut self, new_samples: usize, total_sample_count: usize) -> (res:
        Result<Vec<Vec<S>>, String>)
        requires
            old(self).wf(),
            new_samples <= total_sample_count,
            total_sample_count <= old(self).capacity(),
            old(self).new_count() >= new_samples ==> read_start(
                old(self).capacity(),
                old(self).new_count(),
                new_samples as nat,
                total_sample_count as nat,
            ) >= 0,
        ensures
            final(self).wf(),
            final(self).channel_count() == old(self).channel_count(),
            final(self).capacity() == old(self).capacity(),
            final(self).buffers() == old(self).buffers(),
            match res {
                Ok(samples) => {
                    &&& old(self).new_count() >= new_samples
                    &&& final(self).new_count() == old(self).new_count() - new_samples
                    &&& samples@.len() == old(self).channel_count()
                    &&& forall|c: int|
                        0 <= c < samples@.len() ==> (#[trigger] samples@[c])@.len()
                            == total_sample_count
                    &&& forall|c: int, i: int|
                        0 <= c < samples@.len() && 0 <= i < total_sample_count ==> #[trigger] samples@[c]@[i]
                            == old(self).buffers()[c][old(self).capacity() - old(self).new_count()
                            + new_samples - total_sample_count + i]
                    &&& views(samples@) == window(
                        old(self).buffers(),
                        read_start(
                            old(self).capacity(),
                            old(self).new_count(),
                            new_samples as nat,
                            total_sample_count as nat,
                        ),
                        total_sample_count as int,
                    )
                },
                Err(message) => {
                    &&& old(self).new_count() < new_samples
                    &&& final(self).new_count() == old(self).new_count()
                    &&& message@ == "Not enough new data"@
                },
            },
    {
        if self.new_samples_count < new_samples {
            return Err("Not enough new data".to_owned());
        }
        let start_index = self.buffer_duration_in_samples - (self.new_samples_count - new_samples)
            - total_sample_count;
        let end_index = start_index + total_sample_count;

        let n = self.channels_buffers.len();
        let mut channels_samples: Vec<Vec<S>> = Vec::with_capacity(n);
        let mut channel: usize = 0;
        while channel < n
            invariant
                channel <= n,
                self.wf(),
                n == self.channels_buffers@.len(),
                end_index == start_index + total_sample_count,
                end_index <= self.buffer_duration_in_samples,
                channels_samples@.len() == channel,
                forall|c: int|
                    0 <= c < channel ==> (#[trigger] channels_samples@[c])@
                        == self.channels_buffers@[c]@.subrange(
                        start_index as int,
                        end_index as int,
                    ),
            decreases n - channel,
        {
            let buffer = &self.channels_buffers[channel];
            let samples = copy_range(buffer.as_slice(), start_index, end_index);
            channels_samples.push(samples);
            channel = channel + 1;
        }
        proof {
            self.lemma_wf();
            law_read_window(
                self.buffers(),
                self.capacity(),
                self.new_count(),
                new_samples as nat,
                total_sample_count as nat,
            );
            law_views(channels_samples@);
        }
        self.new_samples_count = self.new_samples_count - new_samples;
        assert(views(channels_samples@) =~= window(
            self.buffers(),
            start_index as int,
            total_sample_count as int,
        ));
        Ok(channels_samples)
    }

    /// Number of channels.
    pub fn get_channels(&self) -> (n: u16)
        ensures
            n == self.channel_count(),
    {
        self.channels
    }

    /// Samples kept per channel.
    pub fn get_capacity(&self) -> (n: usize)
        ensures
            n == self.capacity(),
    {
        self.buffer_duration_in_samples
    }

    pub fn get_new_samples_count(&self) -> (n: usize)
        ensures
            n == self.new_count(),
    {
        self.new_samples_count
    }
}

/// A copy of `s[start..end]`.
pub fn copy_range<S: Copy>(s: &[S], start: usize, end: usize) -> (v: Vec<S>)
    requires
        start <= end <= s@.len(),
    ensures
        v@ == s@.subrange(start as int, end as int),
{
    let mut v: Vec<S> = Vec::with_capacity(end - start);
    let mut i: usize = start;
    while i < end
        invariant
            start <= i <= end,
            end <= s@.len(),
            v@ == s@.subrange(start as int, i as int),
        decreases end - i,
    {
        v.push(s[i]);
        i = i + 1;
        assert(v@ =~= s@.subrange(start as int, i as int));
    }
    v
}

} // verus!

verus! {

/// Number of positions `p < len` with `p % channels == channel`.
pub open spec fn channel_share(len: nat, channels: nat, channel: nat) -> nat {
    len / channels + if len % channels > channel {
        1nat
    } else {
        0nat
    }
}

proof fn lemma_share_step(len: nat, channels: nat, channel: nat)
    requires
        channels > 0,
        channel < channels,
    ensures
        channel_share(len + 1, channels, channel) == channel_share(len, channels, channel) + if len
            % channels == channel {
            1nat
        } else {
            0nat
        },
        len % channels == channel ==> channel_share(len, channels, channel) * channels + channel
            == len,
{
    let q = len / channels;
    let r = len % channels;
    vstd::arithmetic::div_mod::lemma_fundamental_div_mod(len as int, channels as int);
    assert(len == channels * q + r);
    vstd::arithmetic::mul::lemma_mul_is_commutative(channels as int, q as int);
    if r + 1 < channels {
        vstd::arithmetic::div_mod::lemma_fundamental_div_mod_converse(
            (len + 1) as int,
            channels as int,
            q as int,
            (r + 1) as int,
        );
    } else {
        vstd::arithmetic::mul::lemma_mul_is_distributive_add_other_way(
            channels as int,
            q as int,
            1,
        );
        vstd::arithmetic::div_mod::lemma_fundamental_div_mod_converse(
            (len + 1) as int,
            channels as int,
            (q + 1) as int,
            0,
        );
    }
}

/// A position counted by `channel_share` lies below the length.
pub proof fn lemma_share_bound(len: nat, channels: nat, channel: nat, j: int)
    requires
        channels > 0,
        channel < channels,
        0 <= j < channel_share(len, channels, channel),
    ensures
        j * channels + channel < len,
{
    let q = len / channels;
    let r = len % channels;
    vstd::arithmetic::div_mod::lemma_fundamental_div_mod(len as int, channels as int);
    assert(j * channels + channel < len) by (nonlinear_arith)
        requires
            len == channels * q + r,
            0 <= r < channels,
            channel < channels,
            0 <= j,
            r > channel ==> j <= q,
            r <= channel ==> j + 1 <= q,
    ;
}

/// Sample `k` of interleaved data belongs to channel `k % channels`: the
/// samples of channel `channel` are the positions `j * channels + channel`,
/// and there are as many of them as such positions below the data length.
pub proof fn law_channel_samples<S>(data: Seq<S>, channels: nat, channel: nat)
    requires
        channels > 0,
        channel < channels,
    ensures
        channel_samples(data, channels, channel).len() == channel_share(
            data.len(),
            channels,
            channel,
        ),
        forall|j: int|
            #![trigger channel_samples(data, channels, channel)[j]]
            0 <= j < channel_samples(data, channels, channel).len() ==> channel_samples(
                data,
                channels,
                channel,
            )[j] == data[j * channels + channel],
    decreases data.len(),
{
    if data.len() == 0 {
        assert(channel_share(0, channels, channel) == 0) by {
            vstd::arithmetic::div_mod::lemma_div_of0(channels as int);
            vstd::arithmetic::div_mod::lemma_small_mod(0, channels);
        }
        assert(channel_samples(data, channels, channel).len() == 0);
    } else {
        let len = (data.len() - 1) as nat;
        let earlier = data.drop_last();
        law_channel_samples(earlier, channels, channel);
        lemma_share_step(len, channels, channel);
        let cs = channel_samples(data, channels, channel);
        let prev = channel_samples(earlier, channels, channel);
        assert(cs == if len % channels == channel {
            prev.push(data.last())
        } else {
            prev
        });
        assert forall|j: int|
            #![trigger channel_samples(data, channels, channel)[j]]
            0 <= j < cs.len() implies j * channels + channel < data.len() && cs[j] == data[j
                * channels + channel] by {
            if j < prev.len() {
                lemma_share_bound(earlier.len(), channels, channel, j);
                assert(prev[j] == earlier[j * channels + channel]);
                assert(cs[j] == prev[j]);
            } else {
                assert(j == prev.len());
                assert(len % channels == channel);
                assert(j * channels + channel == len);
                assert(cs[j] == data.last());
            }
        }
    }
}

/// A store of `frames` whole frames into a buffer with no unread samples
/// leaves `frames` unread samples, and reading `frames` samples of which
/// `frames` are new gives back, for every channel, exactly the samples of
/// that channel in the stored data.
pub proof fn law_read_after_store<S>(
    buffers: Seq<Seq<S>>,
    capacity: nat,
    data: Seq<S>,
    frames: nat,
)
    requires
        buffers.len() > 0,
        forall|c: int| 0 <= c < buffers.len() ==> (#[trigger] buffers[c]).len() == capacity,
        data.len() == frames * buffers.len(),
        frames <= capacity,
    ensures
        data.len() / buffers.len() == frames,
        window(stored(buffers, data, capacity), read_start(capacity, frames, frames, frames), frames as int)
            == Seq::new(buffers.len(), |c: int| channel_samples(data, buffers.len(), c as nat)),
{
    let ch = buffers.len();
    vstd::arithmetic::div_mod::lemma_div_multiples_vanish(frames as int, ch as int);
    vstd::arithmetic::div_mod::lemma_mod_multiples_basic(frames as int, ch as int);
    vstd::arithmetic::mul::lemma_mul_is_commutative(frames as int, ch as int);
    let lhs = window(stored(buffers, data, capacity), read_start(capacity, frames, frames, frames), frames as int);
    let rhs = Seq::new(ch, |c: int| channel_samples(data, ch, c as nat));
    assert forall|c: int| 0 <= c < ch implies #[trigger] lhs[c] == rhs[c] by {
        law_channel_samples(data, ch, c as nat);
        let cs = channel_samples(data, ch, c as nat);
        assert(cs.len() == frames);
        let joined = buffers[c] + cs;
        assert(keep_last(joined, capacity) == joined.skip(frames as int));
        assert(lhs[c] =~= cs);
    }
    assert(lhs =~= rhs);
}

/// Two reads with no store between them: the second window starts
/// `new_samples` samples after the first.
pub proof fn law_consecutive_windows(
    capacity: nat,
    new_count: nat,
    new_samples: nat,
    total: nat,
)
    requires
        new_count >= new_samples,
    ensures
        read_start(capacity, (new_count - new_samples) as nat, new_samples, total) == read_start(
            capacity,
            new_count,
            new_samples,
            total,
        ) + new_samples,
{
}

/// Channel `channel` gets exactly the positions `j * channels + channel`
/// that lie within the data: such a position is among its samples if and
/// only if it is below the data length.
pub proof fn law_channel_positions<S>(data: Seq<S>, channels: nat, channel: nat, j: int)
    requires
        channels > 0,
        channel < channels,
        0 <= j,
    ensures
        j < channel_samples(data, channels, channel).len() <==> j * channels + channel < data.len(),
{
    law_channel_samples(data, channels, channel);
    let len = data.len();
    let q = len / channels;
    let r = len % channels;
    vstd::arithmetic::div_mod::lemma_fundamental_div_mod(len as int, channels as int);
    if j < channel_samples(data, channels, channel).len() {
        lemma_share_bound(len, channels, channel, j);
    } else if r > channel {
        assert(j * channels + channel >= len) by (nonlinear_arith)
            requires
                len == channels * q + r,
                r < channels,
                j >= q + 1,
        ;
    } else {
        assert(j * channels + channel >= len) by (nonlinear_arith)
            requires
                len == channels * q + r,
                r <= channel,
                j >= q,
        ;
    }
}

/// The value of every vector of `v` is that vector's view, in order.
pub proof fn law_views<S>(v: Seq<Vec<S>>)
    ensures
        views(v).len() == v.len(),
        forall|i: int| 0 <= i < v.len() ==> #[trigger] views(v)[i] == v[i]@,
{
}

/// A read of `total` samples, of which the last `new_samples` are new,
/// from buffers of `capacity` samples that hold `new_count` unread ones,
/// gives every channel the `total` samples that end right after the last
/// of the `new_samples` unread samples it consumes: sample `i` of the
/// window is sample `capacity - new_count + new_samples - total + i` of
/// the buffer.
pub proof fn law_read_window<S>(
    buffers: Seq<Seq<S>>,
    capacity: nat,
    new_count: nat,
    new_samples: nat,
    total: nat,
)
    requires
        forall|c: int| 0 <= c < buffers.len() ==> (#[trigger] buffers[c]).len() == capacity,
        new_samples <= new_count <= capacity,
        total <= capacity - new_count + new_samples,
    ensures
        read_start(capacity, new_count, new_samples, total) + total == capacity - new_count
            + new_samples,
        window(buffers, read_start(capacity, new_count, new_samples, total), total as int).len()
            == buffers.len(),
        forall|c: int|
            0 <= c < buffers.len() ==> (#[trigger] window(
                buffers,
                read_start(capacity, new_count, new_samples, total),
                total as int,
            )[c]).len() == total,
        forall|c: int, i: int|
            0 <= c < buffers.len() && 0 <= i < total ==> #[trigger] window(
                buffers,
                read_start(capacity, new_count, new_samples, total),
                total as int,
            )[c][i] == buffers[c][capacity - new_count + new_samples - total + i],
{
    let start = read_start(capacity, new_count, new_samples, total);
    let w = window(buffers, start, total as int);
    assert forall|c: int, i: int| 0 <= c < buffers.len() && 0 <= i < total implies #[trigger] w[c][i]
        == buffers[c][capacity - new_count + new_samples - total + i] by {
        assert(w[c] == buffers[c].subrange(start, start + total));
    }
}

/// A store keeps, for every channel, the newest `capacity` samples of
/// what the channel held followed by the channel's share of the data:
/// with `k` new samples for the channel, sample `i` of the buffer is the
/// old sample `i + k` while that exists, and after it the new samples in
/// order, sample `j` of the channel being data position
/// `j * channels + channel`.
pub proof fn law_store_keeps_the_newest<S>(buffers: Seq<Seq<S>>, data: Seq<S>, capacity: nat)
    requires
        buffers.len() > 0,
        forall|c: int| 0 <= c < buffers.len() ==> (#[trigger] buffers[c]).len() == capacity,
    ensures
        stored(buffers, data, capacity).len() == buffers.len(),
        forall|c: int|
            0 <= c < buffers.len() ==> (#[trigger] stored(buffers, data, capacity)[c]).len()
                == capacity,
        forall|c: int, i: int|
            #![trigger stored(buffers, data, capacity)[c][i]]
            0 <= c < buffers.len() && 0 <= i < capacity ==> stored(buffers, data, capacity)[c][i]
                == if i + (data.len() / buffers.len() + if data.len() % buffers.len() > c {
                1int
            } else {
                0int
            }) < capacity {
                buffers[c][i + (data.len() / buffers.len() + if data.len() % buffers.len() > c {
                    1int
                } else {
                    0int
                })]
            } else {
                data[(i + (data.len() / buffers.len() + if data.len() % buffers.len() > c {
                    1int
                } else {
                    0int
                }) - capacity) * buffers.len() + c]
            },
{
    let ch = buffers.len();
    let st = stored(buffers, data, capacity);
    assert forall|c: int| 0 <= c < ch implies {
        &&& (#[trigger] st[c]).len() == capacity
        &&& forall|i: int|
            0 <= i < capacity ==> #[trigger] st[c][i] == if i + (data.len() / ch + if data.len() % ch
                > c {
                1int
            } else {
                0int
            }) < capacity {
                buffers[c][i + (data.len() / ch + if data.len() % ch > c {
                    1int
                } else {
                    0int
                })]
            } else {
                data[(i + (data.len() / ch + if data.len() % ch > c {
                    1int
                } else {
                    0int
                }) - capacity) * ch + c]
            }
    } by {
        law_channel_samples(data, ch, c as nat);
        let cs = channel_samples(data, ch, c as nat);
        let k = cs.len();
        assert(k == data.len() / ch + if data.len() % ch > c {
            1int
        } else {
            0int
        });
        let joined = buffers[c] + cs;
        assert(st[c] == keep_last(joined, capacity));
        assert(keep_last(joined, capacity) =~= joined.skip(k as int));
        assert forall|i: int| 0 <= i < capacity implies #[trigger] st[c][i] == if i + k < capacity {
            buffers[c][i + k]
        } else {
            data[(i + k - capacity) * ch + c]
        } by {
            if i + k >= capacity {
                assert(joined[i + k] == cs[i + k - capacity]);
            }
        }
    }
}

} // verus!
