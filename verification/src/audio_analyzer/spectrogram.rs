use std::sync::Arc;

use vstd::prelude::*;

use crate::audio::StreamParameters;
use crate::audio_analyzer::AnalyzerParameters;

verus! {

/// The last `n` elements of `s` (all of `s` when it is shorter).
pub open spec fn keep_last<T>(s: Seq<T>, n: nat) -> Seq<T> {
    if s.len() <= n {
        s
    } else {
        s.skip(s.len() - n)
    }
}

/// A sliding window over a stream of rows: `length` rows of `width` values
/// each, stored row after row, oldest first.
pub struct TimeSeries<T> {
    data: Vec<T>,
    length: usize,
    width: usize,
    total_size: usize,
}

impl<T: Copy> TimeSeries<T> {
    /// The values held, oldest first.
    pub closed spec fn values(&self) -> Seq<T> {
        self.data@
    }

    /// The number of rows held.
    pub closed spec fn rows(&self) -> nat {
        self.length as nat
    }

    /// The number of values in one row.
    pub closed spec fn row_width(&self) -> nat {
        self.width as nat
    }

    /// The series always holds exactly `rows() * row_width()` values.
    pub closed spec fn wf(&self) -> bool {
        &&& self.total_size == self.length * self.width
        &&& self.data@.len() == self.total_size
    }

    /// A well-formed series holds `rows() * row_width()` values, a number
    /// that fits in a `usize`.
    pub proof fn lemma_wf_len(&self)
        requires
            self.wf(),
        ensures
            self.values().len() == self.rows() * self.row_width(),
            self.rows() * self.row_width() <= usize::MAX,
    {
    }

    /// A series of `length` rows of `width` values, all `default_value`.
    pub fn new(length: usize, width: usize, default_value: T) -> (ts: TimeSeries<T>)
        requires
            length * width <= usize::MAX,
        ensures
            ts.wf(),
            ts.rows() == length,
            ts.row_width() == width,
            ts.values() == Seq::new((length * width) as nat, |i: int| default_value),
    {
        let total_size = length * width;
        let mut data: Vec<T> = Vec::with_capacity(total_size);
        let mut i: usize = 0;
        while i < total_size
            invariant
                i <= total_size,
                data@ == Seq::new(i as nat, |k: int| default_value),
            decreases total_size - i,
        {
            data.push(default_value);
            i = i + 1;
        }
        TimeSeries { data, length, width, total_size }
    }

    /// Appends `data` and forgets the oldest values, so that the series
    /// holds exactly its last `rows() * row_width()` values again.
    pub fn push(&mut self, data: Vec<T>)
        requires
            old(self).wf(),
        ensures
            final(self).wf(),
            final(self).rows() == old(self).rows(),
            final(self).row_width() == old(self).row_width(),
            final(self).values() == keep_last(
                old(self).values() + data@,
                old(self).rows() * old(self).row_width(),
            ),
    {
        let mut data = data;
        let ghost joined = self.data@ + data@;
        self.data.append(&mut data);
        assert(self.data@ == joined);
        if self.data.len() >= self.length * self.width {
            let excess = self.data.len() - self.total_size;
            let tail = self.data.split_off(excess);
            self.data = tail;
            assert(self.data@ =~= joined.skip(joined.len() - self.total_size));
        }
    }

    pub fn get_total_len(&self) -> (n: usize)
        requires
            self.wf(),
        ensures
            n == self.rows() * self.row_width(),
    {
        self.total_size
    }

    pub fn get_length(&self) -> (n: usize)
        ensures
            n == self.rows(),
    {
        self.length
    }

    pub fn get_width(&self) -> (n: usize)
        ensures
            n == self.row_width(),
    {
        self.width
    }

    /// The newest row.
    pub fn get_last(&self) -> (row: &[T])
        requires
            self.wf(),
            self.row_width() <= self.values().len(),
        ensures
            row@ == self.values().skip(self.values().len() - self.row_width()),
    {
        let start = self.data.len() - self.width;
        assert(self.data@.subrange(start as int, self.data@.len() as int) =~= self.data@.skip(
            start as int,
        ));
        vstd::slice::slice_subrange(self.data.as_slice(), start, self.data.len())
    }

    /// All values, oldest first.
    pub fn get_data(&self) -> (values: &[T])
        ensures
            values@ == self.values(),
    {
        self.data.as_slice()
    }
}


impl<T: Copy> Clone for TimeSeries<T> {
    /// A copy holding the same values, rows and row width.
    fn clone(&self) -> (res: Self)
        ensures
            res.values() == self.values(),
            res.rows() == self.rows(),
            res.row_width() == self.row_width(),
            res.wf() == self.wf(),
    {
        TimeSeries {
            data: copy_vec(self.data.as_slice()),
            length: self.length,
            width: self.width,
            total_size: self.total_size,
        }
    }
}

/// A copy of `s` as a vector.
pub fn copy_vec<T: Copy>(s: &[T]) -> (v: Vec<T>)
    ensures
        v@ == s@,
{
    let mut v: Vec<T> = Vec::with_capacity(s.len());
    let mut i: usize = 0;
    while i < s.len()
        invariant
            i <= s@.len(),
            v@ == s@.take(i as int),
        decreases s@.len() - i,
    {
        v.push(s[i]);
        i = i + 1;
        assert(v@ =~= s@.take(i as int));
    }
    assert(s@.take(s@.len() as int) =~= s@);
    v
}

/// One value per audio channel.
pub struct MultiChannel<T> {
    pub channels: Vec<T>,
}

impl<T: Clone> MultiChannel<T> {
    /// `channel_count` clones of `default_value`.
    pub fn new(channel_count: usize, default_value: T) -> (mc: MultiChannel<T>)
        ensures
            mc.channels@.len() == channel_count,
            forall|i: int|
                0 <= i < channel_count ==> cloned(default_value, #[trigger] mc.channels@[i]),
    {
        let mut channels: Vec<T> = Vec::with_capacity(channel_count);
        let mut i: usize = 0;
        while i < channel_count
            invariant
                i <= channel_count,
                channels@.len() == i,
                forall|k: int| 0 <= k < i ==> cloned(default_value, #[trigger] channels@[k]),
            decreases channel_count - i,
        {
            channels.push(default_value.clone());
            i = i + 1;
        }
        MultiChannel { channels }
    }

    pub fn len(&self) -> (n: usize)
        ensures
            n == self.channels@.len(),
    {
        self.channels.len()
    }
}

/// The recent spectrums of every channel of a stream: for each channel, a
/// time series of `length_of_history` spectrums of `spectrum_width / 2`
/// magnitudes.
pub struct Spectrogram<M> {
    stream_parameters: Arc<StreamParameters>,
    analyzer_parameters: Arc<AnalyzerParameters>,
    spectrum_history: MultiChannel<TimeSeries<M>>,
}

impl<M: Copy> Spectrogram<M> {
    /// The parameters of the analyzed stream.
    pub closed spec fn stream_parameters(&self) -> StreamParameters {
        *self.stream_parameters
    }

    /// The parameters of the analysis.
    pub closed spec fn analyzer_parameters(&self) -> AnalyzerParameters {
        *self.analyzer_parameters
    }

    /// Number of channels.
    pub closed spec fn channel_count(&self) -> nat {
        self.spectrum_history.channels@.len()
    }

    /// The history of one channel.
    pub closed spec fn history(&self, channel: int) -> TimeSeries<M> {
        self.spectrum_history.channels@[channel]
    }

    /// Spectrums kept per channel.
    pub closed spec fn history_length(&self) -> nat {
        self.analyzer_parameters.length_of_history as nat
    }

    /// Magnitudes per spectrum.
    pub closed spec fn spectrum_len(&self) -> nat {
        (self.analyzer_parameters.spectrum_width / 2) as nat
    }

    /// One history per channel of the stream, each `history_length()` rows of
    /// `spectrum_len()` magnitudes.
    pub closed spec fn wf(&self) -> bool {
        &&& self.channel_count() == self.stream_parameters.channels
        &&& forall|c: int|
            0 <= c < self.channel_count() ==> {
                &&& (#[trigger] self.history(c)).wf()
                &&& self.history(c).rows() == self.history_length()
                &&& self.history(c).row_width() == self.spectrum_len()
            }
    }

    /// Well-formedness in terms of the views: one history per channel of
    /// the stream, each of `history_length()` rows of `spectrum_len()`
    /// magnitudes, which are the parameters' history length and half
    /// their spectrum width.
    pub proof fn lemma_wf(&self)
        requires
            self.wf(),
        ensures
            self.channel_count() == self.stream_parameters().channels,
            self.history_length() == self.analyzer_parameters().length_of_history,
            self.spectrum_len() == self.analyzer_parameters().spectrum_width / 2,
            forall|c: int|
                0 <= c < self.channel_count() ==> {
                    &&& (#[trigger] self.history(c)).wf()
                    &&& self.history(c).rows() == self.history_length()
                    &&& self.history(c).row_width() == self.spectrum_len()
                    &&& self.history(c).values().len() == self.history_length()
                        * self.spectrum_len()
                },
    {
        assert forall|c: int| 0 <= c < self.channel_count() implies (#[trigger] self.history(
            c,
        )).values().len() == self.history_length() * self.spectrum_len() by {
            self.history(c).lemma_wf_len();
        }
    }

    /// An all-`zero` history for every channel of the stream.
    pub fn new(
        analyzer_parameters: Arc<AnalyzerParameters>,
        stream_parameters: Arc<StreamParameters>,
        zero: M,
    ) -> (sg: Spectrogram<M>)
        requires
            analyzer_parameters.length_of_history * (analyzer_parameters.spectrum_width / 2)
                <= usize::MAX,
        ensures
            sg.wf(),
            sg.stream_parameters() == *stream_parameters,
            sg.analyzer_parameters() == *analyzer_parameters,
            sg.channel_count() == stream_parameters.channels,
            sg.history_length() == analyzer_parameters.length_of_history,
            sg.spectrum_len() == analyzer_parameters.spectrum_width / 2,
            forall|c: int|
                0 <= c < sg.channel_count() ==> (#[trigger] sg.history(c)).values() == Seq::new(
                    sg.history_length() * sg.spectrum_len(),
                    |i: int| zero,
                ),
    {
        let channels = stream_parameters.channels as usize;
        let empty = TimeSeries::new(
            analyzer_parameters.length_of_history,
            analyzer_parameters.spectrum_width / 2,
            zero,
        );
        let spectrum_history = MultiChannel::new(channels, empty);
        Spectrogram { stream_parameters, analyzer_parameters, spectrum_history }
    }

    /// Appends one spectrum to the history of every channel.
    pub fn push_spectrums(&mut self, spectrums: Vec<Vec<M>>)
        requires
            old(self).wf(),
            spectrums@.len() == old(self).channel_count(),
        ensures
            final(self).wf(),
            final(self).stream_parameters() == old(self).stream_parameters(),
            final(self).analyzer_parameters() == old(self).analyzer_parameters(),
            final(self).channel_count() == old(self).channel_count(),
            final(self).history_length() == old(self).history_length(),
            final(self).spectrum_len() == old(self).spectrum_len(),
            forall|c: int|
                0 <= c < final(self).channel_count() ==> (#[trigger] final(self).history(
                    c,
                )).values() == keep_last(
                    old(self).history(c).values() + spectrums@[c]@,
                    old(self).history_length() * old(self).spectrum_len(),
                ),
    {
        let ghost old_self = *self;
        let ghost orig = spectrums@;
        let mut spectrums = spectrums;
        let n = spectrums.len();
        let mut i: usize = n;
        while i > 0
            invariant
                i <= n,
                n == old_self.channel_count(),
                orig.len() == n,
                spectrums@ == orig.take(i as int),
                self.stream_parameters == old_self.stream_parameters,
                self.analyzer_parameters == old_self.analyzer_parameters,
                self.channel_count() == old_self.channel_count(),
                old_self.wf(),
                forall|c: int|
                    0 <= c < i ==> #[trigger] self.history(c) == old_self.history(c),
                forall|c: int|
                    i <= c < n ==> {
                        &&& (#[trigger] self.history(c)).wf()
                        &&& self.history(c).rows() == old_self.history_length()
                        &&& self.history(c).row_width() == old_self.spectrum_len()
                        &&& self.history(c).values() == keep_last(
                            old_self.history(c).values() + orig[c]@,
                            old_self.history_length() * old_self.spectrum_len(),
                        )
                    },
            decreases i,
        {
            i = i - 1;
            let data = spectrums.pop().unwrap();
            assert(data == orig[i as int]);
            assert(self.history(i as int) == old_self.history(i as int));
            assert(old_self.history(i as int).wf());
            let ghost pre = *self;
            let ghost before = self.spectrum_history.channels@;
            let elem = &mut self.spectrum_history.channels[i];
            elem.push(data);
            assert(self.spectrum_history.channels@ == before.update(i as int, *elem));
            assert forall|c: int| 0 <= c < n && c != i implies #[trigger] self.history(c)
                == pre.history(c) by {
                assert(self.spectrum_history.channels@[c] == before[c]);
                assert(pre.history(c) == before[c]);
            }
            assert(spectrums@ =~= orig.take(i as int));
        }
    }

    /// The newest spectrum of every channel.
    pub fn get_latest_spectrum(&self) -> (spectrums: Vec<Vec<M>>)
        requires
            self.wf(),
            self.spectrum_len() == 0 || self.history_length() > 0,
        ensures
            spectrums@.len() == self.channel_count(),
            forall|c: int|
                0 <= c < self.channel_count() ==> (#[trigger] spectrums@[c])@.len()
                    == self.spectrum_len(),
            forall|c: int|
                0 <= c < self.channel_count() ==> (#[trigger] spectrums@[c])@ == self.history(
                    c,
                ).values().skip(self.history(c).values().len() - self.spectrum_len()),
    {
        let n = self.spectrum_history.channels.len();
        let mut spectrums: Vec<Vec<M>> = Vec::with_capacity(n);
        let mut i: usize = 0;
        while i < n
            invariant
                i <= n,
                n == self.channel_count(),
                self.wf(),
                self.spectrum_len() == 0 || self.history_length() > 0,
                spectrums@.len() == i,
                forall|c: int| 0 <= c < i ==> (#[trigger] spectrums@[c])@.len() == self.spectrum_len(),
                forall|c: int|
                    0 <= c < i ==> (#[trigger] spectrums@[c])@ == self.history(c).values().skip(
                        self.history(c).values().len() - self.spectrum_len(),
                    ),
            decreases n - i,
        {
            let channel = &self.spectrum_history.channels[i];
            assert(channel == self.history(i as int));
            proof {
                channel.lemma_wf_len();
                if channel.row_width() > 0 {
                    vstd::arithmetic::mul::lemma_mul_increases(
                        channel.rows() as int,
                        channel.row_width() as int,
                    );
                }
            }
            spectrums.push(copy_vec(channel.get_last()));
            i = i + 1;
        }
        spectrums
    }

    /// A copy of the history of `channel`, with its spectrum length and
    /// history length.
    pub fn get_spectrogram_for_channel(&self, channel: usize) -> (res: (TimeSeries<M>, (u32, u32)))
        requires
            self.wf(),
            channel < self.channel_count(),
        ensures
            res.0.wf(),
            res.0.values() == self.history(channel as int).values(),
            res.0.rows() == self.history_length(),
            res.0.row_width() == self.spectrum_len(),
            res.1 == (self.spectrum_len() as u32, self.history_length() as u32),
    {
        let history = &self.spectrum_history.channels[channel];
        assert(history == self.history(channel as int));
        let x_count = history.get_width();
        let y_count = history.get_length();
        (history.clone(), (x_count as u32, y_count as u32))
    }
}


/// Keeping the last `n` values after each push gives the same as keeping
/// the last `n` of everything pushed: a time series always holds the most
/// recent values pushed into it.
pub proof fn law_time_series_is_recent_values<T>(pushed: Seq<T>, data: Seq<T>, n: nat)
    ensures
        keep_last(keep_last(pushed, n) + data, n) == keep_last(pushed + data, n),
{
    let a = keep_last(keep_last(pushed, n) + data, n);
    let b = keep_last(pushed + data, n);
    assert(a =~= b);
}

/// Once a row of `width` values has been pushed into a full series of at
/// least one row, the newest row of the series is that row: what
/// `get_latest_spectrum` gives back is the spectrum last pushed.
pub proof fn law_last_row_is_last_pushed<T>(values: Seq<T>, row: Seq<T>, rows: nat, width: nat)
    requires
        rows >= 1,
        values.len() == rows * width,
        row.len() == width,
    ensures
        ({
            let after = keep_last(values + row, rows * width);
            &&& after.len() == rows * width
            &&& after.skip(after.len() - width) == row
        }),
{
    if width == 0 {
        vstd::arithmetic::mul::lemma_mul_basics(rows as int);
    } else {
        vstd::arithmetic::mul::lemma_mul_increases(rows as int, width as int);
    }
    let after = keep_last(values + row, rows * width);
    assert(after.skip(after.len() - width) =~= row);
}

/// Keeping the last `n` values gives `n` values, or all of them when
/// there are fewer, and they are the newest ones in their order.
pub proof fn law_keep_last<T>(s: Seq<T>, n: nat)
    ensures
        keep_last(s, n).len() == if s.len() <= n {
            s.len()
        } else {
            n
        },
        forall|i: int|
            0 <= i < keep_last(s, n).len() ==> #[trigger] keep_last(s, n)[i] == s[s.len()
                - keep_last(s, n).len() + i],
{
}

} // verus!
