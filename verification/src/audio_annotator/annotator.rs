use std::sync::Arc;

use vstd::prelude::*;

use crate::audio_analyzer::spectrogram::{copy_vec, keep_last};
use crate::audio_analyzer::{AnalyzerParameters, MultiChannel};

verus! {

/// The last values of a stream, at most `duration_length` of them: as many
/// as fit in `duration` when one value stands for `entry_time`. Times are
/// in nanoseconds.
pub struct HistoryBuffer<T> {
    duration: u64,
    entry_time: u64,
    duration_length: usize,
    history: Vec<T>,
}

impl<T: Copy> HistoryBuffer<T> {
    /// The values kept, oldest first.
    pub closed spec fn values(&self) -> Seq<T> {
        self.history@
    }

    /// How many values are kept at most.
    pub closed spec fn max_len(&self) -> nat {
        self.duration_length as nat
    }

    /// The time the history covers, in nanoseconds.
    pub closed spec fn duration(&self) -> u64 {
        self.duration
    }

    /// The time one value stands for, in nanoseconds.
    pub closed spec fn entry_time(&self) -> u64 {
        self.entry_time
    }

    pub closed spec fn wf(&self) -> bool {
        self.history@.len() <= self.duration_length
    }

    /// An empty history of at most `duration_length` values, covering
    /// `duration` nanoseconds with one value per `entry_time`.
    pub fn new(duration: u64, entry_time: u64, duration_length: usize) -> (hb: Self)
        ensures
            hb.wf(),
            hb.values() == Seq::<T>::empty(),
            hb.max_len() == duration_length,
            hb.duration() == duration,
            hb.entry_time() == entry_time,
    {
        HistoryBuffer { duration, entry_time, duration_length, history: Vec::new() }
    }

    /// Appends `value`, dropping the oldest value when more than
    /// `max_len()` would be kept.
    pub fn push(&mut self, value: T)
        requires
            old(self).wf(),
        ensures
            final(self).wf(),
            final(self).max_len() == old(self).max_len(),
            final(self).duration() == old(self).duration(),
            final(self).entry_time() == old(self).entry_time(),
            final(self).values() == keep_last(old(self).values().push(value), old(self).max_len()),
    {
        self.history.push(value);
        if self.history.len() > self.duration_length {
            self.history.remove(0);
            assert(self.history@ =~= old(self).history@.push(value).skip(1));
        }
    }

    /// A copy of the values kept, oldest first.
    pub fn get(&self) -> (values: Vec<T>)
        ensures
            values@ == self.values(),
    {
        copy_vec(self.history.as_slice())
    }

    /// The values kept, oldest first.
    pub fn peek(&self) -> (values: &[T])
        ensures
            values@ == self.values(),
    {
        self.history.as_slice()
    }
}

/// Keeping the last `n` values of a stream after each value gives the
/// same as keeping the last `n` of all values: a history always holds the
/// most recent values pushed into it.
pub proof fn law_history_is_recent_values<T>(pushed: Seq<T>, value: T, n: nat)
    ensures
        keep_last(keep_last(pushed, n).push(value), n) == keep_last(pushed.push(value), n),
{
    let a = keep_last(keep_last(pushed, n).push(value), n);
    let b = keep_last(pushed.push(value), n);
    assert(a =~= b);
}

impl<T: Copy> Clone for HistoryBuffer<T> {
    fn clone(&self) -> (res: Self)
        ensures
            res.values() == self.values(),
            res.max_len() == self.max_len(),
            res.duration() == self.duration(),
            res.entry_time() == self.entry_time(),
            res.wf() == self.wf(),
    {
        HistoryBuffer {
            duration: self.duration,
            entry_time: self.entry_time,
            duration_length: self.duration_length,
            history: copy_vec(self.history.as_slice()),
        }
    }
}

/// The history of the values of one frequency band: the magnitudes of
/// the bins at `indices`, combined into one value per spectrum.
pub struct SpectrumFilter<T> {
    indices: Vec<usize>,
    history: HistoryBuffer<T>,
}

impl<T: Copy> SpectrumFilter<T> {
    /// The bins of the band.
    pub closed spec fn bins(&self) -> Seq<usize> {
        self.indices@
    }

    /// The values recorded for the band.
    pub closed spec fn recorded(&self) -> HistoryBuffer<T> {
        self.history
    }

    /// A filter of the bins `indices` that keeps at most `history_length`
    /// values, covering `duration` nanoseconds with one value per
    /// `spectrum_duration`.
    pub fn new(indices: Vec<usize>, duration: u64, spectrum_duration: u64, history_length: usize) -> (f: Self)
        ensures
            f.bins() == indices@,
            f.recorded().wf(),
            f.recorded().values() == Seq::<T>::empty(),
            f.recorded().max_len() == history_length,
            f.recorded().duration() == duration,
            f.recorded().entry_time() == spectrum_duration,
    {
        SpectrumFilter { indices, history: HistoryBuffer::new(duration, spectrum_duration, history_length) }
    }

    /// The magnitudes of the band's bins in `spectrum`, in bin order.
    pub fn select(&self, spectrum: &[T]) -> (values: Vec<T>)
        requires
            forall|k: int| 0 <= k < self.bins().len() ==> #[trigger] self.bins()[k] < spectrum@.len(),
        ensures
            values@.len() == self.bins().len(),
            forall|k: int|
                0 <= k < self.bins().len() ==> #[trigger] values@[k] == spectrum@[self.bins()[k] as int],
    {
        let mut values: Vec<T> = Vec::with_capacity(self.indices.len());
        let mut k: usize = 0;
        while k < self.indices.len()
            invariant
                k <= self.indices@.len(),
                forall|j: int| 0 <= j < self.bins().len() ==> #[trigger] self.bins()[j] < spectrum@.len(),
                values@.len() == k,
                forall|j: int| 0 <= j < k ==> #[trigger] values@[j] == spectrum@[self.bins()[j] as int],
            decreases self.indices@.len() - k,
        {
            let bin = self.indices[k];
            assert(self.bins()[k as int] == bin);
            values.push(spectrum[bin]);
            k = k + 1;
        }
        values
    }

    /// Records the band's value for one more spectrum.
    pub fn record(&mut self, value: T)
        requires
            old(self).recorded().wf(),
        ensures
            final(self).bins() == old(self).bins(),
            final(self).recorded().wf(),
            final(self).recorded().max_len() == old(self).recorded().max_len(),
            final(self).recorded().duration() == old(self).recorded().duration(),
            final(self).recorded().entry_time() == old(self).recorded().entry_time(),
            final(self).recorded().values() == keep_last(
                old(self).recorded().values().push(value),
                old(self).recorded().max_len(),
            ),
    {
        self.history.push(value);
    }

    /// The values recorded for the band, oldest first.
    pub fn history(&self) -> (h: &HistoryBuffer<T>)
        ensures
            *h == self.recorded(),
    {
        &self.history
    }
}

impl<T: Copy> Clone for SpectrumFilter<T> {
    fn clone(&self) -> (res: Self)
        ensures
            res.bins() == self.bins(),
            res.recorded().values() == self.recorded().values(),
            res.recorded().max_len() == self.recorded().max_len(),
            res.recorded().duration() == self.recorded().duration(),
            res.recorded().entry_time() == self.recorded().entry_time(),
            res.recorded().wf() == self.recorded().wf(),
    {
        SpectrumFilter { indices: copy_vec(self.indices.as_slice()), history: self.history.clone() }
    }
}

/// The bands the spectrum is divided into, as lowest and highest
/// frequency in hertz: sub-bass, bass, low midrange, midrange, upper
/// midrange, treble and upper treble.
pub const FREQUENCY_RANGES: [[usize; 2]; 7] = [
    [0, 60],
    [60, 250],
    [250, 500],
    [500, 2000],
    [2000, 4000],
    [4000, 6000],
    [6000, 20000],
];

/// The bins `start, start + 1, .., end - 1` (none when `end <= start`).
pub open spec fn bins_between(start: nat, end: nat) -> Seq<usize> {
    Seq::new(if end > start { (end - start) as nat } else { 0 }, |i: int| (start + i) as usize)
}

/// The bins of band `band` when the bands have the first bins and the
/// bins just past them given by `edges`.
pub open spec fn band_range(edges: [[usize; 2]; 7], band: int) -> Seq<usize> {
    bins_between(edges[band][0] as nat, edges[band][1] as nat)
}

/// Follows the energy of the frequency bands of every channel of a
/// stream, one value per band and spectrum.
pub struct StreamAnalyzerAnnotator<T> {
    parameters: Arc<AnalyzerParameters>,
    ranges_indices: Vec<Vec<usize>>,
    duration: u64,
    history_length: usize,
    filters: MultiChannel<Vec<SpectrumFilter<T>>>,
    ind: usize,
}

impl<T: Copy> StreamAnalyzerAnnotator<T> {
    /// The bins of every band.
    pub closed spec fn ranges(&self) -> Seq<Seq<usize>> {
        self.ranges_indices@.map_values(|r: Vec<usize>| r@)
    }

    /// Number of channels followed.
    pub closed spec fn channel_count(&self) -> nat {
        self.filters.channels@.len()
    }

    /// The filter of band `band` of channel `channel`.
    pub closed spec fn filter(&self, channel: int, band: int) -> SpectrumFilter<T> {
        self.filters.channels@[channel]@[band]
    }

    /// How many values each band history keeps at most.
    pub closed spec fn history_len(&self) -> nat {
        self.history_length as nat
    }

    /// The parameters of the analysis whose spectrums are annotated.
    pub closed spec fn parameters(&self) -> AnalyzerParameters {
        *self.parameters
    }

    /// The time each band history covers, in nanoseconds.
    pub closed spec fn duration(&self) -> u64 {
        self.duration
    }

    /// An annotator of `channels` channels: band `b` of `FREQUENCY_RANGES`
    /// holds the bins from `band_edges[b][0]` up to, not including,
    /// `band_edges[b][1]`, and every channel has, for every band, an empty
    /// history of at most `history_length` values covering `duration`
    /// nanoseconds, one value per `spectrogram_duration` of `parameters`.
    pub fn new(
        parameters: Arc<AnalyzerParameters>,
        duration: u64,
        channels: usize,
        band_edges: [[usize; 2]; 7],
        history_length: usize,
    ) -> (a: Self)
        ensures
            a.wf(),
            a.channel_count() == channels,
            a.parameters() == *parameters,
            a.duration() == duration,
            a.history_len() == history_length,
            a.ranges().len() == 7,
            forall|b: int| 0 <= b < 7 ==> #[trigger] a.ranges()[b] == band_range(band_edges, b),
            forall|c: int, b: int|
                0 <= c < channels && 0 <= b < 7 ==> (#[trigger] a.filter(c, b)).recorded().values()
                    == Seq::<T>::empty(),
    {
        let mut ranges_indices: Vec<Vec<usize>> = Vec::with_capacity(7);
        let mut band: usize = 0;
        while band < 7
            invariant
                band <= 7,
                ranges_indices@.len() == band,
                forall|b: int|
                    0 <= b < band ==> (#[trigger] ranges_indices@[b])@ == band_range(band_edges, b),
            decreases 7 - band,
        {
            let start_bin = band_edges[band][0];
            let end_bin = band_edges[band][1];
            let mut bins: Vec<usize> = Vec::new();
            let mut bin = start_bin;
            while bin < end_bin
                invariant
                    start_bin <= bin,
                    bin <= end_bin || bin == start_bin,
                    bins@ == bins_between(start_bin as nat, bin as nat),
                decreases end_bin - bin,
            {
                bins.push(bin);
                bin = bin + 1;
                assert(bins@ =~= bins_between(start_bin as nat, bin as nat));
            }
            assert(bins@ =~= band_range(band_edges, band as int));
            ranges_indices.push(bins);
            band = band + 1;
        }

        let mut channel_filters: Vec<SpectrumFilter<T>> = Vec::with_capacity(7);
        let mut b: usize = 0;
        while b < 7
            invariant
                b <= 7,
                ranges_indices@.len() == 7,
                channel_filters@.len() == b,
                forall|k: int|
                    0 <= k < b ==> {
                        &&& (#[trigger] channel_filters@[k]).bins() == ranges_indices@[k]@
                        &&& channel_filters@[k].recorded().wf()
                        &&& channel_filters@[k].recorded().values() == Seq::<T>::empty()
                        &&& channel_filters@[k].recorded().max_len() == history_length
                        &&& channel_filters@[k].recorded().duration() == duration
                        &&& channel_filters@[k].recorded().entry_time()
                            == parameters.spectrogram_duration
                    },
            decreases 7 - b,
        {
            let indices = copy_vec(ranges_indices[b].as_slice());
            channel_filters.push(
                SpectrumFilter::new(indices, duration, parameters.spectrogram_duration, history_length),
            );
            b = b + 1;
        }

        let filters = MultiChannel::new(channels, channel_filters);
        let a = StreamAnalyzerAnnotator {
            parameters,
            ranges_indices,
            duration,
            history_length,
            filters,
            ind: 0,
        };
        assert forall|c: int, b: int|
            0 <= c < channels && 0 <= b < 7 implies {
                &&& (#[trigger] a.filter(c, b)).bins() == a.ranges()[b]
                &&& a.filter(c, b).recorded().wf()
                &&& a.filter(c, b).recorded().max_len() == a.history_len()
                &&& a.filter(c, b).recorded().duration() == a.duration()
                &&& a.filter(c, b).recorded().entry_time() == a.parameters().spectrogram_duration
                &&& a.filter(c, b).recorded().values() == Seq::<T>::empty()
            } by {
            assert(cloned(channel_filters, a.filters.channels@[c]));
            assert(a.filters.channels@[c]@.len() == 7);
            assert(cloned(channel_filters@[b], a.filters.channels@[c]@[b]));
        }
        a
    }

    /// The magnitudes of the bins of band `band` in `spectrum`, the
    /// spectrum of channel `channel`, in bin order.
    pub fn band_samples(&self, channel: usize, band: usize, spectrum: &[T]) -> (values: Vec<T>)
        requires
            self.wf(),
            channel < self.channel_count(),
            band < 7,
            forall|k: int|
                0 <= k < self.ranges()[band as int].len() ==> #[trigger] self.ranges()[band as int][k]
                    < spectrum@.len(),
        ensures
            values@.len() == self.ranges()[band as int].len(),
            forall|k: int|
                0 <= k < values@.len() ==> #[trigger] values@[k] == spectrum@[self.ranges()[band as int][k] as int],
    {
        let filter = &self.filters.channels[channel][band];
        assert(*filter == self.filter(channel as int, band as int));
        filter.select(spectrum)
    }

    /// Records, for channel `channel`, one value per band: the band's
    /// value for the newest spectrum.
    pub fn push_band_values(&mut self, channel: usize, values: Vec<T>)
        requires
            old(self).wf(),
            channel < old(self).channel_count(),
            values@.len() == 7,
        ensures
            final(self).wf(),
            final(self).channel_count() == old(self).channel_count(),
            final(self).ranges() == old(self).ranges(),
            final(self).history_len() == old(self).history_len(),
            final(self).parameters() == old(self).parameters(),
            final(self).duration() == old(self).duration(),
            forall|c: int, b: int|
                0 <= c < final(self).channel_count() && 0 <= b < 7 ==> (#[trigger] final(self).filter(
                    c,
                    b,
                )).recorded().values() == if c == channel {
                    keep_last(
                        old(self).filter(c, b).recorded().values().push(values@[b]),
                        old(self).history_len(),
                    )
                } else {
                    old(self).filter(c, b).recorded().values()
                },
    {
        let ghost old_self = *self;
        let mut band_filters: Vec<SpectrumFilter<T>> = Vec::new();
        std::mem::swap(&mut self.filters.channels[channel], &mut band_filters);
        let ghost orig = band_filters@;
        assert(orig == old_self.filters.channels@[channel as int]@);
        assert forall|k: int| 0 <= k < 7 implies (#[trigger] orig[k]).recorded().wf() by {
            assert(orig[k] == old_self.filter(channel as int, k));
        }
        let mut b: usize = 0;
        while b < 7
            invariant
                b <= 7,
                values@.len() == 7,
                orig.len() == 7,
                band_filters@.len() == 7,
                forall|k: int|
                    0 <= k < 7 ==> {
                        &&& (#[trigger] band_filters@[k]).bins() == orig[k].bins()
                        &&& band_filters@[k].recorded().wf()
                        &&& band_filters@[k].recorded().max_len() == orig[k].recorded().max_len()
                        &&& band_filters@[k].recorded().duration() == orig[k].recorded().duration()
                        &&& band_filters@[k].recorded().entry_time()
                            == orig[k].recorded().entry_time()
                        &&& band_filters@[k].recorded().values() == if k < b {
                            keep_last(
                                orig[k].recorded().values().push(values@[k]),
                                orig[k].recorded().max_len(),
                            )
                        } else {
                            orig[k].recorded().values()
                        }
                    },
            decreases 7 - b,
        {
            let ghost before = band_filters@;
            let filter = &mut band_filters[b];
            filter.record(values[b]);
            assert(band_filters@ == before.update(b as int, *filter));
            b = b + 1;
        }
        self.filters.channels.set(channel, band_filters);
        assert forall|c: int, b: int|
            0 <= c < self.channel_count() && 0 <= b < 7 implies {
                &&& (#[trigger] self.filter(c, b)).bins() == self.ranges()[b]
                &&& self.filter(c, b).recorded().wf()
                &&& self.filter(c, b).recorded().max_len() == self.history_len()
                &&& self.filter(c, b).recorded().duration() == self.duration()
                &&& self.filter(c, b).recorded().entry_time() == self.parameters().spectrogram_duration
                &&& self.filter(c, b).recorded().values() == if c == channel {
                    keep_last(
                        old_self.filter(c, b).recorded().values().push(values@[b]),
                        old_self.history_len(),
                    )
                } else {
                    old_self.filter(c, b).recorded().values()
                }
            } by {
            if c != channel {
                assert(self.filters.channels@[c] == old_self.filters.channels@[c]);
            }
            assert(old_self.filter(c, b).bins() == old_self.ranges()[b]);
        }
    }

    /// Records the band values of the newest spectrum of every channel:
    /// `values[c]` holds the seven band values of channel `c`, for the
    /// first `values.len()` channels.
    pub fn push_channels_band_values(&mut self, values: Vec<Vec<T>>)
        requires
            old(self).wf(),
            values@.len() <= old(self).channel_count(),
            forall|c: int| 0 <= c < values@.len() ==> (#[trigger] values@[c])@.len() == 7,
        ensures
            final(self).wf(),
            final(self).channel_count() == old(self).channel_count(),
            final(self).ranges() == old(self).ranges(),
            final(self).history_len() == old(self).history_len(),
            final(self).parameters() == old(self).parameters(),
            final(self).duration() == old(self).duration(),
            forall|c: int, b: int|
                0 <= c < final(self).channel_count() && 0 <= b < 7 ==> (#[trigger] final(self).filter(
                    c,
                    b,
                )).recorded().values() == if c < values@.len() {
                    keep_last(
                        old(self).filter(c, b).recorded().values().push(values@[c]@[b]),
                        old(self).history_len(),
                    )
                } else {
                    old(self).filter(c, b).recorded().values()
                },
    {
        let n = values.len();
        let mut channel: usize = 0;
        while channel < n
            invariant
                channel <= n,
                n == values@.len(),
                n <= self.channel_count(),
                forall|c: int| 0 <= c < values@.len() ==> (#[trigger] values@[c])@.len() == 7,
                self.wf(),
                self.channel_count() == old(self).channel_count(),
                self.ranges() == old(self).ranges(),
                self.history_len() == old(self).history_len(),
                self.parameters() == old(self).parameters(),
                self.duration() == old(self).duration(),
                forall|c: int, b: int|
                    0 <= c < self.channel_count() && 0 <= b < 7 ==> (#[trigger] self.filter(
                        c,
                        b,
                    )).recorded().values() == if c < channel {
                        keep_last(
                            old(self).filter(c, b).recorded().values().push(values@[c]@[b]),
                            old(self).history_len(),
                        )
                    } else {
                        old(self).filter(c, b).recorded().values()
                    },
            decreases n - channel,
        {
            let row = copy_vec(values[channel].as_slice());
            assert(row@ == values@[channel as int]@);
            self.push_band_values(channel, row);
            channel = channel + 1;
        }
    }

    /// The values recorded for band `band` of channel `channel`.
    pub fn band_history(&self, channel: usize, band: usize) -> (h: &HistoryBuffer<T>)
        requires
            self.wf(),
            channel < self.channel_count(),
            band < 7,
        ensures
            *h == self.filter(channel as int, band as int).recorded(),
    {
        self.filters.channels[channel][band].history()
    }

    /// Number of channels followed.
    pub fn channels(&self) -> (n: usize)
        ensures
            n == self.channel_count(),
    {
        self.filters.channels.len()
    }

    /// The bins of every band.
    pub fn ranges_indices(&self) -> (r: &Vec<Vec<usize>>)
        ensures
            r@.map_values(|v: Vec<usize>| v@) == self.ranges(),
    {
        &self.ranges_indices
    }

    /// One filter per band and channel, on the bins of its band, each
    /// with a history of `history_len()` values covering `duration()`,
    /// one value per spectrogram duration of the parameters.
    pub closed spec fn wf(&self) -> bool {
        &&& self.ranges_indices@.len() == 7
        &&& forall|c: int|
            0 <= c < self.channel_count() ==> (#[trigger] self.filters.channels@[c])@.len() == 7
        &&& forall|c: int, b: int|
            0 <= c < self.channel_count() && 0 <= b < 7 ==> {
                &&& (#[trigger] self.filter(c, b)).bins() == self.ranges()[b]
                &&& self.filter(c, b).recorded().wf()
                &&& self.filter(c, b).recorded().max_len() == self.history_len()
                &&& self.filter(c, b).recorded().duration() == self.duration()
                &&& self.filter(c, b).recorded().entry_time()
                    == self.parameters().spectrogram_duration
            }
    }
}

/// The bins of the first `bands` bands, band after band.
pub open spec fn bands_bins(bands: nat, edges: [[usize; 2]; 7]) -> Seq<usize>
    decreases bands,
{
    if bands == 0 {
        Seq::empty()
    } else {
        bands_bins((bands - 1) as nat, edges) + band_range(edges, bands - 1)
    }
}

/// Bands whose edges are in order and where every band ends at the bin
/// the next one starts at cover every bin from the start of the first
/// band up to the end of the last, each bin in exactly one band, in
/// order.
pub proof fn law_bands_tile_the_spectrum(edges: [[usize; 2]; 7])
    requires
        forall|b: int| 0 <= b < 6 ==> #[trigger] edges[b][1] == edges[b + 1][0],
        forall|b: int| 0 <= b < 7 ==> #[trigger] edges[b][0] <= edges[b][1],
    ensures
        bands_bins(7, edges) == bins_between(edges[0][0] as nat, edges[6][1] as nat),
{
    lemma_bands_prefix(7, edges);
}

proof fn lemma_bands_prefix(n: nat, edges: [[usize; 2]; 7])
    requires
        1 <= n <= 7,
        forall|b: int| 0 <= b < 6 ==> #[trigger] edges[b][1] == edges[b + 1][0],
        forall|b: int| 0 <= b < 7 ==> #[trigger] edges[b][0] <= edges[b][1],
    ensures
        edges[0][0] <= edges[n - 1][1],
        bands_bins(n, edges) == bins_between(edges[0][0] as nat, edges[n - 1][1] as nat),
    decreases n,
{
    if n == 1 {
        assert(bands_bins(0, edges) == Seq::<usize>::empty());
        assert(edges[0][0] <= edges[0][1]);
        assert(bands_bins(1, edges) =~= bins_between(edges[0][0] as nat, edges[0][1] as nat));
    } else {
        lemma_bands_prefix((n - 1) as nat, edges);
        assert(edges[n - 2][1] == edges[n - 1][0]);
        assert(edges[n - 1][0] <= edges[n - 1][1]);
        assert(bands_bins(n, edges) =~= bins_between(edges[0][0] as nat, edges[n - 1][1] as nat));
    }
}

/// Band `band` holds exactly the bins from its first edge up to, not
/// including, its second: as many bins as the edges are apart (none when
/// they are reversed), bin `i` being the first edge plus `i`.
pub proof fn law_band_range(edges: [[usize; 2]; 7], band: int)
    requires
        0 <= band < 7,
    ensures
        band_range(edges, band).len() == if edges[band][1] > edges[band][0] {
            edges[band][1] - edges[band][0]
        } else {
            0
        },
        forall|i: int|
            0 <= i < band_range(edges, band).len() ==> #[trigger] band_range(edges, band)[i]
                == edges[band][0] + i,
{
}

} // verus!
