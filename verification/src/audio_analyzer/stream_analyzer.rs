use std::sync::Arc;

use vstd::prelude::*;

use crate::audio::audio_buffer::{read_start, stored, views, window};
use crate::audio::{AudioBuffer, StreamParameters};
use crate::audio_analyzer::spectrogram::{keep_last, TimeSeries};
use crate::audio_analyzer::{AnalyzerParameters, Spectrogram};

verus! {

/// The std `Arc::clone`; the contract claims that the new handle points to
/// the same value as `shared`.
#[verifier::external_body]
pub(crate) fn share<T>(shared: &Arc<T>) -> (res: Arc<T>)
    ensures
        res == *shared,
{
    shared.clone()
}

/// Cuts a stream into overlapping windows of `spectrum_width` samples per
/// channel, a new window every `refresh_time_in_samples` samples, and keeps
/// the spectrogram of the spectrums computed from them.
pub struct StreamAnalyzer<S, M> {
    audio_buffer: AudioBuffer<S>,
    analyzer_parameters: Arc<AnalyzerParameters>,
    spectrogram: Spectrogram<M>,
    is_alive: bool,
}

impl<S: Copy, M: Copy> StreamAnalyzer<S, M> {
    pub closed spec fn parameters(&self) -> AnalyzerParameters {
        *self.analyzer_parameters
    }

    pub closed spec fn buffer(&self) -> AudioBuffer<S> {
        self.audio_buffer
    }

    pub closed spec fn spectrum_history(&self) -> Spectrogram<M> {
        self.spectrogram
    }

    pub closed spec fn alive(&self) -> bool {
        self.is_alive
    }

    /// An analyzer of `spectrum_width` samples per spectrum and a spectrum
    /// every `refresh_time` nanoseconds, that is every
    /// `refresh_time_in_samples` samples, over a buffer of
    /// `buffer_duration_in_samples` samples per channel and a spectrogram
    /// history of `length_of_history` spectrums, which cover
    /// `buffer_duration` nanoseconds of the stream.
    pub fn new(
        refresh_time: u64,
        buffer_duration: u64,
        spectrum_width: usize,
        refresh_time_in_samples: usize,
        length_of_history: usize,
        buffer_duration_in_samples: usize,
        stream_parameters: Arc<StreamParameters>,
        silence: S,
        zero: M,
    ) -> (sa: StreamAnalyzer<S, M>)
        requires
            length_of_history * (spectrum_width / 2) <= usize::MAX,
        ensures
            sa.wf(),
            sa.alive(),
            sa.parameters() == (AnalyzerParameters {
                spectrum_width,
                refresh_time_in_samples,
                length_of_history,
                refresh_time,
                spectrogram_duration: buffer_duration,
                sample_rate: stream_parameters.sample_rate,
            }),
            sa.buffer().channel_count() == stream_parameters.channels,
            sa.buffer().capacity() == buffer_duration_in_samples,
            sa.buffer().new_count() == 0,
            sa.buffer().buffers() == Seq::new(
                stream_parameters.channels as nat,
                |c: int| Seq::new(buffer_duration_in_samples as nat, |i: int| silence),
            ),
            sa.spectrum_history().channel_count() == stream_parameters.channels,
            sa.spectrum_history().history_length() == length_of_history,
            sa.spectrum_history().spectrum_len() == spectrum_width / 2,
            forall|c: int|
                0 <= c < sa.spectrum_history().channel_count() ==> (#[trigger] sa.spectrum_history().history(
                    c,
                )).values() == Seq::new((length_of_history * (spectrum_width / 2)) as nat, |i: int| zero),
    {
        let parameters = Arc::new(
            AnalyzerParameters {
                spectrum_width,
                refresh_time_in_samples,
                length_of_history,
                refresh_time,
                spectrogram_duration: buffer_duration,
                sample_rate: stream_parameters.sample_rate,
            },
        );
        let audio_buffer = AudioBuffer::new(
            share(&stream_parameters),
            buffer_duration_in_samples,
            silence,
        );
        let spectrogram = Spectrogram::new(share(&parameters), stream_parameters, zero);
        StreamAnalyzer {
            audio_buffer,
            analyzer_parameters: parameters,
            spectrogram,
            is_alive: true,
        }
    }

    /// Well-formedness in terms of the views: the buffer and the
    /// spectrogram are well formed, the spectrogram follows as many
    /// channels as the buffer holds and keeps `length_of_history`
    /// spectrums of `spectrum_width / 2` magnitudes per channel.
    pub proof fn lemma_wf(&self)
        requires
            self.wf(),
        ensures
            self.buffer().wf(),
            self.spectrum_history().wf(),
            self.spectrum_history().channel_count() == self.buffer().channel_count(),
            self.spectrum_history().history_length() == self.parameters().length_of_history,
            self.spectrum_history().spectrum_len() == self.parameters().spectrum_width / 2,
    {
    }

    /// The settings of this analyzer.
    pub fn get_analyzer_parameters(&self) -> (p: Arc<AnalyzerParameters>)
        ensures
            *p == self.parameters(),
    {
        share(&self.analyzer_parameters)
    }

    /// Marks the analyzer as stopped.
    pub fn kill(&mut self)
        ensures
            !final(self).alive(),
            final(self).parameters() == old(self).parameters(),
            final(self).buffer() == old(self).buffer(),
            final(self).spectrum_history() == old(self).spectrum_history(),
            final(self).wf() == old(self).wf(),
    {
        self.is_alive = false;
    }

    pub fn is_alive(&self) -> (alive: bool)
        ensures
            alive == self.alive(),
    {
        self.is_alive
    }

    /// The buffer the analyzed samples are stored in.
    pub fn get_audio_buffer(&self) -> (b: &AudioBuffer<S>)
        ensures
            *b == self.buffer(),
    {
        &self.audio_buffer
    }

    /// Stores interleaved samples of the stream for analysis.
    pub fn store_samples(&mut self, data: Vec<S>)
        requires
            old(self).wf(),
            old(self).buffer().channel_count() > 0,
            old(self).buffer().new_count() + data@.len() / old(self).buffer().channel_count()
                <= usize::MAX,
        ensures
            final(self).wf(),
            final(self).alive() == old(self).alive(),
            final(self).parameters() == old(self).parameters(),
            final(self).spectrum_history() == old(self).spectrum_history(),
            final(self).buffer().channel_count() == old(self).buffer().channel_count(),
            final(self).buffer().capacity() == old(self).buffer().capacity(),
            final(self).buffer().buffers() == stored(
                old(self).buffer().buffers(),
                data@,
                old(self).buffer().capacity(),
            ),
            final(self).buffer().new_count() == if old(self).buffer().new_count() + data@.len()
                / old(self).buffer().channel_count() > old(self).buffer().capacity() {
                old(self).buffer().capacity()
            } else {
                old(self).buffer().new_count() + data@.len() / old(self).buffer().channel_count()
            },
    {
        self.audio_buffer.store(data);
    }

    /// Whether the next window fits in the buffer (see `window_fits`).
    pub fn next_window_fits(&self) -> (fits: bool)
        requires
            self.wf(),
        ensures
            fits == self.window_fits(),
    {
        let refresh = self.analyzer_parameters.refresh_time_in_samples;
        let width = self.analyzer_parameters.spectrum_width;
        let capacity = self.audio_buffer.get_capacity();
        let new_count = self.audio_buffer.get_new_samples_count();
        proof {
            self.audio_buffer.lemma_wf();
        }
        new_count < refresh || (refresh <= width && width <= capacity && new_count - refresh
            <= capacity - width)
    }

    /// The next window of every channel, when `refresh_time_in_samples`
    /// new samples are there; they are then marked as read.
    pub fn next_windows(&mut self) -> (windows: Option<Vec<Vec<S>>>)
        requires
            old(self).wf(),
            old(self).window_fits(),
        ensures
            final(self).wf(),
            final(self).window_fits(),
            final(self).alive() == old(self).alive(),
            final(self).parameters() == old(self).parameters(),
            final(self).spectrum_history() == old(self).spectrum_history(),
            final(self).buffer().channel_count() == old(self).buffer().channel_count(),
            final(self).buffer().capacity() == old(self).buffer().capacity(),
            final(self).buffer().buffers() == old(self).buffer().buffers(),
            match windows {
                Some(w) => {
                    &&& old(self).buffer().new_count() >= old(self).parameters().refresh_time_in_samples
                    &&& final(self).buffer().new_count() == old(self).buffer().new_count() - old(self).parameters().refresh_time_in_samples
                    &&& views(w@) == window(
                        old(self).buffer().buffers(),
                        read_start(
                            old(self).buffer().capacity(),
                            old(self).buffer().new_count(),
                            old(self).parameters().refresh_time_in_samples as nat,
                            old(self).parameters().spectrum_width as nat,
                        ),
                        old(self).parameters().spectrum_width as int,
                    )
                },
                None => {
                    &&& old(self).buffer().new_count() < old(self).parameters().refresh_time_in_samples
                    &&& final(self).buffer().new_count() == old(self).buffer().new_count()
                },
            },
    {
        let new_samples = self.analyzer_parameters.refresh_time_in_samples;
        let total_sample_count = self.analyzer_parameters.spectrum_width;
        if self.audio_buffer.get_new_samples_count() < new_samples {
            return None;
        }
        match self.audio_buffer.read_new_samples(new_samples, total_sample_count) {
            Ok(windows) => Some(windows),
            Err(_) => None,
        }
    }

    /// Takes every window that the unread samples allow, oldest first: as
    /// many as whole `refresh_time_in_samples` steps fit in the unread
    /// samples, window `i` starting `i * refresh_time_in_samples` samples
    /// after the first.
    pub fn drain_windows(&mut self) -> (all: Vec<Vec<Vec<S>>>)
        requires
            old(self).wf(),
            old(self).window_fits(),
            old(self).parameters().refresh_time_in_samples > 0,
        ensures
            final(self).wf(),
            final(self).window_fits(),
            final(self).alive() == old(self).alive(),
            final(self).parameters() == old(self).parameters(),
            final(self).spectrum_history() == old(self).spectrum_history(),
            final(self).buffer().channel_count() == old(self).buffer().channel_count(),
            final(self).buffer().capacity() == old(self).buffer().capacity(),
            final(self).buffer().buffers() == old(self).buffer().buffers(),
            all@.len() == old(self).buffer().new_count() / (old(self).parameters().refresh_time_in_samples as nat),
            final(self).buffer().new_count() == old(self).buffer().new_count() % (old(self).parameters().refresh_time_in_samples as nat),
            forall|i: int|
                0 <= i < all@.len() ==> views(#[trigger] all@[i]@) == window(
                    old(self).buffer().buffers(),
                    read_start(
                        old(self).buffer().capacity(),
                        (old(self).buffer().new_count() - i * old(self).parameters().refresh_time_in_samples) as nat,
                        old(self).parameters().refresh_time_in_samples as nat,
                        old(self).parameters().spectrum_width as nat,
                    ),
                    old(self).parameters().spectrum_width as int,
                ),
    {
        let ghost q = self.buffer().new_count();
        let ghost r = self.parameters().refresh_time_in_samples as nat;
        let ghost bufs = self.buffer().buffers();
        let ghost cap = self.buffer().capacity();
        let ghost width = self.parameters().spectrum_width as nat;
        let mut all: Vec<Vec<Vec<S>>> = Vec::new();
        proof {
            vstd::arithmetic::mul::lemma_mul_basics(r as int);
        }
        loop
            invariant
                self.wf(),
                self.window_fits(),
                self.alive() == old(self).alive(),
                self.parameters() == old(self).parameters(),
                self.spectrum_history() == old(self).spectrum_history(),
                self.buffer().channel_count() == old(self).buffer().channel_count(),
                self.buffer().capacity() == cap,
                self.buffer().buffers() == bufs,
                r == self.parameters().refresh_time_in_samples,
                width == self.parameters().spectrum_width,
                r > 0,
                self.buffer().new_count() + all@.len() * r == q,
                forall|i: int|
                    0 <= i < all@.len() ==> views(#[trigger] all@[i]@) == window(
                        bufs,
                        read_start(cap, (q - i * r) as nat, r, width),
                        width as int,
                    ),
            ensures
                self.wf(),
                self.window_fits(),
                self.alive() == old(self).alive(),
                self.parameters() == old(self).parameters(),
                self.spectrum_history() == old(self).spectrum_history(),
                self.buffer().channel_count() == old(self).buffer().channel_count(),
                self.buffer().capacity() == cap,
                self.buffer().buffers() == bufs,
                self.buffer().new_count() + all@.len() * r == q,
                self.buffer().new_count() < r,
                forall|i: int|
                    0 <= i < all@.len() ==> views(#[trigger] all@[i]@) == window(
                        bufs,
                        read_start(cap, (q - i * r) as nat, r, width),
                        width as int,
                    ),
            decreases self.buffer().new_count(),
        {
            match self.next_windows() {
                Some(windows) => {
                    proof {
                        vstd::arithmetic::mul::lemma_mul_is_distributive_add_other_way(
                            r as int,
                            all@.len() as int,
                            1,
                        );
                    }
                    all.push(windows);
                },
                None => {
                    break ;
                },
            }
        }
        proof {
            let n = all@.len();
            let rest = self.buffer().new_count();
            vstd::arithmetic::mul::lemma_mul_is_commutative(n as int, r as int);
            vstd::arithmetic::div_mod::lemma_fundamental_div_mod_converse(
                q as int,
                r as int,
                n as int,
                rest as int,
            );
        }
        all
    }

    /// Appends one spectrum per channel to the spectrogram.
    pub fn push_spectrums(&mut self, spectrums: Vec<Vec<M>>)
        requires
            old(self).wf(),
            spectrums@.len() == old(self).buffer().channel_count(),
        ensures
            final(self).wf(),
            final(self).alive() == old(self).alive(),
            final(self).parameters() == old(self).parameters(),
            final(self).buffer() == old(self).buffer(),
            final(self).spectrum_history().channel_count() == old(self).spectrum_history().channel_count(),
            forall|c: int|
                0 <= c < final(self).spectrum_history().channel_count() ==> (#[trigger] final(self).spectrum_history().history(c)).values() == keep_last(
                    old(self).spectrum_history().history(c).values() + spectrums@[c]@,
                    old(self).spectrum_history().history_length() * old(self).spectrum_history().spectrum_len(),
                ),
    {
        self.spectrogram.push_spectrums(spectrums);
    }

    /// The newest spectrum of every channel.
    pub fn get_latest_spectrum(&self) -> (spectrums: Vec<Vec<M>>)
        requires
            self.wf(),
            self.parameters().spectrum_width / 2 == 0 || self.parameters().length_of_history > 0,
        ensures
            spectrums@.len() == self.spectrum_history().channel_count(),
            forall|c: int|
                0 <= c < self.spectrum_history().channel_count() ==> (#[trigger] spectrums@[c])@.len()
                    == self.spectrum_history().spectrum_len(),
            forall|c: int|
                0 <= c < self.spectrum_history().channel_count() ==> (#[trigger] spectrums@[c])@
                    == self.spectrum_history().history(c).values().skip(
                    self.spectrum_history().history(c).values().len()
                        - self.spectrum_history().spectrum_len(),
                ),
    {
        self.spectrogram.get_latest_spectrum()
    }

    /// A copy of the spectrogram of `channel`, with its spectrum length and
    /// history length.
    pub fn get_spectrogram_for_channel(&self, channel: usize) -> (res: (TimeSeries<M>, (u32, u32)))
        requires
            self.wf(),
            channel < self.spectrum_history().channel_count(),
        ensures
            res.0.wf(),
            res.0.values() == self.spectrum_history().history(channel as int).values(),
            res.0.rows() == self.spectrum_history().history_length(),
            res.0.row_width() == self.spectrum_history().spectrum_len(),
            res.1 == (self.spectrum_history().spectrum_len() as u32, self.spectrum_history().history_length() as u32),
    {
        self.spectrogram.get_spectrogram_for_channel(channel)
    }

    /// The buffer and the spectrogram are well formed and cover the same
    /// channels, and the spectrogram keeps `length_of_history` spectrums of
    /// `spectrum_width / 2` magnitudes.
    pub closed spec fn wf(&self) -> bool {
        &&& self.audio_buffer.wf()
        &&& self.spectrogram.wf()
        &&& self.spectrogram.channel_count() == self.audio_buffer.channel_count()
        &&& self.spectrogram.history_length() == self.analyzer_parameters.length_of_history
        &&& self.spectrogram.spectrum_len() == self.analyzer_parameters.spectrum_width / 2
    }

    /// When a window is due, it fits in the buffer: it is no longer than
    /// the buffer, it holds at least the new samples it consumes, and it
    /// does not reach before the start of the buffer.
    pub open spec fn window_fits(&self) -> bool {
        let p = self.parameters();
        let b = self.buffer();
        b.new_count() >= p.refresh_time_in_samples ==> {
            &&& p.refresh_time_in_samples <= p.spectrum_width
            &&& p.spectrum_width <= b.capacity()
            &&& read_start(
                b.capacity(),
                b.new_count(),
                p.refresh_time_in_samples as nat,
                p.spectrum_width as nat,
            ) >= 0
        }
    }
}

} // verus!
