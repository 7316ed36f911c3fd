//! Analysis settings of a song and the framing of its samples: which
//! sample ranges the per-hop and the three-second analyses read.
use aubio_rs::OnsetMode;
use vstd::prelude::*;

verus! {

/// `aubio_rs::OnsetMode`: the onset detection method used to track beats.
/// Carried through unchanged; nothing is read from it here.
#[verifier::external_type_specification]
#[verifier::external_body]
pub struct ExOnsetMode(OnsetMode);

/// `aubio_rs::OnsetMode::Complex`, the complex-domain onset method.
#[verifier::external_body]
fn complex_onset_mode() -> OnsetMode {
    OnsetMode::Complex
}

/// An audio feature a mapping can follow.
#[derive(Clone, Copy, Debug, PartialEq, Eq, Structural)]
pub enum FeatureType {
    Pitch,
    Volume,
    Tempo,
    Beat,
    Brightness,
    Activity,
    BassEnergy,
    MidEnergy,
    HighEnergy,
    Intensity,
    Positivity,
}

/// Analysis parameters suited to a kind of song.
#[derive(Clone, Copy)]
pub struct SongType {
    /// Samples between two successive analysis frames.
    pub hop_size: usize,
    /// Samples read by each analysis frame (FFT length).
    pub buf_size: usize,
    /// Onset method for beat tracking.
    pub tempo_method: OnsetMode,
}

impl SongType {
    /// Settings for pop songs: hop 256, buffer 512.
    pub fn pop() -> (t: Self)
        ensures
            t.hop_size == 256,
            t.buf_size == 512,
    {
        Self { hop_size: 256, buf_size: 512, tempo_method: complex_onset_mode() }
    }

    /// Settings for techno: hop 128, buffer 256.
    pub fn techno() -> (t: Self)
        ensures
            t.hop_size == 128,
            t.buf_size == 256,
    {
        Self { hop_size: 128, buf_size: 256, tempo_method: complex_onset_mode() }
    }

    /// Finer settings for techno: hop 64, buffer 128.
    pub fn techno2() -> (t: Self)
        ensures
            t.hop_size == 64,
            t.buf_size == 128,
    {
        Self { hop_size: 64, buf_size: 128, tempo_method: complex_onset_mode() }
    }

    /// Settings given in full.
    pub fn custom(hop_size: usize, buf_size: usize, tempo_method: OnsetMode) -> (t: Self)
        ensures
            t.hop_size == hop_size,
            t.buf_size == buf_size,
            t.tempo_method == tempo_method,
    {
        Self { hop_size, buf_size, tempo_method }
    }
}

/// The kinds of song a user can pick.
#[derive(Clone, Copy)]
pub enum SongTypes {
    Pop,
    Techno,
    Custom(usize, usize, OnsetMode),
}

impl SongTypes {
    /// The analysis settings of this kind of song.
    pub fn get_song_type(&self) -> (t: SongType)
        ensures
            *self matches SongTypes::Pop ==> t.hop_size == 256 && t.buf_size == 512,
            *self matches SongTypes::Techno ==> t.hop_size == 128 && t.buf_size == 256,
            *self matches SongTypes::Custom(h, b, m) ==> t.hop_size == h && t.buf_size == b && t.tempo_method == m,
    {
        match self {
            SongTypes::Pop => SongType::pop(),
            SongTypes::Techno => SongType::techno(),
            SongTypes::Custom(hop_size, buf_size, tempo_method) => SongType::custom(*hop_size, *buf_size, *tempo_method),
        }
    }

    /// The label of the kind.
    pub open spec fn text(self) -> Seq<char> {
        match self {
            SongTypes::Pop => "Pop"@,
            SongTypes::Techno => "Techno"@,
            SongTypes::Custom(_, _, _) => "Custom (advanced)"@,
        }
    }

    /// The label of the kind.
    pub fn get_text(&self) -> (text: &'static str)
        ensures
            text@ == self.text(),
    {
        match self {
            SongTypes::Pop => "Pop",
            SongTypes::Techno => "Techno",
            SongTypes::Custom(_, _, _) => "Custom (advanced)",
        }
    }

    /// Every kind, in menu order; the custom one starts from the pop
    /// settings.
    pub fn get_variants() -> (variants: Vec<SongTypes>)
        ensures
            variants.len() == 3,
            variants[0] matches SongTypes::Pop,
            variants[1] matches SongTypes::Techno,
            variants[2] matches SongTypes::Custom(h, b, _) && h == 256 && b == 512,
    {
        vec![SongTypes::Pop, SongTypes::Techno, SongTypes::Custom(256, 512, complex_onset_mode())]
    }
}

/// The number of per-hop analysis frames of `len` samples, each reading
/// `buf_size` samples from `i * hop_size`: every frame must fit in the
/// samples, and none is read when the buffer is shorter than a hop.
pub open spec fn low_frame_count(len: int, hop_size: int, buf_size: int) -> int {
    if buf_size > len || buf_size < hop_size {
        0
    } else {
        (len - buf_size) / hop_size + 1
    }
}

/// Computes [`low_frame_count`]: frame `i` reads samples
/// `i * hop_size .. i * hop_size + buf_size` for every `i` below the count,
/// and the frame after the last would run past the samples.
pub fn low_granularity_frames(len: usize, hop_size: usize, buf_size: usize) -> (count: usize)
    requires
        hop_size > 0 || buf_size > len,
    ensures
        count == low_frame_count(len as int, hop_size as int, buf_size as int),
        forall|i: int| 0 <= i < count ==> #[trigger] (i * hop_size) + buf_size <= len,
        count > 0 ==> count * hop_size + buf_size > len,
{
    if buf_size > len || buf_size < hop_size {
        return 0;
    }
    let count = (len - buf_size) / hop_size + 1;
    proof {
        let q = (len - buf_size) as int / hop_size as int;
        vstd::arithmetic::div_mod::lemma_fundamental_div_mod((len - buf_size) as int, hop_size as int);
        assert forall|i: int| 0 <= i < count implies #[trigger] (i * hop_size) + buf_size <= len by {
            assert(i * hop_size <= q * hop_size) by (nonlinear_arith)
                requires i <= q, hop_size > 0;
        }
        assert(count * hop_size == q * hop_size + hop_size) by (nonlinear_arith)
            requires count == q + 1;
        vstd::arithmetic::div_mod::lemma_mod_bound((len - buf_size) as int, hop_size as int);
    }
    count
}

/// The number of whole hop-sized chunks of `len` samples that pitch
/// tracking reads (a trailing partial chunk is skipped).
pub fn pitch_frames(len: usize, hop_size: usize) -> (count: usize)
    requires
        hop_size > 0,
    ensures
        count == len / hop_size,
        count * hop_size <= len,
        len < (count + 1) * hop_size,
{
    proof {
        vstd::arithmetic::div_mod::lemma_fundamental_div_mod(len as int, hop_size as int);
        vstd::arithmetic::div_mod::lemma_mod_bound(len as int, hop_size as int);
        let q = len as int / hop_size as int;
        assert((q + 1) * hop_size == q * hop_size + hop_size) by (nonlinear_arith);
        assert(hop_size * q == q * hop_size) by (nonlinear_arith);
    }
    len / hop_size
}

/// Samples in a three-second window at `sample_rate` Hz.
pub open spec fn mid_window_len(sample_rate: int) -> int {
    3 * sample_rate
}

/// A three-second analysis window: samples `start..end`, stamped with the
/// analysis frame at its centre.
#[derive(Clone, Copy, Debug, PartialEq, Eq, Structural)]
pub struct MidWindow {
    pub start: usize,
    pub end: usize,
    pub frame: usize,
}

/// Window `k` of `len` samples: windows start every half window and end a
/// window later or at the end of the samples; each is stamped with the
/// analysis frame (of `hop_size` samples) at its centre.
pub open spec fn mid_window(k: int, len: int, sample_rate: int, hop_size: int) -> MidWindow {
    let window = mid_window_len(sample_rate);
    let start = k * (window / 2);
    let end = if start + window < len { start + window } else { len };
    MidWindow { start: start as usize, end: end as usize, frame: ((start + window / 2) / hop_size) as usize }
}

/// The three-second windows, half overlapping, that cover `len` samples
/// at `sample_rate` Hz, with `hop_size`-sample analysis frames.
pub fn mid_granularity_windows(len: usize, sample_rate: u32, hop_size: usize) -> (windows: Vec<MidWindow>)
    requires
        len == 0 || (sample_rate >= 1 && hop_size > 0),
        len + 3 * (sample_rate as int) <= usize::MAX,
    ensures
        forall|k: int| 0 <= k < windows.len() ==> #[trigger] windows[k] == mid_window(k, len as int, sample_rate as int, hop_size as int),
        forall|k: int| 0 <= k < windows.len() ==> #[trigger] windows[k].start < len,
        windows.len() * (3 * (sample_rate as int) / 2) >= len,
{
    let window_size: usize = sample_rate as usize * 3;
    let hop = window_size / 2;
    let mut windows: Vec<MidWindow> = Vec::new();
    let mut start: usize = 0;
    assert(windows.len() == 0);
    assert(0 * hop == 0);
    while start < len
        invariant
            window_size == 3 * (sample_rate as int),
            hop == window_size / 2,
            len == 0 || (sample_rate >= 1 && hop_size > 0),
            len + window_size <= usize::MAX,
            start == windows.len() * hop,
            start <= len + hop,
            forall|k: int| 0 <= k < windows.len() ==> #[trigger] windows[k] == mid_window(k, len as int, sample_rate as int, hop_size as int),
            forall|k: int| 0 <= k < windows.len() ==> #[trigger] windows[k].start < len,
        decreases len + hop - start,
    {
        assert(hop >= 1);
        let end = if start + window_size < len { start + window_size } else { len };
        let frame = (start + window_size / 2) / hop_size;
        let ghost k = windows.len() as int;
        windows.push(MidWindow { start, end, frame });
        proof {
            assert(windows[k] == mid_window(k, len as int, sample_rate as int, hop_size as int));
            assert((k + 1) * hop == k * hop + hop) by (nonlinear_arith);
        }
        start = start + hop;
    }
    windows
}

/// Consecutive windows overlap by half: each starts half a window after the
/// one before, and (unless cut short by the end of the samples) ends half a
/// window after the next one starts.
pub proof fn lemma_mid_windows_overlap(k: int, len: int, sample_rate: int, hop_size: int)
    requires
        k >= 0,
        sample_rate >= 1,
        hop_size > 0,
        (k + 1) * (mid_window_len(sample_rate) / 2) <= usize::MAX,
    ensures
        mid_window(k + 1, len, sample_rate, hop_size).start as int
            == mid_window(k, len, sample_rate, hop_size).start as int + mid_window_len(sample_rate) / 2,
{
    let h = mid_window_len(sample_rate) / 2;
    assert((k + 1) * h == k * h + h) by (nonlinear_arith);
    assert(k * h >= 0) by (nonlinear_arith) requires k >= 0, h >= 0;
}

/// The windows cover the song: every sample lies in the window numbered by
/// how many half windows precede it, and that window is one of the windows
/// computed whenever they reach past the last sample.
pub proof fn lemma_mid_windows_cover(s: int, len: int, sample_rate: int, hop_size: int, count: int)
    requires
        0 <= s < len,
        sample_rate >= 1,
        hop_size > 0,
        count * (mid_window_len(sample_rate) / 2) >= len,
        len + mid_window_len(sample_rate) <= usize::MAX,
    ensures
        ({
            let k = s / (mid_window_len(sample_rate) / 2);
            &&& 0 <= k < count
            &&& mid_window(k, len, sample_rate, hop_size).start <= s
            &&& s < mid_window(k, len, sample_rate, hop_size).end
        }),
{
    let h = mid_window_len(sample_rate) / 2;
    let k = s / h;
    vstd::arithmetic::div_mod::lemma_fundamental_div_mod(s, h);
    vstd::arithmetic::div_mod::lemma_mod_bound(s, h);
    assert(h * k == k * h) by (nonlinear_arith);
    assert(k >= 0) by {
        vstd::arithmetic::div_mod::lemma_div_pos_is_pos(s, h);
    }
    if k >= count {
        assert(k * h >= count * h) by (nonlinear_arith) requires k >= count, h >= 0;
    }
}

/// The kinds of song are labelled "Pop", "Techno" and "Custom (advanced)",
/// whatever a custom kind's settings.
pub proof fn lemma_song_type_labels(hop_size: usize, buf_size: usize, tempo_method: OnsetMode)
    ensures
        SongTypes::Pop.text() == "Pop"@,
        SongTypes::Techno.text() == "Techno"@,
        SongTypes::Custom(hop_size, buf_size, tempo_method).text() == "Custom (advanced)"@,
{
}

} // verus!
