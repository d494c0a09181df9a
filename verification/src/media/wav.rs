use vstd::prelude::*;

verus! {

/// Why a sound file could not be read.
#[derive(Debug, Clone, Copy, PartialEq, Eq, Structural)]
pub enum WavError {
    /// The file is not a RIFF WAVE file.
    NotWav,
    /// The samples are not plain PCM.
    NotPcm,
    /// The file has no (or an empty) data chunk.
    NoDataChunk,
    /// The data chunk holds no whole frame.
    EmptyAudio,
    /// The samples are neither 8 nor 16 bits wide.
    UnsupportedBitDepth,
}

impl WavError {
    /// The error as the player reads it.
    pub fn message(&self) -> (s: &'static str)
        ensures
            s@ == match self {
                WavError::NotWav => "not a WAV file"@,
                WavError::NotPcm => "not PCM"@,
                WavError::NoDataChunk => "no data chunk"@,
                WavError::EmptyAudio => "empty audio data"@,
                WavError::UnsupportedBitDepth => "unsupported bit depth"@,
            },
    {
        match self {
            WavError::NotWav => "not a WAV file",
            WavError::NotPcm => "not PCM",
            WavError::NoDataChunk => "no data chunk",
            WavError::EmptyAudio => "empty audio data",
            WavError::UnsupportedBitDepth => "unsupported bit depth",
        }
    }
}

/// Where the samples of a WAVE file lie and how they are laid out.
#[derive(Debug, Clone, Copy, PartialEq, Eq, Structural)]
pub struct WavLayout {
    pub channels: u16,
    pub sample_rate: u32,
    pub bits_per_sample: u16,
    /// The first byte of the samples.
    pub data_start: usize,
    /// One past the last byte of the samples.
    pub data_end: usize,
}

/// The little-endian 16-bit number at `i`.
pub open spec fn le_u16(d: Seq<u8>, i: int) -> int {
    d[i] + 256 * d[i + 1]
}

/// The little-endian 32-bit number at `i`.
pub open spec fn le_u32(d: Seq<u8>, i: int) -> int {
    d[i] + 256 * d[i + 1] + 65536 * d[i + 2] + 16777216 * d[i + 3]
}

/// Whether the four bytes at `i` are `a b c e`.
pub open spec fn tag_at(d: Seq<u8>, i: int, a: u8, b: u8, c: u8, e: u8) -> bool {
    d[i] == a && d[i + 1] == b && d[i + 2] == c && d[i + 3] == e
}

/// The layout a file starts with before any chunk is read: one channel at
/// 44100 Hz, 16 bits, no samples.
pub open spec fn initial_layout() -> WavLayout {
    WavLayout { channels: 1, sample_rate: 44100, bits_per_sample: 16, data_start: 0, data_end: 0 }
}

/// The layout once the chunk at `offset` is read: a `fmt ` chunk of at
/// least 16 bytes gives the channels, the rate and the sample width (where
/// it declares PCM), a `data` chunk gives the samples, cut at the end of the
/// file; other chunks change nothing.
pub open spec fn chunk_read(d: Seq<u8>, offset: int, l: WavLayout) -> Result<WavLayout, WavError> {
    let len = le_u32(d, offset + 4);
    if tag_at(d, offset, 0x66, 0x6d, 0x74, 0x20) {
        if d.len() - offset >= 24 {
            if le_u16(d, offset + 8) != 1 {
                Err(WavError::NotPcm)
            } else {
                Ok(
                    WavLayout {
                        channels: le_u16(d, offset + 10) as u16,
                        sample_rate: le_u32(d, offset + 12) as u32,
                        bits_per_sample: le_u16(d, offset + 22) as u16,
                        ..l
                    },
                )
            }
        } else {
            Ok(l)
        }
    } else if tag_at(d, offset, 0x64, 0x61, 0x74, 0x61) {
        let end = if offset + 8 + len <= d.len() {
            offset + 8 + len
        } else {
            d.len() as int
        };
        Ok(WavLayout { data_start: (offset + 8) as usize, data_end: end as usize, ..l })
    } else {
        Ok(l)
    }
}

/// A little-endian 32-bit number is a `u32`.
pub proof fn lemma_le_u32_bounds(d: Seq<u8>, i: int)
    requires
        0 <= i,
        i + 4 <= d.len(),
    ensures
        0 <= le_u32(d, i) <= u32::MAX,
{
    let (a, b, c, e) = (d[i], d[i + 1], d[i + 2], d[i + 3]);
    assert(0 <= a <= 255 && 0 <= b <= 255 && 0 <= c <= 255 && 0 <= e <= 255);
}

/// The chunks from `offset` on, read in turn; each is followed by the next,
/// eight bytes of header and its length (made even) further on.
pub open spec fn chunks_read(d: Seq<u8>, offset: int, l: WavLayout) -> Result<WavLayout, WavError>
    decreases d.len() - offset,
{
    if offset < 0 || offset + 8 > d.len() {
        Ok(l)
    } else {
        match chunk_read(d, offset, l) {
            Err(e) => Err(e),
            Ok(next) => {
                let len = le_u32(d, offset + 4);
                let after = offset + 8 + len + len % 2;
                proof {
                    lemma_le_u32_bounds(d, offset + 4);
                }
                if after + 8 > d.len() {
                    Ok(next)
                } else {
                    chunks_read(d, after, next)
                }
            },
        }
    }
}

/// The layout of the WAVE file `d`, or why it cannot be read: it starts
/// with `RIFF`, a size and `WAVE`, is at least 44 bytes long, and has a data
/// chunk with at least one byte.
pub open spec fn spec_wav_layout(d: Seq<u8>) -> Result<WavLayout, WavError> {
    if d.len() < 44 || !tag_at(d, 0, 0x52, 0x49, 0x46, 0x46) || !tag_at(d, 8, 0x57, 0x41, 0x56, 0x45) {
        Err(WavError::NotWav)
    } else {
        match chunks_read(d, 12, initial_layout()) {
            Err(e) => Err(e),
            Ok(l) => if l.data_start == l.data_end {
                Err(WavError::NoDataChunk)
            } else {
                Ok(l)
            },
        }
    }
}

pub(crate) fn read_u16(d: &[u8], i: usize) -> (r: u16)
    requires
        i + 2 <= d.len(),
    ensures
        r == le_u16(d@, i as int),
{
    d[i] as u16 + (d[i + 1] as u16) * 256
}

pub(crate) fn read_u32(d: &[u8], i: usize) -> (r: u32)
    requires
        i + 4 <= d.len(),
    ensures
        r == le_u32(d@, i as int),
{
    d[i] as u32 + (d[i + 1] as u32) * 256 + (d[i + 2] as u32) * 65536 + (d[i + 3] as u32)
        * 16777216
}

fn has_tag(d: &[u8], i: usize, a: u8, b: u8, c: u8, e: u8) -> (r: bool)
    requires
        i + 4 <= d.len(),
    ensures
        r == tag_at(d@, i as int, a, b, c, e),
{
    d[i] == a && d[i + 1] == b && d[i + 2] == c && d[i + 3] == e
}

/// Reads the chunk at `offset` (see `chunk_read`).
fn read_chunk(d: &[u8], offset: usize, l: WavLayout) -> (r: Result<WavLayout, WavError>)
    requires
        offset + 8 <= d.len(),
    ensures
        r == chunk_read(d@, offset as int, l),
        r matches Ok(n) ==> n.data_start <= n.data_end <= d@.len() || (n.data_start == l.data_start
            && n.data_end == l.data_end),
{
    let len = read_u32(d, offset + 4);
    if has_tag(d, offset, 0x66, 0x6d, 0x74, 0x20) {
        if d.len() - offset >= 24 {
            if read_u16(d, offset + 8) != 1 {
                Err(WavError::NotPcm)
            } else {
                Ok(
                    WavLayout {
                        channels: read_u16(d, offset + 10),
                        sample_rate: read_u32(d, offset + 12),
                        bits_per_sample: read_u16(d, offset + 22),
                        ..l
                    },
                )
            }
        } else {
            Ok(l)
        }
    } else if has_tag(d, offset, 0x64, 0x61, 0x74, 0x61) {
        let start = offset + 8;
        let end = if (len as u64) <= (d.len() - start) as u64 {
            start + len as usize
        } else {
            d.len()
        };
        Ok(WavLayout { data_start: start, data_end: end, ..l })
    } else {
        Ok(l)
    }
}

/// Reads the layout of a WAVE file: see `spec_wav_layout`.
pub fn read_wav_layout(data: &[u8]) -> (r: Result<WavLayout, WavError>)
    ensures
        r == spec_wav_layout(data@),
        r matches Ok(l) ==> l.data_start < l.data_end <= data@.len(),
{
    if data.len() < 44 || !has_tag(data, 0, 0x52, 0x49, 0x46, 0x46) || !has_tag(
        data,
        8,
        0x57,
        0x41,
        0x56,
        0x45,
    ) {
        return Err(WavError::NotWav);
    }
    let n = data.len();
    let mut layout = WavLayout {
        channels: 1,
        sample_rate: 44100,
        bits_per_sample: 16,
        data_start: 0,
        data_end: 0,
    };
    let mut offset: usize = 12;
    while offset <= n - 8
        invariant
            n == data@.len(),
            n >= 44,
            tag_at(data@, 0, 0x52, 0x49, 0x46, 0x46),
            tag_at(data@, 8, 0x57, 0x41, 0x56, 0x45),
            12 <= offset <= n,
            chunks_read(data@, 12, initial_layout()) == chunks_read(data@, offset as int, layout),
            layout.data_start <= layout.data_end <= n,
        decreases n - offset,
    {
        let len = read_u32(data, offset + 4);
        match read_chunk(data, offset, layout) {
            Err(e) => {
                assert(chunks_read(data@, offset as int, layout) == Err::<WavLayout, WavError>(e));
                return Err(e);
            },
            Ok(next) => {
                layout = next;
            },
        }
        let step: u64 = 8 + len as u64 + (len % 2) as u64;
        if step <= (n - offset) as u64 {
            offset = offset + step as usize;
        } else {
            offset = n;
        }
    }
    if layout.data_start == layout.data_end {
        Err(WavError::NoDataChunk)
    } else {
        Ok(layout)
    }
}

/// The bytes each sample takes.
pub open spec fn sample_bytes(l: WavLayout) -> int {
    (l.bits_per_sample / 8) as int
}

/// The number of whole frames (one sample for each channel) in the data.
pub open spec fn frame_count(l: WavLayout) -> int {
    ((l.data_end - l.data_start) / sample_bytes(l)) / (l.channels as int)
}

/// Whether the samples of `l` can be read from a file of `n` bytes: the
/// data lies in the file, a sample takes at least a byte, there is a
/// channel, and 16-bit data that holds a frame has an even length.
pub open spec fn samples_readable(l: WavLayout, n: int) -> bool {
    &&& l.data_start <= l.data_end <= n
    &&& l.bits_per_sample >= 8
    &&& l.channels > 0
    &&& l.bits_per_sample == 16 && frame_count(l) > 0 ==> (l.data_end - l.data_start) % 2 == 0
}

/// The signed 16-bit sample whose little-endian bytes are at `i`.
pub open spec fn le_i16(d: Seq<u8>, i: int) -> int {
    let u = le_u16(d, i);
    if u >= 32768 {
        u - 65536
    } else {
        u
    }
}

/// The samples of the data, interleaved by channel: each 16-bit sample read
/// from its two bytes, each 8-bit one less 128.
pub open spec fn spec_samples(d: Seq<u8>, l: WavLayout) -> Seq<i16> {
    let start = l.data_start as int;
    if l.bits_per_sample == 16 {
        Seq::new(
            ((l.data_end - l.data_start) / 2) as nat,
            |k: int| le_i16(d, start + 2 * k) as i16,
        )
    } else {
        Seq::new((l.data_end - l.data_start) as nat, |k: int| (d[start + k] - 128) as i16)
    }
}

/// What reading the samples of `l` from `d` gives: no frame is an error,
/// as is a width other than 8 or 16 bits.
pub open spec fn spec_wav_samples(d: Seq<u8>, l: WavLayout) -> Result<Seq<i16>, WavError> {
    if frame_count(l) == 0 {
        Err(WavError::EmptyAudio)
    } else if l.bits_per_sample == 16 || l.bits_per_sample == 8 {
        Ok(spec_samples(d, l))
    } else {
        Err(WavError::UnsupportedBitDepth)
    }
}

/// The number of whole frames in the data (see `frame_count`).
pub fn wav_frames(layout: &WavLayout) -> (r: usize)
    requires
        layout.data_start <= layout.data_end,
        layout.bits_per_sample >= 8,
        layout.channels > 0,
    ensures
        r == frame_count(*layout),
{
    let bytes = (layout.bits_per_sample / 8) as usize;
    ((layout.data_end - layout.data_start) / bytes) / (layout.channels as usize)
}

/// Reads the samples of a WAVE file laid out as `layout`: see
/// `spec_wav_samples`.
pub fn wav_samples(data: &[u8], layout: &WavLayout) -> (r: Result<Vec<i16>, WavError>)
    requires
        samples_readable(*layout, data@.len() as int),
    ensures
        match r {
            Ok(v) => spec_wav_samples(data@, *layout) == Ok::<Seq<i16>, WavError>(v@),
            Err(e) => spec_wav_samples(data@, *layout) == Err::<Seq<i16>, WavError>(e),
        },
{
    if wav_frames(layout) == 0 {
        return Err(WavError::EmptyAudio);
    }
    let start = layout.data_start;
    let size = layout.data_end - layout.data_start;
    let mut v: Vec<i16> = Vec::new();
    if layout.bits_per_sample == 16 {
        let count = size / 2;
        let mut k: usize = 0;
        while k < count
            invariant
                count == size / 2,
                size == layout.data_end - layout.data_start,
                layout.data_end <= data@.len(),
                start == layout.data_start,
                layout.bits_per_sample == 16,
                k <= count,
                v@ == spec_samples(data@, *layout).subrange(0, k as int),
            decreases count - k,
        {
            let i = start + 2 * k;
            let u: u16 = data[i] as u16 + (data[i + 1] as u16) * 256;
            let s: i32 = if u >= 32768 {
                u as i32 - 65536
            } else {
                u as i32
            };
            v.push(s as i16);
            k += 1;
        }
        assert(v@ =~= spec_samples(data@, *layout));
        Ok(v)
    } else if layout.bits_per_sample == 8 {
        let mut k: usize = 0;
        while k < size
            invariant
                size == layout.data_end - layout.data_start,
                layout.data_end <= data@.len(),
                start == layout.data_start,
                layout.bits_per_sample == 8,
                k <= size,
                v@ == spec_samples(data@, *layout).subrange(0, k as int),
            decreases size - k,
        {
            v.push(data[start + k] as i16 - 128);
            k += 1;
        }
        assert(v@ =~= spec_samples(data@, *layout));
        Ok(v)
    } else {
        Err(WavError::UnsupportedBitDepth)
    }
}

/// Tells whether the samples of `layout` can be read from a file of `n`
/// bytes (see `samples_readable`).
pub fn layout_readable(layout: &WavLayout, n: usize) -> (r: bool)
    ensures
        r == samples_readable(*layout, n as int),
{
    if !(layout.data_start <= layout.data_end && layout.data_end <= n) || layout.bits_per_sample < 8
        || layout.channels == 0 {
        return false;
    }
    layout.bits_per_sample != 16 || wav_frames(layout) == 0 || (layout.data_end - layout.data_start)
        % 2 == 0
}

/// Every `step`-th element of `s`, from `from` on.
pub open spec fn every_nth(s: Seq<i16>, from: int, step: int) -> Seq<i16>
    decreases s.len() - from,
{
    if step <= 0 || from < 0 || from >= s.len() {
        Seq::empty()
    } else {
        seq![s[from]] + if from + step < s.len() {
            every_nth(s, from + step, step)
        } else {
            Seq::empty()
        }
    }
}

/// The samples of channel `channel` out of `channels` interleaved ones.
pub fn channel_samples(samples: &Vec<i16>, channels: usize, channel: usize) -> (r: Vec<i16>)
    requires
        channels > 0,
    ensures
        r@ == every_nth(samples@, channel as int, channels as int),
{
    let mut r: Vec<i16> = Vec::new();
    let mut i: usize = channel;
    let n = samples.len();
    while i < n
        invariant
            n == samples@.len(),
            channels > 0,
            channel <= i,
            r@ + every_nth(samples@, i as int, channels as int) == every_nth(
                samples@,
                channel as int,
                channels as int,
            ),
        decreases n - i,
    {
        let ghost before = r@;
        r.push(samples[i]);
        assert(before + every_nth(samples@, i as int, channels as int) =~= r@ + every_nth(
            samples@,
            i + channels,
            channels as int,
        ));
        if channels > n - i {
            assert(every_nth(samples@, i + channels, channels as int) =~= Seq::<i16>::empty());
            assert(r@ =~= r@ + every_nth(samples@, i + channels, channels as int));
            return r;
        }
        i = i + channels;
    }
    assert(r@ + every_nth(samples@, i as int, channels as int) =~= r@);
    r
}

} // verus!
