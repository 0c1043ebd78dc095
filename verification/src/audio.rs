//! MP3 frame-header parsing: duration, sample rate and bit rate of an MP3
//! file, estimated from its frame headers after skipping the ID3v2 tag.
use vstd::prelude::*;
use crate::id3::{id3v2_total_size, get_id3v2_size};
use crate::strings::{push_str, string_from_chars};

verus! {

/// Errors of audio playback.
#[derive(Debug)]
pub enum AudioError {
    /// The data could not be decoded.
    Decode(String),
    /// Playback failed.
    Playback(String),
}

/// The message of an audio error.
pub open spec fn audio_error_message(e: AudioError) -> Seq<char> {
    match e {
        AudioError::Decode(m) => "decode error: "@ + m@,
        AudioError::Playback(m) => "playback error: "@ + m@,
    }
}

impl AudioError {
    /// The error's message: "decode error: …" or "playback error: …".
    pub fn to_string(&self) -> (s: String)
        ensures
            s@ == audio_error_message(*self),
    {
        let mut out: Vec<char> = Vec::new();
        match self {
            AudioError::Decode(m) => {
                push_str(&mut out, "decode error: ");
                push_str(&mut out, m.as_str());
            },
            AudioError::Playback(m) => {
                push_str(&mut out, "playback error: ");
                push_str(&mut out, m.as_str());
            },
        }
        string_from_chars(out.as_slice())
    }
}

/// What `parse_mp3_info` finds in an MP3 file.
#[derive(Debug, Clone, Copy, PartialEq, Eq)]
pub struct Mp3Info {
    /// Estimated duration in whole seconds.
    pub duration: u32,
    /// Sample rate in Hz.
    pub sample_rate: u32,
    /// Bit rate in kbit/s.
    pub bit_rate: u32,
    /// MPEG layer (1, 2 or 3).
    pub layer: u8,
    /// 1 for mono, 2 otherwise.
    pub channels: u8,
}

/// MPEG audio version.
#[derive(Debug, Clone, Copy, PartialEq, Eq, Structural)]
pub enum MpegVersion {
    /// MPEG-1 (ISO/IEC 11172-3).
    V1,
    /// MPEG-2 (ISO/IEC 13818-3).
    V2,
    /// MPEG-2.5 (unofficial extension).
    V25,
}

/// The fields of a valid frame header.
pub struct FrameHeader {
    pub version: MpegVersion,
    pub layer: u8,
    pub bit_rate: u32,
    pub sample_rate: u32,
    pub padding: u32,
    pub channels: u8,
}

/// Bit rates (kbit/s) of MPEG-1 Layer I by index.
pub const BITRATE_V1_L1: [u32; 16] = [0, 32, 64, 96, 128, 160, 192, 224, 256, 288, 320, 352, 384, 416, 448, 0];
/// Bit rates (kbit/s) of MPEG-1 Layer II by index.
pub const BITRATE_V1_L2: [u32; 16] = [0, 32, 48, 56, 64, 80, 96, 112, 128, 160, 192, 224, 256, 320, 384, 0];
/// Bit rates (kbit/s) of MPEG-1 Layer III by index.
pub const BITRATE_V1_L3: [u32; 16] = [0, 32, 40, 48, 56, 64, 80, 96, 112, 128, 160, 192, 224, 256, 320, 0];
/// Bit rates (kbit/s) of MPEG-2/2.5 Layer I by index.
pub const BITRATE_V2_L1: [u32; 16] = [0, 32, 48, 56, 64, 80, 96, 112, 128, 144, 160, 176, 192, 224, 256, 0];
/// Bit rates (kbit/s) of MPEG-2/2.5 Layers II and III by index.
pub const BITRATE_V2_L23: [u32; 16] = [0, 8, 16, 24, 32, 40, 48, 56, 64, 80, 96, 112, 128, 144, 160, 0];

/// The version coded in bits 4..3 of the second header byte.
pub open spec fn version_of(b1: u8) -> Option<MpegVersion> {
    let v = (b1 / 8) % 4;
    if v == 0 {
        Some(MpegVersion::V25)
    } else if v == 2 {
        Some(MpegVersion::V2)
    } else if v == 3 {
        Some(MpegVersion::V1)
    } else {
        None
    }
}

/// The layer coded in bits 2..1 of the second header byte.
pub open spec fn layer_of(b1: u8) -> Option<u8> {
    let l = (b1 / 2) % 4;
    if l == 1 {
        Some(3u8)
    } else if l == 2 {
        Some(2u8)
    } else if l == 3 {
        Some(1u8)
    } else {
        None
    }
}

/// The bit rate for a version, layer and table index.
pub open spec fn bitrate_of(v: MpegVersion, layer: u8, idx: int) -> u32 {
    match v {
        MpegVersion::V1 => if layer == 1 {
            BITRATE_V1_L1@[idx]
        } else if layer == 2 {
            BITRATE_V1_L2@[idx]
        } else {
            BITRATE_V1_L3@[idx]
        },
        _ => if layer == 1 {
            BITRATE_V2_L1@[idx]
        } else {
            BITRATE_V2_L23@[idx]
        },
    }
}

/// The sample rate for a version and index (0 to 2).
pub open spec fn sample_rate_of(v: MpegVersion, idx: int) -> u32 {
    match v {
        MpegVersion::V1 => if idx == 0 { 44100u32 } else if idx == 1 { 48000u32 } else { 32000u32 },
        MpegVersion::V2 => if idx == 0 { 22050u32 } else if idx == 1 { 24000u32 } else { 16000u32 },
        MpegVersion::V25 => if idx == 0 { 11025u32 } else if idx == 1 { 12000u32 } else { 8000u32 },
    }
}

/// The header of the frame at `pos` of `body`, when there is a valid one: an
/// 11-bit sync word, a known version and layer, a bit-rate index other than
/// 0 and 15, and a sample-rate index other than 3.
pub open spec fn frame_header(body: Seq<u8>, pos: int) -> Option<FrameHeader> {
    let b1 = body[pos + 1];
    let b2 = body[pos + 2];
    let b3 = body[pos + 3];
    if !(body[pos] == 0xFF && b1 >= 0xE0) {
        None
    } else {
        match (version_of(b1), layer_of(b1)) {
            (Some(v), Some(layer)) => {
                let bi = b2 / 16;
                let si = (b2 / 4) % 4;
                if bi == 0 || bi == 15 || si == 3 {
                    None
                } else {
                    Some(FrameHeader {
                        version: v,
                        layer,
                        bit_rate: bitrate_of(v, layer, bi as int),
                        sample_rate: sample_rate_of(v, si as int),
                        padding: ((b2 / 2) % 2) as u32,
                        channels: if b3 / 64 == 3 { 1u8 } else { 2u8 },
                    })
                }
            },
            _ => None,
        }
    }
}

/// Frame length in bytes: (12 * bit rate / sample rate + padding) * 4 for
/// Layer I, 144 * bit rate / sample rate + padding otherwise.
pub open spec fn frame_size(h: FrameHeader) -> int {
    if h.layer == 1 {
        (12 * h.bit_rate * 1000 / (h.sample_rate as int) + h.padding) * 4
    } else {
        144 * h.bit_rate * 1000 / (h.sample_rate as int) + h.padding
    }
}

/// Samples per frame: 384 for Layer I, 1152 for MPEG-1, 576 otherwise.
pub open spec fn samples_per_frame(h: FrameHeader) -> int {
    if h.layer == 1 {
        384
    } else if h.version == MpegVersion::V1 {
        1152
    } else {
        576
    }
}

/// Frame duration in whole microseconds.
pub open spec fn frame_duration_us(h: FrameHeader) -> int {
    samples_per_frame(h) * 1_000_000 / (h.sample_rate as int)
}

/// What a frame tells of the whole file, duration aside.
pub open spec fn info_of(h: FrameHeader) -> Mp3Info {
    Mp3Info {
        duration: 0,
        sample_rate: h.sample_rate,
        bit_rate: h.bit_rate,
        layer: h.layer,
        channels: h.channels,
    }
}

/// Scan of `body` from `pos`: a position without a valid header is passed by
/// one byte, a valid frame is counted and skipped; the scan ends at a frame
/// that runs past the end. Gives the first frame's info, the summed frame
/// durations (microseconds) and the number of frames.
pub open spec fn scan_frames(body: Seq<u8>, pos: int, first: Option<Mp3Info>, total: int, count: int) -> (Option<Mp3Info>, int, int)
    decreases body.len() - pos,
{
    if pos < 0 || pos + 4 > body.len() {
        (first, total, count)
    } else {
        match frame_header(body, pos) {
            None => scan_frames(body, pos + 1, first, total, count),
            Some(h) => {
                let f = if first is None { Some(info_of(h)) } else { first };
                let size = frame_size(h);
                if size <= 0 || pos + size > body.len() {
                    (f, total + frame_duration_us(h), count + 1)
                } else {
                    scan_frames(body, pos + size, f, total + frame_duration_us(h), count + 1)
                }
            },
        }
    }
}

/// The data after the ID3v2 tag (nothing when the tag claims more bytes than
/// there are).
pub open spec fn mp3_body(data: Seq<u8>) -> Seq<u8> {
    let n = id3v2_total_size(data);
    data.skip(if n <= data.len() { n } else { data.len() as int })
}

/// The info of an MP3 file: that of its first frame, with the duration the
/// sum over all frames in whole seconds; `None` when no frame is found.
pub open spec fn spec_parse_mp3_info(data: Seq<u8>) -> Option<Mp3Info> {
    let body = mp3_body(data);
    let (f, total, count) = scan_frames(body, 0, None, 0, 0);
    if count == 0 {
        None
    } else {
        match f {
            Some(i) => Some(Mp3Info { duration: (total / 1_000_000) as u32, ..i }),
            None => None,
        }
    }
}

proof fn lemma_div_ge(x: int, d: int, q: int)
    by (nonlinear_arith)
    requires
        d > 0,
        x >= q * d,
    ensures
        x / d >= q,
{
}

proof fn lemma_div_le(x: int, d: int, q: int)
    by (nonlinear_arith)
    requires
        d > 0,
        x >= 0,
        q >= 0,
        x <= q * d,
    ensures
        x / d <= q,
{
}

proof fn lemma_bitrate_bounds(v: MpegVersion, layer: u8, idx: int)
    requires
        1 <= idx <= 14,
        1 <= layer <= 3,
    ensures
        8 <= bitrate_of(v, layer, idx) <= 448,
        (v == MpegVersion::V1 || layer == 1) ==> 32 <= bitrate_of(v, layer, idx),
{
    assert(BITRATE_V1_L1@ =~= seq![0u32, 32, 64, 96, 128, 160, 192, 224, 256, 288, 320, 352, 384, 416, 448, 0]);
    assert(BITRATE_V1_L2@ =~= seq![0u32, 32, 48, 56, 64, 80, 96, 112, 128, 160, 192, 224, 256, 320, 384, 0]);
    assert(BITRATE_V1_L3@ =~= seq![0u32, 32, 40, 48, 56, 64, 80, 96, 112, 128, 160, 192, 224, 256, 320, 0]);
    assert(BITRATE_V2_L1@ =~= seq![0u32, 32, 48, 56, 64, 80, 96, 112, 128, 144, 160, 176, 192, 224, 256, 0]);
    assert(BITRATE_V2_L23@ =~= seq![0u32, 8, 16, 24, 32, 40, 48, 56, 64, 80, 96, 112, 128, 144, 160, 0]);
}

proof fn lemma_div_small(x: int, d: int)
    by (nonlinear_arith)
    requires
        d >= 1,
        x >= 0,
    ensures
        x / d <= x,
{
}

proof fn lemma_frame_bounds(body: Seq<u8>, pos: int)
    requires
        0 <= pos,
        pos + 4 <= body.len(),
        frame_header(body, pos) is Some,
    ensures
        ({
            let h = frame_header(body, pos)->0;
            &&& 32 <= frame_size(h)
            &&& 0 <= frame_duration_us(h) <= 72000
            &&& 8000 <= h.sample_rate <= 48000
            &&& 8 <= h.bit_rate <= 448
            &&& 1 <= h.layer <= 3
            &&& h.padding <= 1
        }),
{
    let h = frame_header(body, pos)->0;
    let b2 = body[pos + 2];
    lemma_bitrate_bounds(h.version, h.layer, (b2 / 16) as int);
    let sr = h.sample_rate as int;
    let br = h.bit_rate as int;
    if h.layer == 1 {
        assert(12 * br * 1000 >= 8 * sr);
        lemma_div_ge(12 * br * 1000, sr, 8);
        lemma_div_le(384_000_000int, sr, 72000);
    } else {
        assert(144 * br * 1000 >= 32 * sr);
        lemma_div_ge(144 * br * 1000, sr, 32);
        if h.version == MpegVersion::V1 {
            lemma_div_le(1_152_000_000int, sr, 72000);
        } else {
            lemma_div_le(576_000_000int, sr, 72000);
        }
    }
}

/// Parses the frame header at `at`.
fn parse_header(data: &[u8], at: usize) -> (r: Option<FrameHeader>)
    requires
        at + 4 <= data@.len(),
    ensures
        r == frame_header(data@, at as int),
{
    let b0 = data[at];
    let b1 = data[at + 1];
    let b2 = data[at + 2];
    let b3 = data[at + 3];
    if !(b0 == 0xFF && b1 >= 0xE0) {
        return None;
    }
    let vb = (b1 / 8) % 4;
    let version = if vb == 0 {
        MpegVersion::V25
    } else if vb == 2 {
        MpegVersion::V2
    } else if vb == 3 {
        MpegVersion::V1
    } else {
        return None;
    };
    let lb = (b1 / 2) % 4;
    let layer: u8 = if lb == 1 {
        3
    } else if lb == 2 {
        2
    } else if lb == 3 {
        1
    } else {
        return None;
    };
    let bi = b2 / 16;
    let si = (b2 / 4) % 4;
    if bi == 0 || bi == 15 || si == 3 {
        return None;
    }
    let bit_rate = match version {
        MpegVersion::V1 => if layer == 1 {
            BITRATE_V1_L1[bi as usize]
        } else if layer == 2 {
            BITRATE_V1_L2[bi as usize]
        } else {
            BITRATE_V1_L3[bi as usize]
        },
        _ => if layer == 1 {
            BITRATE_V2_L1[bi as usize]
        } else {
            BITRATE_V2_L23[bi as usize]
        },
    };
    let sample_rate: u32 = match version {
        MpegVersion::V1 => if si == 0 { 44100 } else if si == 1 { 48000 } else { 32000 },
        MpegVersion::V2 => if si == 0 { 22050 } else if si == 1 { 24000 } else { 16000 },
        MpegVersion::V25 => if si == 0 { 11025 } else if si == 1 { 12000 } else { 8000 },
    };
    let padding: u32 = ((b2 / 2) % 2) as u32;
    let channels: u8 = if b3 / 64 == 3 { 1 } else { 2 };
    Some(FrameHeader { version, layer, bit_rate, sample_rate, padding, channels })
}

/// The number of bytes taken by the ID3v2 tag at the start of `data`, 0 when
/// there is none (see `get_id3v2_size`).
pub fn skip_id3v2(data: &[u8]) -> (n: usize)
    ensures
        n as int == id3v2_total_size(data@),
{
    get_id3v2_size(data)
}

/// Estimates duration, sample rate and bit rate of MP3 data: skips the ID3v2
/// tag (all of the data when the tag claims more than there is), then walks
/// the frame headers (a byte without a valid header is
/// skipped), summing frame durations. The first frame gives the sample rate,
/// bit rate, layer and channels (constant bit rate is assumed). `None` when
/// no frame is found.
pub fn parse_mp3_info(data: &[u8]) -> (r: Option<Mp3Info>)
    requires
        data@.len() < 0x1F_FFFF_FFE0,
    ensures
        r == spec_parse_mp3_info(data@),
{
    let tag = skip_id3v2(data);
    let start = if tag <= data.len() { tag } else { data.len() };
    let ghost body = data@.skip(start as int);
    let n: usize = data.len() - start;
    let ghost target = scan_frames(body, 0, None, 0, 0);
    let mut pos: usize = 0;
    let mut first: Option<Mp3Info> = None;
    let mut total: u64 = 0;
    let mut count: u32 = 0;
    let mut done: bool = false;
    while !done && n - pos >= 4
        invariant
            pos <= n,
            n == body.len(),
            start + n == data.len(),
            body == data@.skip(start as int),
            n < 0x1F_FFFF_FFE0,
            !done ==> count as int * 32 <= pos,
            total as int <= count as int * 72000,
            !done ==> target == scan_frames(body, pos as int, first, total as int, count as int),
            done ==> target == (first, total as int, count as int),
        decreases n - pos + (if done { 0int } else { 1int }),
    {
        assert(frame_header(body, pos as int) == frame_header(data@, start + pos)) by {
            assert(body[pos as int] == data@[start + pos]);
            assert(body[pos + 1] == data@[start + pos + 1]);
            assert(body[pos + 2] == data@[start + pos + 2]);
            assert(body[pos + 3] == data@[start + pos + 3]);
        }
        match parse_header(data, start + pos) {
            None => {
                pos = pos + 1;
            },
            Some(h) => {
                proof {
                    lemma_frame_bounds(body, pos as int);
                    lemma_div_small(144 * h.bit_rate * 1000, h.sample_rate as int);
                    lemma_div_small(12 * h.bit_rate * 1000, h.sample_rate as int);
                }
                if first.is_none() {
                    first = Some(
                        Mp3Info {
                            duration: 0,
                            sample_rate: h.sample_rate,
                            bit_rate: h.bit_rate,
                            layer: h.layer,
                            channels: h.channels,
                        },
                    );
                }
                let size: u32 = if h.layer == 1 {
                    (12 * h.bit_rate * 1000 / h.sample_rate + h.padding) * 4
                } else {
                    144 * h.bit_rate * 1000 / h.sample_rate + h.padding
                };
                let samples: u64 = if h.layer == 1 {
                    384
                } else if h.version == MpegVersion::V1 {
                    1152
                } else {
                    576
                };
                let dur: u64 = samples * 1_000_000 / (h.sample_rate as u64);
                total = total + dur;
                count = count + 1;
                let sz = size as usize;
                if sz == 0 || sz > n - pos {
                    done = true;
                } else {
                    pos = pos + sz;
                }
            },
        }
    }
    if count == 0 {
        return None;
    }
    match first {
        Some(i) => Some(
            Mp3Info {
                duration: (total / 1_000_000) as u32,
                sample_rate: i.sample_rate,
                bit_rate: i.bit_rate,
                layer: i.layer,
                channels: i.channels,
            },
        ),
        None => None,
    }
}

/// Whether a valid frame header starts at `p` of `body`.
pub open spec fn header_at(body: Seq<u8>, p: int) -> bool {
    0 <= p && p + 4 <= body.len() && frame_header(body, p) is Some
}

proof fn lemma_scan_finds(body: Seq<u8>, pos: int, first: Option<Mp3Info>, total: int, count: int)
    requires
        0 <= pos,
    ensures
        ({
            let r = scan_frames(body, pos, first, total, count);
            &&& r.2 >= count
            &&& (r.2 > count <==> exists|p: int| pos <= p && #[trigger] header_at(body, p))
            &&& (first is Some || r.2 > count) ==> r.0 is Some
        }),
    decreases body.len() - pos,
{
    if pos + 4 > body.len() {
        assert forall|p: int| pos <= p implies !#[trigger] header_at(body, p) by {}
    } else {
        match frame_header(body, pos) {
            None => {
                lemma_scan_finds(body, pos + 1, first, total, count);
                assert forall|p: int| pos <= p && #[trigger] header_at(body, p) implies pos + 1 <= p by {}
            },
            Some(h) => {
                assert(header_at(body, pos));
                lemma_frame_bounds(body, pos);
                let f = if first is None { Some(info_of(h)) } else { first };
                let size = frame_size(h);
                if !(size <= 0 || pos + size > body.len()) {
                    lemma_scan_finds(body, pos + size, f, total + frame_duration_us(h), count + 1);
                }
            },
        }
    }
}

/// `parse_mp3_info` finds something exactly when a valid frame header occurs
/// somewhere after the ID3v2 tag.
pub proof fn law_mp3_info_iff_frame(data: Seq<u8>)
    ensures
        spec_parse_mp3_info(data) is Some <==> exists|p: int| #[trigger] header_at(mp3_body(data), p),
{
    let body = mp3_body(data);
    lemma_scan_finds(body, 0, None, 0, 0);
    assert forall|p: int| #[trigger] header_at(body, p) implies 0 <= p by {}
}

proof fn lemma_scan_keeps(body: Seq<u8>, pos: int, x: Mp3Info, total: int, count: int)
    ensures
        scan_frames(body, pos, Some(x), total, count).0 == Some(x),
    decreases body.len() - pos,
{
    if pos >= 0 && pos + 4 <= body.len() {
        match frame_header(body, pos) {
            None => lemma_scan_keeps(body, pos + 1, x, total, count),
            Some(h) => {
                let size = frame_size(h);
                if !(size <= 0 || pos + size > body.len()) {
                    lemma_scan_keeps(body, pos + size, x, total + frame_duration_us(h), count + 1);
                }
            },
        }
    }
}

proof fn lemma_scan_first(body: Seq<u8>, pos: int, total: int, count: int, p: int)
    requires
        0 <= pos <= p,
        header_at(body, p),
        forall|q: int| pos <= q < p ==> !#[trigger] header_at(body, q),
    ensures
        scan_frames(body, pos, None, total, count).0 == Some(info_of(frame_header(body, p)->0)),
    decreases p - pos,
{
    if pos == p {
        let h = frame_header(body, p)->0;
        let size = frame_size(h);
        if !(size <= 0 || pos + size > body.len()) {
            lemma_scan_keeps(body, pos + size, info_of(h), total + frame_duration_us(h), count + 1);
        }
    } else {
        assert(!header_at(body, pos));
        lemma_scan_first(body, pos + 1, total, count, p);
    }
}

/// When `parse_mp3_info` finds frames, the sample rate, bit rate, layer and
/// channels are those of the first valid frame header after the ID3v2 tag.
pub proof fn law_mp3_info_from_first_header(data: Seq<u8>, p: int)
    requires
        header_at(mp3_body(data), p),
        forall|q: int| 0 <= q < p ==> !#[trigger] header_at(mp3_body(data), q),
    ensures
        spec_parse_mp3_info(data) matches Some(i) && ({
            let h = frame_header(mp3_body(data), p)->0;
            &&& i.sample_rate == h.sample_rate
            &&& i.bit_rate == h.bit_rate
            &&& i.layer == h.layer
            &&& i.channels == h.channels
        }),
{
    let body = mp3_body(data);
    lemma_scan_first(body, 0, 0, 0, p);
    lemma_scan_finds(body, 0, None, 0, 0);
}

/// A valid frame header is what the MPEG audio format defines: the 11-bit
/// sync word (0xFF, then the top three bits of the next byte set), a version
/// other than the reserved one (bits 4..3 of byte 1 not 01), a layer other
/// than the reserved one (bits 2..1 of byte 1 not 00), a bit-rate index
/// (high nibble of byte 2) neither 0 nor 15, and a sample-rate index (bits
/// 3..2 of byte 2) other than 3.
pub proof fn law_frame_header_valid_iff(body: Seq<u8>, p: int)
    requires
        0 <= p,
        p + 4 <= body.len(),
    ensures
        header_at(body, p) <==> {
            &&& body[p] == 0xFF
            &&& body[p + 1] >= 0xE0
            &&& (body[p + 1] / 8) % 4 != 1
            &&& (body[p + 1] / 2) % 4 != 0
            &&& body[p + 2] / 16 != 0 && body[p + 2] / 16 != 15
            &&& (body[p + 2] / 4) % 4 != 3
        },
{
}

/// The MPEG-1 and MPEG-2 bit-rate tables (kbit/s) by version bits (3 for
/// MPEG-1), layer and index, as the format defines them.
pub open spec fn mpeg_bitrate_table(v1: bool, layer: int, idx: int) -> int {
    if v1 && layer == 1 {
        seq![0int, 32, 64, 96, 128, 160, 192, 224, 256, 288, 320, 352, 384, 416, 448, 0][idx]
    } else if v1 && layer == 2 {
        seq![0int, 32, 48, 56, 64, 80, 96, 112, 128, 160, 192, 224, 256, 320, 384, 0][idx]
    } else if v1 {
        seq![0int, 32, 40, 48, 56, 64, 80, 96, 112, 128, 160, 192, 224, 256, 320, 0][idx]
    } else if layer == 1 {
        seq![0int, 32, 48, 56, 64, 80, 96, 112, 128, 144, 160, 176, 192, 224, 256, 0][idx]
    } else {
        seq![0int, 8, 16, 24, 32, 40, 48, 56, 64, 80, 96, 112, 128, 144, 160, 0][idx]
    }
}

/// The info that `parse_mp3_info` gives comes from the bits of the first
/// valid frame header after the ID3v2 tag: the layer from bits 2..1 of byte
/// 1 (11 is Layer I, 10 Layer II, 01 Layer III); the sample rate from the
/// version bits and bits 3..2 of byte 2 (44100/48000/32000 Hz for MPEG-1,
/// half that for MPEG-2, a quarter for MPEG-2.5); the bit rate from the high
/// nibble of byte 2 in the version's and layer's table; and one channel
/// exactly when the channel mode (the top two bits of byte 3) is 3 (mono),
/// two for stereo, joint stereo and dual channel.
pub proof fn law_mp3_info_reads_header_bits(data: Seq<u8>, p: int)
    requires
        header_at(mp3_body(data), p),
        forall|q: int| 0 <= q < p ==> !#[trigger] header_at(mp3_body(data), q),
    ensures
        spec_parse_mp3_info(data) matches Some(i) && ({
            let b1 = mp3_body(data)[p + 1];
            let b2 = mp3_body(data)[p + 2];
            let b3 = mp3_body(data)[p + 3];
            let v = (b1 / 8) % 4;
            let si = (b2 / 4) % 4;
            let base = if si == 0 { 44100int } else if si == 1 { 48000int } else { 32000int };
            &&& i.channels == (if b3 / 64 == 3 { 1u8 } else { 2u8 })
            &&& i.layer == 4 - (b1 / 2) % 4
            &&& i.sample_rate == (if v == 3 { base } else if v == 2 { base / 2 } else { base / 4 })
            &&& i.bit_rate == mpeg_bitrate_table(v == 3, i.layer as int, (b2 / 16) as int)
        }),
{
    law_mp3_info_from_first_header(data, p);
}

} // verus!
