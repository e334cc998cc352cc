//! Deterministic now-playing renderer for the knob's LCD.
//!
//! `encode` is a pure function from frame content to the display's native
//! wire format: raw RGB565, little-endian per pixel, row-major, exactly
//! `width * height * 2` bytes. If valid art is present it is sampled with an
//! integer aspect-fit center-crop; otherwise a solid background is used. A
//! text band at the bottom rasterizes title and artist with a total,
//! deterministic glyph set, so no character can fail to render. Each channel
//! is quantized to RGB565 by round-to-nearest, not truncation.
//!
//! Content identity is a fingerprint over title, artist, art and playback
//! state; the zone cache keys generations by it.

use vstd::prelude::*;
use vstd::string::StrSliceExecFns;
use vstd::arithmetic::div_mod::{
    lemma_fundamental_div_mod_converse_div, lemma_fundamental_div_mod_converse_mod,
    lemma_multiply_divide_lt,
};

verus! {

/// Playback transport state as the collaborator reports it.
#[derive(Clone, Copy, Debug, PartialEq, Eq, Structural)]
pub enum PlaybackState {
    Playing,
    Paused,
    Stopped,
}

/// Decoded album art: raw RGB (three bytes per pixel), row-major.
pub struct ArtImage {
    pub width: u32,
    pub height: u32,
    pub pixels: Vec<u8>,
}

/// What the playback collaborator reports for a zone.
pub struct NowPlayingFrame {
    pub title: String,
    pub artist: String,
    pub art: Option<ArtImage>,
    pub playback_state: PlaybackState,
    /// Current volume percent; display-only, not part of the rendered image.
    pub volume: u8,
}

/// Target resolution of the device LCD.
#[derive(Clone, Copy, Debug, PartialEq, Eq, Structural)]
pub struct Resolution {
    pub width: u16,
    pub height: u16,
}

/// The knob's LCD is 240x240.
pub const DISPLAY_WIDTH: u16 = 240;

/// The knob's LCD is 240x240.
pub const DISPLAY_HEIGHT: u16 = 240;

/// Art larger than this many pixels is treated as undecodable.
pub const MAX_ART_PIXELS: u64 = 16777216;

/// Height of the text band at the bottom of the frame.
pub const TEXT_BAND_ROWS: u16 = 48;

/// Left margin of rendered text, in pixels.
pub const TEXT_MARGIN_X: u16 = 4;

/// Row of the title line relative to the top of the text band.
pub const TITLE_ROW: u16 = 4;

/// Row of the artist line relative to the top of the text band.
pub const ARTIST_ROW: u16 = 20;

/// Mathematical content of album art.
pub struct ArtContent {
    pub width: int,
    pub height: int,
    pub pixels: Seq<u8>,
}

/// Mathematical content of a frame: everything the renderer reads. Two
/// frames with equal content render identically and fingerprint identically.
pub struct FrameContent {
    pub title: Seq<char>,
    pub artist: Seq<char>,
    pub art: Option<ArtContent>,
    pub state: PlaybackState,
}

/// Content of an optional art image.
pub open spec fn spec_art_content(art: Option<ArtImage>) -> Option<ArtContent> {
    match art {
        Some(a) => Some(ArtContent { width: a.width as int, height: a.height as int, pixels: a.pixels@ }),
        None => None,
    }
}

/// Content of a frame.
pub open spec fn spec_content(frame: NowPlayingFrame) -> FrameContent {
    FrameContent {
        title: frame.title@,
        artist: frame.artist@,
        art: spec_art_content(frame.art),
        state: frame.playback_state,
    }
}

/// Art the renderer will sample: sane dimensions, exact buffer length.
pub open spec fn spec_art_valid(a: ArtContent) -> bool {
    &&& 0 < a.width
    &&& 0 < a.height
    &&& a.width * a.height <= MAX_ART_PIXELS
    &&& a.pixels.len() == a.width * a.height * 3
}

// --- content fingerprint (FNV-1a over the frame's identity bytes) ---

pub const FNV_OFFSET: u64 = 0xcbf29ce484222325;

pub const FNV_PRIME: u64 = 0x100000001b3;

/// One FNV-1a step.
pub open spec fn spec_fnv_step(acc: u64, b: u8) -> u64 {
    (acc ^ (b as u64)).wrapping_mul(FNV_PRIME)
}

/// FNV-1a over a byte sequence, starting from `acc`.
pub open spec fn spec_fnv1a(bytes: Seq<u8>, acc: u64) -> u64
    decreases bytes.len(),
{
    if bytes.len() == 0 {
        acc
    } else {
        spec_fnv1a(bytes.drop_first(), spec_fnv_step(acc, bytes[0]))
    }
}

/// Hashing a concatenation hashes the two parts in order.
pub proof fn lemma_fnv_append(a: Seq<u8>, b: Seq<u8>, acc: u64)
    ensures
        spec_fnv1a(a + b, acc) == spec_fnv1a(b, spec_fnv1a(a, acc)),
    decreases a.len(),
{
    if a.len() == 0 {
        assert(a + b =~= b);
    } else {
        assert((a + b).drop_first() =~= a.drop_first() + b);
        assert((a + b)[0] == a[0]);
        lemma_fnv_append(a.drop_first(), b, spec_fnv_step(acc, a[0]));
    }
}

/// Identity byte for a playback state.
pub open spec fn spec_state_tag(s: PlaybackState) -> u8 {
    match s {
        PlaybackState::Playing => 1,
        PlaybackState::Paused => 2,
        PlaybackState::Stopped => 3,
    }
}

/// Identity bytes contributed by art: a presence tag, then (when the art is
/// usable) its raw pixels. Unusable art fingerprints like no art, since both
/// render the same fallback.
pub open spec fn spec_art_fp_bytes(art: Option<ArtContent>) -> Seq<u8> {
    match art {
        Some(a) => if spec_art_valid(a) {
            seq![1u8] + a.pixels
        } else {
            seq![0u8]
        },
        None => seq![0u8],
    }
}

/// The byte string whose hash identifies a frame's content. Title and artist
/// are their UTF-8 bytes, separated by 0xFF (which UTF-8 never contains).
pub open spec fn spec_fp_input(c: FrameContent) -> Seq<u8> {
    vstd::utf8::encode_utf8(c.title) + seq![0xffu8] + vstd::utf8::encode_utf8(c.artist)
        + seq![0xffu8] + spec_art_fp_bytes(c.art) + seq![spec_state_tag(c.state)]
}

/// Content fingerprint: FNV-1a over the identity bytes.
pub open spec fn spec_fingerprint(c: FrameContent) -> u64 {
    spec_fnv1a(spec_fp_input(c), FNV_OFFSET)
}

/// FNV-1a over one byte slice, continuing from `acc`.
fn fnv_extend(acc: u64, bytes: &[u8]) -> (r: u64)
    ensures
        r == spec_fnv1a(bytes@, acc),
{
    let n = bytes.len();
    let mut i: usize = 0;
    let mut h = acc;
    proof {
        assert(bytes@.skip(0) =~= bytes@);
    }
    while i < n
        invariant
            n == bytes@.len(),
            i <= n,
            spec_fnv1a(bytes@, acc) == spec_fnv1a(bytes@.skip(i as int), h),
        decreases n - i,
    {
        proof {
            assert(bytes@.skip(i as int).drop_first() =~= bytes@.skip(i as int + 1));
            assert(bytes@.skip(i as int)[0] == bytes@[i as int]);
        }
        h = (h ^ (bytes[i] as u64)).wrapping_mul(FNV_PRIME);
        i = i + 1;
    }
    proof {
        assert(bytes@.skip(n as int) =~= Seq::<u8>::empty());
    }
    h
}

/// FNV-1a over one more byte.
fn fnv_push(acc: u64, b: u8) -> (r: u64)
    ensures
        r == spec_fnv1a(seq![b], acc),
{
    proof {
        let s = seq![b];
        assert(s.len() == 1 && s[0] == b);
        assert(s.drop_first() =~= Seq::<u8>::empty());
        assert(spec_fnv1a(Seq::<u8>::empty(), spec_fnv_step(acc, b)) == spec_fnv_step(acc, b));
        assert(spec_fnv1a(s, acc) == spec_fnv_step(acc, b));
    }
    (acc ^ (b as u64)).wrapping_mul(FNV_PRIME)
}

/// Whether this art will be sampled or ignored. When it is unusable the
/// render degrades to text-only rather than failing; a caller may record
/// that as a non-fatal encoding failure.
pub fn art_usable(a: &ArtImage) -> (r: bool)
    ensures
        r == spec_art_valid(ArtContent {
            width: a.width as int,
            height: a.height as int,
            pixels: a.pixels@,
        }),
{
    if a.width == 0 || a.height == 0 {
        return false;
    }
    proof {
        assert((a.width as int) * (a.height as int) <= 0xffffffff * 0xffffffff)
            by (nonlinear_arith)
            requires
                a.width as int <= 0xffffffff,
                a.height as int <= 0xffffffff,
        ;
    }
    let px = (a.width as u64) * (a.height as u64);
    if px > MAX_ART_PIXELS {
        return false;
    }
    // px * 3 <= 3 * MAX_ART_PIXELS, far below u64::MAX and usize::MAX
    (a.pixels.len() as u64) == px * 3
}

/// The content fingerprint of a frame, computed exactly as specified.
pub fn fingerprint(frame: &NowPlayingFrame) -> (r: u64)
    ensures
        r == spec_fingerprint(spec_content(*frame)),
{
    let ghost c = spec_content(*frame);
    let mut h = fnv_extend(FNV_OFFSET, frame.title.as_str().as_bytes());
    proof {
        lemma_fnv_append(vstd::utf8::encode_utf8(c.title), seq![0xffu8], FNV_OFFSET);
    }
    h = fnv_push(h, 0xff);
    proof {
        lemma_fnv_append(
            vstd::utf8::encode_utf8(c.title) + seq![0xffu8],
            vstd::utf8::encode_utf8(c.artist),
            FNV_OFFSET,
        );
    }
    h = fnv_extend(h, frame.artist.as_str().as_bytes());
    proof {
        lemma_fnv_append(
            vstd::utf8::encode_utf8(c.title) + seq![0xffu8] + vstd::utf8::encode_utf8(c.artist),
            seq![0xffu8],
            FNV_OFFSET,
        );
    }
    h = fnv_push(h, 0xff);
    let ghost head = vstd::utf8::encode_utf8(c.title) + seq![0xffu8] + vstd::utf8::encode_utf8(
        c.artist,
    ) + seq![0xffu8];
    proof {
        lemma_fnv_append(head, spec_art_fp_bytes(c.art), FNV_OFFSET);
    }
    h = match &frame.art {
        Some(a) => {
            if art_usable(a) {
                let h2 = fnv_push(h, 1);
                proof {
                    assert(spec_art_fp_bytes(c.art) =~= seq![1u8] + a.pixels@);
                    lemma_fnv_append(seq![1u8], a.pixels@, h);
                }
                fnv_extend(h2, a.pixels.as_slice())
            } else {
                proof {
                    assert(spec_art_fp_bytes(c.art) =~= seq![0u8]);
                }
                fnv_push(h, 0)
            }
        },
        None => {
            proof {
                assert(spec_art_fp_bytes(c.art) =~= seq![0u8]);
            }
            fnv_push(h, 0)
        },
    };
    proof {
        lemma_fnv_append(head + spec_art_fp_bytes(c.art), seq![spec_state_tag(c.state)], FNV_OFFSET);
        assert(spec_fp_input(c) == head + spec_art_fp_bytes(c.art) + seq![spec_state_tag(c.state)]);
    }
    let tag: u8 = match frame.playback_state {
        PlaybackState::Playing => 1,
        PlaybackState::Paused => 2,
        PlaybackState::Stopped => 3,
    };
    fnv_push(h, tag)
}

// --- glyphs ---

/// 8x8 glyph bitmap for a character, rows packed top-to-bottom into one
/// `u64` (row `r` is byte `r`, most significant bit of a row byte is its
/// leftmost pixel). Total on every character: letters and digits have their
/// own shape, anything else renders as a checkerboard block, so no text can fail
/// to rasterize.
pub open spec fn spec_glyph_bits(c: char) -> u64 {
    match c {
        ' ' => 0,
        '-' => 0x00000000fc000000,
        'A' | 'a' => 0x00ccccfccccc7830,
        'B' | 'b' => 0x00fc66667c6666fc,
        'C' | 'c' => 0x003c66c0c0c0663c,
        'D' | 'd' => 0x00f86c6666666cf8,
        'E' | 'e' => 0x00fe6268786862fe,
        'F' | 'f' => 0x00f06068786862fe,
        'G' | 'g' => 0x003e66cec0c0663c,
        'H' | 'h' => 0x00ccccccfccccccc,
        'I' | 'i' => 0x0078303030303078,
        'J' | 'j' => 0x0078cccc0c0c0c1e,
        'K' | 'k' => 0x00e6666c786c66e6,
        'L' | 'l' => 0x00fe6662606060f0,
        'M' | 'm' => 0x00c6c6d6fefeeec6,
        'N' | 'n' => 0x00c6c6cedef6e6c6,
        'O' | 'o' => 0x00386cc6c6c66c38,
        'P' | 'p' => 0x00f060607c6666fc,
        'Q' | 'q' => 0x001c78dccccccc78,
        'R' | 'r' => 0x00e6666c7c6666fc,
        'S' | 's' => 0x0078cc1c70e0cc78,
        'T' | 't' => 0x007830303030b4fc,
        'U' | 'u' => 0x00fccccccccccccc,
        'V' | 'v' => 0x003078cccccccccc,
        'W' | 'w' => 0x00c6eefed6c6c6c6,
        'X' | 'x' => 0x00c66c38386cc6c6,
        'Y' | 'y' => 0x0078303078cccccc,
        'Z' | 'z' => 0x00fe6632188cc6fe,
        '0' => 0x007ce6f6decec67c,
        '1' => 0x00fc303030307030,
        '2' => 0x00fccc60380ccc78,
        '3' => 0x0078cc0c380ccc78,
        '4' => 0x001e0cfecc6c3c1c,
        '5' => 0x0078cc0c0cf8c0fc,
        '6' => 0x0078ccccf8c06038,
        '7' => 0x00303030180cccfc,
        '8' => 0x0078cccc78cccc78,
        '9' => 0x0070180c7ccccc78,
        _ => 0x00aa55aa55aa55aa,
    }
}

/// Glyph bitmap, executable.
fn glyph_bits(c: char) -> (r: u64)
    ensures
        r == spec_glyph_bits(c),
{
    match c {
        ' ' => 0,
        '-' => 0x00000000fc000000,
        'A' | 'a' => 0x00ccccfccccc7830,
        'B' | 'b' => 0x00fc66667c6666fc,
        'C' | 'c' => 0x003c66c0c0c0663c,
        'D' | 'd' => 0x00f86c6666666cf8,
        'E' | 'e' => 0x00fe6268786862fe,
        'F' | 'f' => 0x00f06068786862fe,
        'G' | 'g' => 0x003e66cec0c0663c,
        'H' | 'h' => 0x00ccccccfccccccc,
        'I' | 'i' => 0x0078303030303078,
        'J' | 'j' => 0x0078cccc0c0c0c1e,
        'K' | 'k' => 0x00e6666c786c66e6,
        'L' | 'l' => 0x00fe6662606060f0,
        'M' | 'm' => 0x00c6c6d6fefeeec6,
        'N' | 'n' => 0x00c6c6cedef6e6c6,
        'O' | 'o' => 0x00386cc6c6c66c38,
        'P' | 'p' => 0x00f060607c6666fc,
        'Q' | 'q' => 0x001c78dccccccc78,
        'R' | 'r' => 0x00e6666c7c6666fc,
        'S' | 's' => 0x0078cc1c70e0cc78,
        'T' | 't' => 0x007830303030b4fc,
        'U' | 'u' => 0x00fccccccccccccc,
        'V' | 'v' => 0x003078cccccccccc,
        'W' | 'w' => 0x00c6eefed6c6c6c6,
        'X' | 'x' => 0x00c66c38386cc6c6,
        'Y' | 'y' => 0x0078303078cccccc,
        'Z' | 'z' => 0x00fe6632188cc6fe,
        '0' => 0x007ce6f6decec67c,
        '1' => 0x00fc303030307030,
        '2' => 0x00fccc60380ccc78,
        '3' => 0x0078cc0c380ccc78,
        '4' => 0x001e0cfecc6c3c1c,
        '5' => 0x0078cc0c0cf8c0fc,
        '6' => 0x0078ccccf8c06038,
        '7' => 0x00303030180cccfc,
        '8' => 0x0078cccc78cccc78,
        '9' => 0x0070180c7ccccc78,
        _ => 0x00aa55aa55aa55aa,
    }
}

/// Whether a glyph pixel at (row, col) is lit.
pub open spec fn spec_glyph_on(c: char, row: int, col: int) -> bool {
    ((spec_glyph_bits(c) >> ((row * 8 + 7 - col) as u64)) & 1) == 1
}

/// Whether a text line `s`, drawn from the left margin in 8-pixel cells,
/// lights the pixel at column `x`, glyph row `row`.
pub open spec fn spec_line_on(s: Seq<char>, x: int, row: int) -> bool {
    &&& x >= TEXT_MARGIN_X
    &&& (x - TEXT_MARGIN_X) / 8 < s.len()
    &&& spec_glyph_on(s[(x - TEXT_MARGIN_X) / 8], row, (x - TEXT_MARGIN_X) % 8)
}

// --- per-pixel source color ---

/// First row of the text band.
pub open spec fn spec_band_top(res: Resolution) -> int {
    if res.height > TEXT_BAND_ROWS {
        res.height - TEXT_BAND_ROWS
    } else {
        0
    }
}

/// Color of a pixel inside the text band: title line, artist line, or the
/// band's own background.
pub open spec fn spec_band_pixel(
    title: Seq<char>,
    artist: Seq<char>,
    res: Resolution,
    x: int,
    y: int,
) -> (u8, u8, u8) {
    let by = y - spec_band_top(res);
    if TITLE_ROW as int <= by && by < TITLE_ROW as int + 8 {
        if spec_line_on(title, x, by - TITLE_ROW as int) {
            (240u8, 240u8, 240u8)
        } else {
            (8u8, 8u8, 8u8)
        }
    } else if ARTIST_ROW as int <= by && by < ARTIST_ROW as int + 8 {
        if spec_line_on(artist, x, by - ARTIST_ROW as int) {
            (200u8, 200u8, 200u8)
        } else {
            (8u8, 8u8, 8u8)
        }
    } else {
        (8u8, 8u8, 8u8)
    }
}

/// Art sample for target pixel (x, y): integer aspect-fit center-crop to the
/// largest centered square, then nearest-neighbor into the target grid.
pub open spec fn spec_art_sample(a: ArtContent, res: Resolution, x: int, y: int) -> (u8, u8, u8) {
    let side = if a.width <= a.height {
        a.width
    } else {
        a.height
    };
    let sx = (a.width - side) / 2 + (x * side) / (res.width as int);
    let sy = (a.height - side) / 2 + (y * side) / (res.height as int);
    let idx = (sy * a.width + sx) * 3;
    (a.pixels[idx], a.pixels[idx + 1], a.pixels[idx + 2])
}

/// Source color of target pixel (x, y) before quantization: text band at the
/// bottom; above it, sampled art when usable, else the solid background.
pub open spec fn spec_source_pixel(
    title: Seq<char>,
    artist: Seq<char>,
    art: Option<ArtContent>,
    res: Resolution,
    x: int,
    y: int,
) -> (u8, u8, u8) {
    if y >= spec_band_top(res) {
        spec_band_pixel(title, artist, res, x, y)
    } else {
        match art {
            Some(a) => if spec_art_valid(a) {
                spec_art_sample(a, res, x, y)
            } else {
                (12u8, 16u8, 24u8)
            },
            None => (12u8, 16u8, 24u8),
        }
    }
}

// --- RGB565 quantization ---

/// 8-bit channel to 5 bits, round-to-nearest.
pub open spec fn spec_q5(v: u8) -> int {
    (v * 31 + 127) / 255
}

/// 8-bit channel to 6 bits, round-to-nearest.
pub open spec fn spec_q6(v: u8) -> int {
    (v * 63 + 127) / 255
}

/// Packed RGB565 value of a source color.
pub open spec fn spec_rgb565(p: (u8, u8, u8)) -> int {
    spec_q5(p.0) * 2048 + spec_q6(p.1) * 32 + spec_q5(p.2)
}

/// Byte `i` of the encoded frame: pixel `i / 2` in row-major order, low
/// byte first.
pub open spec fn spec_byte_at(c: FrameContent, res: Resolution, i: int) -> u8 {
    let w = res.width as int;
    let p = i / 2;
    let v = spec_rgb565(spec_source_pixel(c.title, c.artist, c.art, res, p % w, p / w));
    if i % 2 == 0 {
        (v % 256) as u8
    } else {
        (v / 256) as u8
    }
}

/// The encoded frame: raw RGB565, little-endian per pixel, row-major,
/// exactly `width * height * 2` bytes. A pure function of frame content.
pub open spec fn spec_encode(c: FrameContent, res: Resolution) -> Seq<u8> {
    Seq::new((res.width as nat) * (res.height as nat) * 2, |i: int| spec_byte_at(c, res, i))
}

// --- executable rendering ---

/// The characters of a string, as a vector.
fn chars_of(s: &str) -> (v: Vec<char>)
    ensures
        v@ == s@,
{
    let n = s.unicode_len();
    let mut v: Vec<char> = Vec::new();
    let mut i: usize = 0;
    while i < n
        invariant
            n == s@.len(),
            i <= n,
            v@ =~= s@.subrange(0, i as int),
        decreases n - i,
    {
        v.push(s.get_char(i));
        i = i + 1;
    }
    proof {
        assert(v@ =~= s@);
    }
    v
}

/// Whether a glyph pixel is lit, executable.
fn glyph_on(c: char, row: u16, col: u16) -> (b: bool)
    requires
        row < 8,
        col < 8,
    ensures
        b == spec_glyph_on(c, row as int, col as int),
{
    let sh: u16 = row * 8 + 7 - col;
    ((glyph_bits(c) >> (sh as u64)) & 1) == 1
}

/// Whether a text line lights the pixel at column `x`, glyph row `row`.
fn line_on(chars: &Vec<char>, x: u16, row: u16) -> (b: bool)
    requires
        row < 8,
    ensures
        b == spec_line_on(chars@, x as int, row as int),
{
    if x < TEXT_MARGIN_X {
        return false;
    }
    let dx: u16 = x - TEXT_MARGIN_X;
    let ci: usize = (dx / 8) as usize;
    let col: u16 = dx % 8;
    if ci < chars.len() {
        glyph_on(chars[ci], row, col)
    } else {
        false
    }
}

/// Color of a text-band pixel, executable.
fn band_pixel(title: &Vec<char>, artist: &Vec<char>, res: Resolution, x: u16, y: u16) -> (r: (
    u8,
    u8,
    u8,
))
    requires
        y as int >= spec_band_top(res),
    ensures
        r == spec_band_pixel(title@, artist@, res, x as int, y as int),
{
    let band_top: u16 = if res.height > TEXT_BAND_ROWS {
        res.height - TEXT_BAND_ROWS
    } else {
        0
    };
    let by: u16 = y - band_top;
    if TITLE_ROW <= by && by < TITLE_ROW + 8 {
        if line_on(title, x, by - TITLE_ROW) {
            (240u8, 240u8, 240u8)
        } else {
            (8u8, 8u8, 8u8)
        }
    } else if ARTIST_ROW <= by && by < ARTIST_ROW + 8 {
        if line_on(artist, x, by - ARTIST_ROW) {
            (200u8, 200u8, 200u8)
        } else {
            (8u8, 8u8, 8u8)
        }
    } else {
        (8u8, 8u8, 8u8)
    }
}

/// Art sample for a target pixel, executable.
fn art_sample(a: &ArtImage, res: Resolution, x: u16, y: u16) -> (r: (u8, u8, u8))
    requires
        spec_art_valid(ArtContent { width: a.width as int, height: a.height as int, pixels: a.pixels@ }),
        x < res.width,
        y < res.height,
    ensures
        r == spec_art_sample(
            ArtContent { width: a.width as int, height: a.height as int, pixels: a.pixels@ },
            res,
            x as int,
            y as int,
        ),
{
    let w64: u64 = a.width as u64;
    let h64: u64 = a.height as u64;
    let side: u64 = if w64 <= h64 {
        w64
    } else {
        h64
    };
    let offx: u64 = (w64 - side) / 2;
    let offy: u64 = (h64 - side) / 2;
    proof {
        // x * side stays far below u64::MAX, and (x * side) / width < side
        assert((x as int) * (side as int) <= 65535 * (side as int)) by (nonlinear_arith)
            requires
                0 <= x as int && x as int <= 65535,
                0 <= side as int,
        ;
        assert((x as int) * (side as int) < (res.width as int) * (side as int)) by (nonlinear_arith)
            requires
                0 <= x as int && (x as int) < res.width as int,
                0 < side as int,
        ;
        lemma_multiply_divide_lt((x as int) * (side as int), res.width as int, side as int);
        assert((y as int) * (side as int) <= 65535 * (side as int)) by (nonlinear_arith)
            requires
                0 <= y as int && y as int <= 65535,
                0 <= side as int,
        ;
        assert((y as int) * (side as int) < (res.height as int) * (side as int))
            by (nonlinear_arith)
            requires
                0 <= y as int && (y as int) < res.height as int,
                0 < side as int,
        ;
        lemma_multiply_divide_lt((y as int) * (side as int), res.height as int, side as int);
        // the centering offset leaves room for a full square
        vstd::arithmetic::div_mod::lemma_fundamental_div_mod(w64 as int - side as int, 2);
        vstd::arithmetic::div_mod::lemma_fundamental_div_mod(h64 as int - side as int, 2);
    }
    let sx: u64 = offx + (x as u64 * side) / (res.width as u64);
    let sy: u64 = offy + (y as u64 * side) / (res.height as u64);
    proof {
        assert(sx < w64);
        assert(sy < h64);
        assert((sy as int) * (w64 as int) + (sx as int) < (h64 as int) * (w64 as int))
            by (nonlinear_arith)
            requires
                0 <= sx as int && (sx as int) < w64 as int,
                0 <= sy as int && (sy as int) < h64 as int,
        ;
        assert((h64 as int) * (w64 as int) == (w64 as int) * (h64 as int)) by (nonlinear_arith);
        assert((w64 as int) * (h64 as int) <= MAX_ART_PIXELS as int);
        assert(((sy as int) * (w64 as int) + (sx as int)) * 3 + 2 < (w64 as int) * (h64 as int)
            * 3);
        assert(a.pixels@.len() == (w64 as int) * (h64 as int) * 3);
    }
    let idx: usize = ((sy * w64 + sx) * 3) as usize;
    (a.pixels[idx], a.pixels[idx + 1], a.pixels[idx + 2])
}

/// Source color of a target pixel, executable.
fn source_pixel(
    title: &Vec<char>,
    artist: &Vec<char>,
    art: &Option<ArtImage>,
    res: Resolution,
    x: u16,
    y: u16,
) -> (r: (u8, u8, u8))
    requires
        x < res.width,
        y < res.height,
    ensures
        r == spec_source_pixel(title@, artist@, spec_art_content(*art), res, x as int, y as int),
{
    let band_top: u16 = if res.height > TEXT_BAND_ROWS {
        res.height - TEXT_BAND_ROWS
    } else {
        0
    };
    if y >= band_top {
        band_pixel(title, artist, res, x, y)
    } else {
        match art {
            Some(a) => if art_usable(a) {
                art_sample(a, res, x, y)
            } else {
                (12u8, 16u8, 24u8)
            },
            None => (12u8, 16u8, 24u8),
        }
    }
}

/// Packed RGB565 value of a source color, executable.
fn quantize565(p: (u8, u8, u8)) -> (v: u32)
    ensures
        v as int == spec_rgb565(p),
        v < 65536,
{
    let r5: u32 = ((p.0 as u32) * 31 + 127) / 255;
    let g6: u32 = ((p.1 as u32) * 63 + 127) / 255;
    let b5: u32 = ((p.2 as u32) * 31 + 127) / 255;
    proof {
        vstd::arithmetic::div_mod::lemma_div_is_ordered(
            (p.0 as int) * 31 + 127,
            8032,
            255,
        );
        vstd::arithmetic::div_mod::lemma_div_is_ordered(
            (p.1 as int) * 63 + 127,
            16192,
            255,
        );
        vstd::arithmetic::div_mod::lemma_div_is_ordered(
            (p.2 as int) * 31 + 127,
            8032,
            255,
        );
    }
    r5 * 2048 + g6 * 32 + b5
}

/// Render a frame into the device's wire pixel format. Deterministic in the
/// frame's content; the output is always exactly `width * height * 2` bytes.
pub fn encode(frame: &NowPlayingFrame, res: Resolution) -> (r: Vec<u8>)
    requires
        (res.width as int) * (res.height as int) * 2 <= usize::MAX as int,
    ensures
        r@ == spec_encode(spec_content(*frame), res),
        r@.len() == (res.width as int) * (res.height as int) * 2,
{
    let ghost c = spec_content(*frame);
    let title_chars = chars_of(frame.title.as_str());
    let artist_chars = chars_of(frame.artist.as_str());
    let w = res.width;
    let h = res.height;
    let mut out: Vec<u8> = Vec::new();
    let mut y: u16 = 0;
    while y < h
        invariant
            w == res.width,
            h == res.height,
            title_chars@ == c.title,
            artist_chars@ == c.artist,
            spec_art_content(frame.art) == c.art,
            c == spec_content(*frame),
            (w as int) * (h as int) * 2 <= usize::MAX as int,
            y <= h,
            out@.len() == 2 * ((y as int) * (w as int)),
            forall|k: int| 0 <= k < out@.len() ==> out@[k] == spec_byte_at(c, res, k),
        decreases h - y,
    {
        let mut x: u16 = 0;
        while x < w
            invariant
                w == res.width,
                h == res.height,
                title_chars@ == c.title,
                artist_chars@ == c.artist,
                spec_art_content(frame.art) == c.art,
                c == spec_content(*frame),
                (w as int) * (h as int) * 2 <= usize::MAX as int,
                y < h,
                x <= w,
                out@.len() == 2 * ((y as int) * (w as int) + x as int),
                forall|k: int| 0 <= k < out@.len() ==> out@[k] == spec_byte_at(c, res, k),
            decreases w - x,
        {
            let px = source_pixel(&title_chars, &artist_chars, &frame.art, res, x, y);
            let v = quantize565(px);
            let ghost p = (y as int) * (w as int) + (x as int);
            proof {
                assert(0 <= p) by (nonlinear_arith)
                    requires
                        0 <= y as int,
                        0 <= x as int,
                        0 <= w as int,
                        p == (y as int) * (w as int) + (x as int),
                ;
                lemma_fundamental_div_mod_converse_div(2 * p, 2, p, 0);
                lemma_fundamental_div_mod_converse_mod(2 * p, 2, p, 0);
                lemma_fundamental_div_mod_converse_div(2 * p + 1, 2, p, 1);
                lemma_fundamental_div_mod_converse_mod(2 * p + 1, 2, p, 1);
                lemma_fundamental_div_mod_converse_div(p, w as int, y as int, x as int);
                lemma_fundamental_div_mod_converse_mod(p, w as int, y as int, x as int);
                assert(spec_byte_at(c, res, 2 * p) == (spec_rgb565(
                    spec_source_pixel(c.title, c.artist, c.art, res, x as int, y as int),
                ) % 256) as u8);
                assert(spec_byte_at(c, res, 2 * p + 1) == (spec_rgb565(
                    spec_source_pixel(c.title, c.artist, c.art, res, x as int, y as int),
                ) / 256) as u8);
            }
            out.push((v % 256) as u8);
            out.push((v / 256) as u8);
            x = x + 1;
        }
        proof {
            assert(2 * ((y as int) * (w as int) + w as int) == 2 * ((y as int + 1) * (w as int)))
                by (nonlinear_arith);
        }
        y = y + 1;
    }
    proof {
        assert((res.width as int) * (res.height as int) * 2 == 2 * ((h as int) * (w as int)))
            by (nonlinear_arith)
            requires
                w == res.width,
                h == res.height,
        ;
        assert(spec_encode(c, res).len() == out@.len());
        assert(out@ =~= spec_encode(c, res));
    }
    out
}

// --- wire header ---

/// The 8-byte payload header the device validates a frame against:
/// width, height (16-bit little-endian) and generation (32-bit little-endian).
pub open spec fn spec_header(width: u16, height: u16, generation: u32) -> Seq<u8> {
    seq![
        (width as int % 256) as u8,
        (width as int / 256) as u8,
        (height as int % 256) as u8,
        (height as int / 256) as u8,
        (generation as int % 256) as u8,
        (generation as int / 256 % 256) as u8,
        (generation as int / 65536 % 256) as u8,
        (generation as int / 16777216) as u8,
    ]
}

/// Build the payload header.
pub fn encode_header(width: u16, height: u16, generation: u32) -> (r: Vec<u8>)
    ensures
        r@ == spec_header(width, height, generation),
        r@.len() == 8,
{
    let mut v: Vec<u8> = Vec::new();
    v.push((width % 256) as u8);
    v.push((width / 256) as u8);
    v.push((height % 256) as u8);
    v.push((height / 256) as u8);
    v.push((generation % 256) as u8);
    v.push((generation / 256 % 256) as u8);
    v.push((generation / 65536 % 256) as u8);
    v.push((generation / 16777216) as u8);
    proof {
        assert(v@ =~= spec_header(width, height, generation));
    }
    v
}

/// Read a payload header back; `None` unless the slice is exactly 8 bytes.
pub fn decode_header(bytes: &[u8]) -> (r: Option<(u16, u16, u32)>)
    ensures
        r is Some <==> bytes@.len() == 8,
        bytes@.len() == 8 ==> r == Some(
            (
                (bytes@[0] + 256 * bytes@[1]) as u16,
                (bytes@[2] + 256 * bytes@[3]) as u16,
                (bytes@[4] + 256 * bytes@[5] + 65536 * bytes@[6] + 16777216 * bytes@[7]) as u32,
            ),
        ),
{
    if bytes.len() != 8 {
        return None;
    }
    let w: u16 = bytes[0] as u16 + 256 * (bytes[1] as u16);
    let h: u16 = bytes[2] as u16 + 256 * (bytes[3] as u16);
    let g: u32 = bytes[4] as u32 + 256 * (bytes[5] as u32) + 65536 * (bytes[6] as u32) + 16777216
        * (bytes[7] as u32);
    Some((w, h, g))
}

/// The header round-trips: reading back the bytes of `spec_header` yields
/// the width, height and generation that were written, so a device can
/// validate frame integrity and detect resolution mismatches.
pub proof fn lemma_header_roundtrip(width: u16, height: u16, generation: u32)
    ensures
        spec_header(width, height, generation).len() == 8,
        spec_header(width, height, generation)[0] + 256 * spec_header(
            width,
            height,
            generation,
        )[1] == width,
        spec_header(width, height, generation)[2] + 256 * spec_header(
            width,
            height,
            generation,
        )[3] == height,
        spec_header(width, height, generation)[4] + 256 * spec_header(width, height, generation)[5]
            + 65536 * spec_header(width, height, generation)[6] + 16777216 * spec_header(
            width,
            height,
            generation,
        )[7] == generation,
{
    assert(width % 256 + 256 * (width / 256) == width) by (bit_vector);
    assert(height % 256 + 256 * (height / 256) == height) by (bit_vector);
    assert(generation % 256 + 256 * (generation / 256 % 256) + 65536 * (generation / 65536 % 256)
        + 16777216 * (generation / 16777216) == generation) by (bit_vector);
}

/// The full image payload for the wire: header, then raw RGB565 pixels.
pub fn frame_payload(width: u16, height: u16, generation: u32, pixels: &Vec<u8>) -> (r: Vec<u8>)
    ensures
        r@ == spec_header(width, height, generation) + pixels@,
{
    let mut v = encode_header(width, height, generation);
    let mut i: usize = 0;
    let n = pixels.len();
    proof {
        assert(v@ =~= spec_header(width, height, generation) + pixels@.subrange(0, 0));
    }
    while i < n
        invariant
            n == pixels@.len(),
            i <= n,
            v@ == spec_header(width, height, generation) + pixels@.subrange(0, i as int),
        decreases n - i,
    {
        proof {
            assert(spec_header(width, height, generation) + pixels@.subrange(0, i as int + 1)
                =~= (spec_header(width, height, generation) + pixels@.subrange(0, i as int)).push(
                pixels@[i as int],
            ));
        }
        v.push(pixels[i]);
        i = i + 1;
    }
    proof {
        assert(pixels@.subrange(0, n as int) =~= pixels@);
    }
    v
}

/// Encoding is deterministic: two frames with equal content encode to
/// byte-identical output and carry the same fingerprint, at any resolution.
pub proof fn lemma_encode_deterministic(
    f1: NowPlayingFrame,
    f2: NowPlayingFrame,
    res: Resolution,
)
    requires
        spec_content(f1) == spec_content(f2),
    ensures
        spec_encode(spec_content(f1), res) == spec_encode(spec_content(f2), res),
        spec_fingerprint(spec_content(f1)) == spec_fingerprint(spec_content(f2)),
{
}

} // verus!
