//! Console bitmap fonts (PSF): parsing and glyph lookup.
//!
//! Two layouts are read. The legacy one starts with `0x36 0x04`, then a mode
//! byte that gives 256 or 512 glyphs and a byte that gives the glyph height;
//! glyphs are 8 pixels wide. The extended one starts with
//! `0x72 0xB5 0x4A 0x86` and has a 32-byte header of little-endian fields.
//! The glyph table follows the header: one block of `height * byte_width`
//! bytes per glyph, rows top to bottom, the leftmost pixel in the most
//! significant bit.
use vstd::prelude::*;
use vstd::string::StringSliceAdditionalSpecFns;

verus! {

/// Version that an extended-layout header must carry.
pub const PSF2_VERSION: u32 = 0;

/// Size of an extended-layout header, which is also where its glyphs start.
pub const PSF2_HEADER_SIZE: u32 = 0x20;

/// Why a font could not be had.
#[derive(Debug, Clone, Copy, PartialEq, Eq, Structural)]
pub enum Error {
    Unknown,
    FileNotFound,
    FileIo,
    /// A bad magic number or header field.
    InvalidFontFormat,
    /// The data ends before the glyph table that the header announces.
    Truncated,
}

/// The layout that a font header announces.
pub struct Header {
    pub count: nat,
    pub width: nat,
    pub height: nat,
    pub byte_width: nat,
    pub data_start: nat,
}

/// Little-endian 16-bit value at `at`.
pub open spec fn le_u16(raw: Seq<u8>, at: int) -> int {
    raw[at] + raw[at + 1] * 256
}

/// Little-endian 32-bit value at `at`.
pub open spec fn le_u32(raw: Seq<u8>, at: int) -> int {
    raw[at] + raw[at + 1] * 256 + raw[at + 2] * 65536 + raw[at + 3] * 16777216
}

/// Glyph count of a legacy font by its mode byte.
pub open spec fn legacy_count(mode: u8) -> Option<nat> {
    if mode == 0 || mode == 2 {
        Some(256)
    } else if mode == 1 || mode == 3 {
        Some(512)
    } else {
        None
    }
}

/// The header of a legacy font (first byte `0x36`).
pub open spec fn legacy_header(raw: Seq<u8>) -> Result<Header, Error> {
    if raw.len() < 4 || raw[1] != 0x04 || legacy_count(raw[2]) is None {
        Err(Error::InvalidFontFormat)
    } else {
        Ok(
            Header {
                count: legacy_count(raw[2])->0,
                width: 8,
                height: raw[3] as nat,
                byte_width: 1,
                data_start: 4,
            },
        )
    }
}

/// The header of an extended font (first byte `0x72`): the rest of the magic,
/// version, header size, flags (ignored), a 16-bit glyph count and two
/// ignored bytes, the glyph size in bytes (ignored), height, width.
pub open spec fn extended_header(raw: Seq<u8>) -> Result<Header, Error> {
    if raw.len() < 32 || raw[1] != 0xB5 || raw[2] != 0x4A || raw[3] != 0x86 || le_u32(raw, 4)
        != PSF2_VERSION || le_u32(raw, 8) != PSF2_HEADER_SIZE {
        Err(Error::InvalidFontFormat)
    } else {
        Ok(
            Header {
                count: le_u16(raw, 16) as nat,
                width: le_u32(raw, 28) as nat,
                height: le_u32(raw, 24) as nat,
                byte_width: ((le_u32(raw, 28) + 7) / 8) as nat,
                data_start: 32,
            },
        )
    }
}

/// The header of a font of either layout, told apart by the first byte.
pub open spec fn parse_header(raw: Seq<u8>) -> Result<Header, Error> {
    if raw.len() == 0 {
        Err(Error::InvalidFontFormat)
    } else if raw[0] == 0x36 {
        legacy_header(raw)
    } else if raw[0] == 0x72 {
        extended_header(raw)
    } else {
        Err(Error::InvalidFontFormat)
    }
}

/// Bytes of one glyph.
pub open spec fn glyph_size(h: Header) -> nat {
    h.height * h.byte_width
}

/// A parsed font: its glyphs' bytes, indexed by character code, and the
/// glyph dimensions shared by all of them.
pub struct FontView {
    pub glyphs: Seq<Seq<u8>>,
    pub width: nat,
    pub height: nat,
    pub byte_width: nat,
}

/// The font that `raw` holds, or why it holds none.
pub open spec fn parse_spec(raw: Seq<u8>) -> Result<FontView, Error> {
    match parse_header(raw) {
        Err(e) => Err(e),
        Ok(h) => {
            if raw.len() < h.data_start + h.count * glyph_size(h) {
                Err(Error::Truncated)
            } else {
                Ok(
                    FontView {
                        glyphs: Seq::new(
                            h.count,
                            |i: int|
                                raw.subrange(
                                    h.data_start + i * glyph_size(h),
                                    h.data_start + (i + 1) * glyph_size(h),
                                ),
                        ),
                        width: h.width,
                        height: h.height,
                        byte_width: h.byte_width,
                    },
                )
            }
        },
    }
}

/// Block `i` of `n` blocks of `g` items each lies within the first `n * g` items.
proof fn lemma_block_bounds(i: int, n: int, g: int)
    requires
        0 <= i < n,
        0 <= g,
    ensures
        0 <= i * g,
        (i + 1) * g == i * g + g,
        (i + 1) * g <= n * g,
{
    assert(0 <= i * g) by (nonlinear_arith)
        requires
            0 <= i,
            0 <= g,
    ;
    assert((i + 1) * g == i * g + g) by (nonlinear_arith);
    assert((i + 1) * g <= n * g) by (nonlinear_arith)
        requires
            i < n,
            0 <= g,
    ;
}

/// A legacy font parses exactly when its mode byte is one of the four known
/// and the data holds the whole glyph table; it then has as many glyphs as
/// the mode byte announces, each of `height * byte_width` bytes, with a byte
/// width of 1.
pub proof fn lemma_legacy_glyph_table(raw: Seq<u8>)
    requires
        raw.len() >= 4,
        raw[0] == 0x36,
        raw[1] == 0x04,
    ensures
        parse_spec(raw) is Ok <==> legacy_count(raw[2]) is Some && raw.len() >= 4
            + legacy_count(raw[2])->0 * raw[3],
        parse_spec(raw) matches Ok(f) ==> {
            &&& f.glyphs.len() == legacy_count(raw[2])->0
            &&& f.height == raw[3]
            &&& f.width == 8
            &&& f.byte_width == 1
            &&& forall|i: int| 0 <= i < f.glyphs.len() ==> #[trigger] f.glyphs[i].len() == f.height * f.byte_width
        },
{
    if legacy_count(raw[2]) is Some {
        assert(glyph_size(parse_header(raw)->Ok_0) == raw[3]);
    }
    if parse_spec(raw) is Ok {
        let f = parse_spec(raw)->Ok_0;
        let h = parse_header(raw)->Ok_0;
        assert forall|i: int| 0 <= i < f.glyphs.len() implies #[trigger] f.glyphs[i].len()
            == f.height * f.byte_width by {
            lemma_block_bounds(i, h.count as int, glyph_size(h) as int);
        }
    }
}

/// An extended font whose header size is not `0x20` does not parse, and
/// fails as an invalid format.
pub proof fn lemma_extended_header_size(raw: Seq<u8>)
    requires
        raw.len() >= 12,
        raw[0] == 0x72,
        le_u32(raw, 8) != 0x20,
    ensures
        parse_spec(raw) == Err::<FontView, Error>(Error::InvalidFontFormat),
{
}

/// Pixel `(row, col)` of glyph `code`, as 0 or 1: bit `7 - col % 8` of byte
/// `row * byte_width + col / 8` of the glyph.
pub open spec fn glyph_bit(f: FontView, code: int, row: int, col: int) -> u8 {
    (f.glyphs[code][row * f.byte_width + col / 8] >> ((7 - col % 8) as u8)) & 1
}

/// A two-dimensional grid stored row by row: cell `(x, y)` is `d[y * width + x]`.
#[derive(Debug)]
pub struct Vec2d<T> {
    pub d: Vec<T>,
    pub height: usize,
    pub width: usize,
}

/// A bitmap font.
pub struct Font {
    data: Vec<Vec<u8>>,
    width: usize,
    height: usize,
    byte_width: usize,
}

impl View for Font {
    type V = FontView;

    closed spec fn view(&self) -> FontView {
        FontView {
            glyphs: self.data@.map_values(|g: Vec<u8>| g@),
            width: self.width as nat,
            height: self.height as nat,
            byte_width: self.byte_width as nat,
        }
    }
}

/// The value of a parse result.
pub open spec fn result_view(r: Result<Font, Error>) -> Result<FontView, Error> {
    match r {
        Ok(f) => Ok(f@),
        Err(e) => Err(e),
    }
}

impl Font {
    /// Well-formedness: width and height fit in 32 bits, the byte width
    /// covers the width, and every glyph has `height * byte_width` bytes.
    pub open spec fn wf(&self) -> bool {
        &&& self@.width < 0x1_0000_0000
        &&& self@.height < 0x1_0000_0000
        &&& self@.byte_width == (self@.width + 7) / 8
        &&& forall|i: int|
            0 <= i < self@.glyphs.len() ==> #[trigger] self@.glyphs[i].len() == self@.height
                * self@.byte_width
    }

    /// Glyph height in pixels.
    pub fn height(&self) -> (r: usize)
        ensures
            r == self@.height,
    {
        self.height
    }

    /// Glyph width in pixels.
    pub fn width(&self) -> (r: usize)
        ensures
            r == self@.width,
    {
        self.width
    }

    /// Number of glyphs in the font.
    pub fn size(&self) -> (r: usize)
        ensures
            r == self@.glyphs.len(),
    {
        self.data.len()
    }

    /// Byte of glyph `code` that holds pixel `(row, col)`, and the bit of it.
    pub(crate) fn pixel(&self, code: usize, row: usize, col: usize) -> (r: u8)
        requires
            self.wf(),
            code < self@.glyphs.len(),
            row < self@.height,
            col < self@.width,
        ensures
            r == glyph_bit(self@, code as int, row as int, col as int),
    {
        let glyph = &self.data[code];
        let glen = glyph.len();
        proof {
            assert(glyph@ == self@.glyphs[code as int]);
            assert(col / 8 < self.byte_width);
            assert(row * self.byte_width + col / 8 < self.height * self.byte_width) by (nonlinear_arith)
                requires
                    row < self.height,
                    col / 8 < self.byte_width,
            ;
            assert(glen == self.height * self.byte_width);
        }
        let b = glyph[row * self.byte_width + col / 8];
        (b >> ((7 - col % 8) as u8)) & 1
    }

    /// The pixels of the glyph for `c`, one 0 or 1 per cell; none where the
    /// font has no glyph of that code.
    pub fn get_char(&self, c: char) -> (r: Option<Vec2d<u8>>)
        requires
            self.wf(),
        ensures
            match r {
                None => c as u32 as int >= self@.glyphs.len(),
                Some(g) => {
                    &&& (c as u32 as int) < self@.glyphs.len()
                    &&& g.width == self@.width
                    &&& g.height == self@.height
                    &&& g.d@.len() == self@.height * self@.width
                    &&& forall|row: int, col: int|
                        0 <= row < self@.height && 0 <= col < self@.width ==> g.d@[row
                            * self@.width + col] == #[trigger] glyph_bit(self@, c as u32 as int, row, col)
                },
            },
    {
        let code = c as u32 as usize;
        if code >= self.data.len() {
            return None;
        }
        let w = self.width;
        let h = self.height;
        let mut d: Vec<u8> = Vec::new();
        let mut row: usize = 0;
        while row < h
            invariant
                self.wf(),
                code < self@.glyphs.len(),
                w == self@.width,
                h == self@.height,
                row <= h,
                d@.len() == row * w,
                forall|r2: int, c2: int|
                    0 <= r2 < row && 0 <= c2 < w ==> d@[r2 * w + c2] == #[trigger] glyph_bit(
                        self@,
                        code as int,
                        r2,
                        c2,
                    ),
            decreases h - row,
        {
            let mut col: usize = 0;
            while col < w
                invariant
                    self.wf(),
                    code < self@.glyphs.len(),
                    w == self@.width,
                    h == self@.height,
                    row < h,
                    col <= w,
                    d@.len() == row * w + col,
                    forall|r2: int, c2: int|
                        (0 <= r2 < row && 0 <= c2 < w) || (r2 == row && 0 <= c2 < col) ==> d@[r2 * w
                            + c2] == #[trigger] glyph_bit(self@, code as int, r2, c2),
                decreases w - col,
            {
                let bit = self.pixel(code, row, col);
                let ghost before = d@;
                d.push(bit);
                proof {
                    assert forall|r2: int, c2: int|
                        (0 <= r2 < row && 0 <= c2 < w) || (r2 == row && 0 <= c2 <= col) implies d@[r2
                        * w + c2] == #[trigger] glyph_bit(self@, code as int, r2, c2) by {
                        if r2 < row {
                            assert(r2 * w + c2 < row * w) by (nonlinear_arith)
                                requires
                                    r2 < row,
                                    0 <= c2 < w,
                            ;
                            assert(d@[r2 * w + c2] == before[r2 * w + c2]);
                        } else if c2 < col {
                            assert(d@[r2 * w + c2] == before[r2 * w + c2]);
                        }
                    }
                }
                col = col + 1;
            }
            assert((row + 1) * w == row * w + w) by (nonlinear_arith);
            row = row + 1;
        }
        Some(Vec2d { d, height: h, width: w })
    }

    /// Parses the bytes of a font file of either layout.
    pub fn parse_font_data(raw_data: &[u8]) -> (r: Result<Font, Error>)
        ensures
            result_view(r) == parse_spec(raw_data@),
            r matches Ok(f) ==> f.wf(),
    {
        let len = raw_data.len();
        if len == 0 {
            return Err(Error::InvalidFontFormat);
        }
        let mut count: usize = 0;
        let mut width: usize = 0;
        let mut height: usize = 0;
        let mut byte_width: usize = 0;
        let mut start: usize = 0;
        if raw_data[0] == 0x36 {
            if len < 4 || raw_data[1] != 0x04 {
                return Err(Error::InvalidFontFormat);
            }
            let mode = raw_data[2];
            if mode == 0 || mode == 2 {
                count = 256;
            } else if mode == 1 || mode == 3 {
                count = 512;
            } else {
                return Err(Error::InvalidFontFormat);
            }
            height = raw_data[3] as usize;
            width = 8;
            byte_width = 1;
            start = 4;
        } else if raw_data[0] == 0x72 {
            if len < 32 || raw_data[1] != 0xB5 || raw_data[2] != 0x4A || raw_data[3] != 0x86 {
                return Err(Error::InvalidFontFormat);
            }
            if as_le_u32(raw_data, 4) != PSF2_VERSION {
                return Err(Error::InvalidFontFormat);
            }
            if as_le_u32(raw_data, 8) != PSF2_HEADER_SIZE {
                return Err(Error::InvalidFontFormat);
            }
            // The flags at 12, the two bytes at 18 and the glyph size at 20
            // carry nothing that the glyph table needs.
            count = as_le_u16(raw_data, 16) as usize;
            height = as_le_u32(raw_data, 24) as usize;
            let w32 = as_le_u32(raw_data, 28);
            width = w32 as usize;
            byte_width = ((w32 as u64 + 7) / 8) as usize;
            start = 32;
        } else {
            return Err(Error::InvalidFontFormat);
        }
        let ghost h = parse_header(raw_data@)->Ok_0;
        assert(parse_header(raw_data@) is Ok);
        assert(h.count == count && h.width == width && h.height == height && h.byte_width
            == byte_width && h.data_start == start);
        assert(height < 0x1_0000_0000 && byte_width <= 0x2000_0000 && count < 0x1_0000);
        assert(height * byte_width <= 0xFFFF_FFFF * 0x2000_0000) by (nonlinear_arith)
            requires
                height < 0x1_0000_0000,
                byte_width <= 0x2000_0000,
        ;
        let glyph_bytes: u64 = height as u64 * byte_width as u64;
        assert(count * glyph_bytes <= 0xFFFF * (0xFFFF_FFFF * 0x2000_0000)) by (nonlinear_arith)
            requires
                count < 0x1_0000,
                glyph_bytes <= 0xFFFF_FFFF * 0x2000_0000,
        ;
        let total: u128 = count as u128 * glyph_bytes as u128;
        if ((len - start) as u128) < total {
            return Err(Error::Truncated);
        }
        let size: usize = #[verifier::truncate] (glyph_bytes as usize);
        proof {
            if count > 0 {
                assert(glyph_bytes <= total) by (nonlinear_arith)
                    requires
                        total == count * glyph_bytes,
                        count >= 1,
                ;
            }
        }
        let mut data: Vec<Vec<u8>> = Vec::with_capacity(count);
        let mut pos: usize = start;
        let mut n: usize = 0;
        while n < count
            invariant
                n <= count,
                len == raw_data@.len(),
                count > 0 ==> size == h.height * h.byte_width,
                start + count * size <= len,
                pos == start + n * size,
                data@.len() == n,
                forall|i: int| 0 <= i < n ==> #[trigger] data@[i]@.len() == size,
                forall|i: int|
                    0 <= i < n ==> #[trigger] data@[i]@ == raw_data@.subrange(
                        start + i * size,
                        start + (i + 1) * size,
                    ),
            decreases count - n,
        {
            assert(pos + size <= start + count * size) by (nonlinear_arith)
                requires
                    pos == start + n * size,
                    n < count,
            ;
            let g = get_data(raw_data, pos, size);
            data.push(g);
            assert(pos + size == start + (n + 1) * size) by (nonlinear_arith)
                requires
                    pos == start + n * size,
            ;
            pos = pos + size;
            n = n + 1;
        }
        let font = Font { data, width, height, byte_width };
        assert(font@.glyphs =~= parse_spec(raw_data@)->Ok_0.glyphs);
        Ok(font)
    }
}

/// What `data` decompresses to as a gzip stream: the bytes of its first
/// member, or nothing where `data` does not start with a valid member.
pub uninterp spec fn gunzip_of(data: Seq<u8>) -> Option<Seq<u8>>;

/// Relies on `flate2::read::GzDecoder`, read to its end: it decodes the first
/// gzip member of `data` or fails, and which depends on `data` alone.
#[verifier::external_body]
fn gunzip(data: &[u8]) -> (r: Option<Vec<u8>>)
    ensures
        match r {
            Some(v) => gunzip_of(data@) == Some(v@),
            None => gunzip_of(data@) is None,
        },
{
    let mut out = Vec::new();
    match std::io::Read::read_to_end(&mut flate2::read::GzDecoder::new(data), &mut out) {
        Ok(_) => Some(out),
        Err(_) => None,
    }
}

/// Whether `name` ends with `suffix`.
pub open spec fn ends_with(name: Seq<u8>, suffix: Seq<u8>) -> bool {
    name.len() >= suffix.len() && name.subrange(name.len() - suffix.len(), name.len() as int)
        == suffix
}

/// `.gz`
pub open spec fn gz_suffix() -> Seq<u8> {
    seq![0x2Eu8, 0x67, 0x7A]
}

/// `.psf`
pub open spec fn psf_suffix() -> Seq<u8> {
    seq![0x2Eu8, 0x70, 0x73, 0x66]
}

/// `.psf.gz`
pub open spec fn psf_gz_suffix() -> Seq<u8> {
    psf_suffix() + gz_suffix()
}

/// Whether the bytes of `name` end with those of `suffix`.
fn name_ends_with(name: &str, suffix: &[u8]) -> (r: bool)
    ensures
        r == ends_with(name.spec_bytes(), suffix@),
{
    let b = name.as_bytes();
    let n = b.len();
    let m = suffix.len();
    if n < m {
        return false;
    }
    let mut i: usize = 0;
    while i < m
        invariant
            b@ == name.spec_bytes(),
            n == b@.len(),
            m == suffix@.len(),
            m <= n,
            i <= m,
            forall|k: int| 0 <= k < i ==> b@[n - m + k] == suffix@[k],
        decreases m - i,
    {
        if b[n - m + i] != suffix[i] {
            assert(b@.subrange(n - m, n as int)[i as int] != suffix@[i as int]);
            return false;
        }
        i = i + 1;
    }
    assert(b@.subrange(n - m, n as int) =~= suffix@);
    true
}

/// Whether a file of this name holds gzip-compressed data: it ends in `.gz`.
pub fn is_gzip_name(file_name: &str) -> (r: bool)
    ensures
        r == ends_with(file_name.spec_bytes(), gz_suffix()),
{
    let suffix: [u8; 3] = [0x2E, 0x67, 0x7A];
    assert(suffix@ =~= gz_suffix());
    name_ends_with(file_name, &suffix)
}

/// Whether a file of this name is a console font: it ends in `.psf` or `.psf.gz`.
pub fn is_psf_name(file_name: &str) -> (r: bool)
    ensures
        r == (ends_with(file_name.spec_bytes(), psf_suffix()) || ends_with(
            file_name.spec_bytes(),
            psf_gz_suffix(),
        )),
{
    let plain: [u8; 4] = [0x2E, 0x70, 0x73, 0x66];
    let packed: [u8; 7] = [0x2E, 0x70, 0x73, 0x66, 0x2E, 0x67, 0x7A];
    assert(plain@ =~= psf_suffix());
    assert(packed@ =~= psf_gz_suffix());
    name_ends_with(file_name, &plain) || name_ends_with(file_name, &packed)
}

impl Font {
    /// The font in the contents `data` of a file named `file_name`: a name
    /// ending in `.gz` has the contents decompressed first, and a stream that
    /// does not decompress is an I/O failure.
    pub fn from_file_data(file_name: &str, data: &[u8]) -> (r: Result<Font, Error>)
        ensures
            ends_with(file_name.spec_bytes(), gz_suffix()) ==> result_view(r) == match gunzip_of(data@) {
                Some(d) => parse_spec(d),
                None => Err(Error::FileIo),
            },
            !ends_with(file_name.spec_bytes(), gz_suffix()) ==> result_view(r) == parse_spec(data@),
            r matches Ok(f) ==> f.wf(),
    {
        if is_gzip_name(file_name) {
            match gunzip(data) {
                Some(d) => Font::parse_font_data(d.as_slice()),
                None => Err(Error::FileIo),
            }
        } else {
            Font::parse_font_data(data)
        }
    }
}

/// Little-endian 32-bit value at `pos`.
fn as_le_u32(raw: &[u8], pos: usize) -> (r: u32)
    requires
        pos + 4 <= raw@.len(),
    ensures
        r == le_u32(raw@, pos as int),
{
    raw[pos] as u32 + raw[pos + 1] as u32 * 256 + raw[pos + 2] as u32 * 65536 + raw[pos + 3] as u32
        * 16777216
}

/// The `count` bytes from `pos` on.
fn get_data(raw: &[u8], pos: usize, count: usize) -> (r: Vec<u8>)
    requires
        pos + count <= raw@.len(),
    ensures
        r@ == raw@.subrange(pos as int, pos + count),
{
    let len = raw.len();
    let mut v: Vec<u8> = Vec::with_capacity(count);
    let mut k: usize = 0;
    while k < count
        invariant
            k <= count,
            len == raw@.len(),
            pos + count <= raw@.len(),
            v@ == raw@.subrange(pos as int, pos + k),
        decreases count - k,
    {
        v.push(raw[pos + k]);
        k = k + 1;
        assert(v@ =~= raw@.subrange(pos as int, pos + k));
    }
    v
}

/// Little-endian 16-bit value at `pos`.
fn as_le_u16(raw: &[u8], pos: usize) -> (r: u16)
    requires
        pos + 2 <= raw@.len(),
    ensures
        r == le_u16(raw@, pos as int),
{
    raw[pos] as u16 + raw[pos + 1] as u16 * 256
}

} // verus!
