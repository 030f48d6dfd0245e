use ssd1305::psf::{is_gzip_name, is_psf_name, Error, Font};
use std::io::Write;

fn legacy_font(mode: u8, height: u8, glyph_bytes: usize) -> Vec<u8> {
    let mut raw = vec![0x36, 0x04, mode, height];
    for i in 0..glyph_bytes {
        raw.push((i % 251) as u8);
    }
    raw
}

fn extended_header(version: u32, header_size: u32, count: u16, height: u32, width: u32) -> Vec<u8> {
    let mut raw = vec![0x72, 0xB5, 0x4A, 0x86];
    raw.extend_from_slice(&version.to_le_bytes());
    raw.extend_from_slice(&header_size.to_le_bytes());
    raw.extend_from_slice(&0u32.to_le_bytes());
    raw.extend_from_slice(&(count as u32).to_le_bytes());
    raw.extend_from_slice(&0u32.to_le_bytes());
    raw.extend_from_slice(&height.to_le_bytes());
    raw.extend_from_slice(&width.to_le_bytes());
    raw
}

#[test]
fn it_works() {
    assert_eq!(2 + 2, 4);
}

#[test]
fn legacy_font_with_full_table_parses() {
    let raw = legacy_font(0x00, 0x08, 256 * 8);
    let font = Font::parse_font_data(&raw).expect("a complete legacy font parses");
    assert_eq!(font.size(), 256);
    assert_eq!(font.width(), 8);
    assert_eq!(font.height(), 8);
    let glyph = font.get_char('A').expect("code 65 has a glyph");
    assert_eq!(glyph.width, 8);
    assert_eq!(glyph.height, 8);
    assert_eq!(glyph.d.len(), 64);
}

#[test]
fn legacy_font_one_byte_short_is_truncated() {
    let raw = legacy_font(0x00, 0x08, 256 * 8 - 1);
    assert!(matches!(Font::parse_font_data(&raw), Err(Error::Truncated)));
}

#[test]
fn legacy_mode_byte_picks_glyph_count() {
    for (mode, count) in [(0u8, 256usize), (1, 512), (2, 256), (3, 512)] {
        let raw = legacy_font(mode, 4, count * 4);
        let font = Font::parse_font_data(&raw).expect("legacy font parses");
        assert_eq!(font.size(), count);
        assert_eq!(font.height(), 4);
    }
    let raw = legacy_font(4, 4, 512 * 4);
    assert!(matches!(Font::parse_font_data(&raw), Err(Error::InvalidFontFormat)));
}

#[test]
fn legacy_bad_mode_and_short_header_are_invalid() {
    let mut raw = legacy_font(0, 8, 256 * 8);
    raw[1] = 0x05;
    assert!(matches!(Font::parse_font_data(&raw), Err(Error::InvalidFontFormat)));
    assert!(matches!(Font::parse_font_data(&[0x36, 0x04, 0x00]), Err(Error::InvalidFontFormat)));
}

#[test]
fn empty_and_unknown_magic_are_invalid() {
    assert!(matches!(Font::parse_font_data(&[]), Err(Error::InvalidFontFormat)));
    assert!(matches!(Font::parse_font_data(&[0x1F, 0x8B, 0, 0, 0]), Err(Error::InvalidFontFormat)));
}

#[test]
fn legacy_glyph_bits_are_msb_first() {
    let mut raw = legacy_font(0, 2, 256 * 2);
    // glyph 1: rows 0b1000_0001 and 0b0100_0000
    raw[4 + 2] = 0b1000_0001;
    raw[4 + 3] = 0b0100_0000;
    let font = Font::parse_font_data(&raw).unwrap();
    let g = font.get_char('\u{1}').unwrap();
    assert_eq!(g.d, vec![1, 0, 0, 0, 0, 0, 0, 1, 0, 1, 0, 0, 0, 0, 0, 0]);
}

#[test]
fn extended_font_parses_wide_glyphs() {
    let mut raw = extended_header(0, 0x20, 3, 2, 10);
    // 3 glyphs of 2 rows of 2 bytes
    raw.extend_from_slice(&[0, 0, 0, 0]);
    raw.extend_from_slice(&[0xFF, 0xC0, 0x80, 0x40]);
    raw.extend_from_slice(&[1, 2, 3, 4]);
    let font = Font::parse_font_data(&raw).expect("extended font parses");
    assert_eq!(font.size(), 3);
    assert_eq!(font.width(), 10);
    assert_eq!(font.height(), 2);
    let g = font.get_char('\u{1}').unwrap();
    assert_eq!(g.width, 10);
    assert_eq!(g.height, 2);
    assert_eq!(g.d, vec![1, 1, 1, 1, 1, 1, 1, 1, 1, 1, 1, 0, 0, 0, 0, 0, 0, 0, 0, 1]);
    assert!(font.get_char('\u{3}').is_none());
}

#[test]
fn extended_header_size_other_than_0x20_is_invalid() {
    for size in [0u32, 0x1F, 0x21, 0x40] {
        let mut raw = extended_header(0, size, 1, 1, 8);
        raw.push(0xFF);
        assert!(matches!(Font::parse_font_data(&raw), Err(Error::InvalidFontFormat)));
    }
}

#[test]
fn extended_nonzero_version_and_bad_magic_are_invalid() {
    let mut raw = extended_header(1, 0x20, 1, 1, 8);
    raw.push(0);
    assert!(matches!(Font::parse_font_data(&raw), Err(Error::InvalidFontFormat)));
    let mut raw = extended_header(0, 0x20, 1, 1, 8);
    raw.push(0);
    raw[2] = 0;
    assert!(matches!(Font::parse_font_data(&raw), Err(Error::InvalidFontFormat)));
    let short = &extended_header(0, 0x20, 1, 1, 8)[..31];
    assert!(matches!(Font::parse_font_data(short), Err(Error::InvalidFontFormat)));
}

#[test]
fn extended_truncated_table_fails() {
    let mut raw = extended_header(0, 0x20, 2, 3, 9);
    raw.extend_from_slice(&[0; 11]);
    assert!(matches!(Font::parse_font_data(&raw), Err(Error::Truncated)));
    raw.push(0);
    assert_eq!(Font::parse_font_data(&raw).unwrap().size(), 2);
}

#[test]
fn lookup_at_glyph_count_misses() {
    let raw = legacy_font(0, 8, 256 * 8);
    let font = Font::parse_font_data(&raw).unwrap();
    assert!(font.get_char('\u{FF}').is_some());
    assert!(font.get_char('\u{100}').is_none());
    assert!(font.get_char('\u{10FFFF}').is_none());
}

#[test]
fn gzip_names_are_recognised() {
    assert!(is_gzip_name("font.psf.gz"));
    assert!(is_gzip_name(".gz"));
    assert!(!is_gzip_name("font.psf"));
    assert!(!is_gzip_name("gz"));
    assert!(!is_gzip_name("font.gzip"));
}

#[test]
fn console_font_names_are_recognised() {
    assert!(is_psf_name("/usr/share/consolefonts/Lat2-Terminus16.psf"));
    assert!(is_psf_name("Lat2-Terminus16.psf.gz"));
    assert!(is_psf_name(".psf"));
    assert!(!is_psf_name("DejaVuSansMono.ttf"));
    assert!(!is_psf_name("font.gz"));
    assert!(!is_psf_name("font.psf2"));
    assert!(!is_psf_name("psf"));
}

#[test]
fn gzipped_font_is_decompressed_before_parsing() {
    let raw = legacy_font(0, 8, 256 * 8);
    let mut enc = flate2::write::GzEncoder::new(Vec::new(), flate2::Compression::default());
    enc.write_all(&raw).unwrap();
    let gz = enc.finish().unwrap();
    let font = Font::from_file_data("console.psf.gz", &gz).expect("gzipped font loads");
    assert_eq!(font.size(), 256);
    assert_eq!(font.height(), 8);
    // the same bytes under a plain name are not a font
    assert!(matches!(Font::from_file_data("console.psf", &gz), Err(Error::InvalidFontFormat)));
    let plain = Font::from_file_data("console.psf", &raw).unwrap();
    assert_eq!(plain.size(), 256);
}

#[test]
fn corrupt_gzip_is_an_io_failure() {
    let raw = legacy_font(0, 8, 256 * 8);
    assert!(matches!(Font::from_file_data("console.psf.gz", &raw), Err(Error::FileIo)));
}
