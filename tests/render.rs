use ssd1305::psf::Font;
use ssd1305::renderer::{select_renderer, Params, TextSize};
use ssd1305::ssd1305::{Dims, Ssd1305};

/// A legacy font of 256 glyphs of 8x8 where glyph `c` has row `r` equal to
/// `c ^ r`, except glyph 'A' which is a solid block.
fn test_font() -> Font {
    let mut raw = vec![0x36, 0x04, 0x00, 0x08];
    for c in 0..256usize {
        for r in 0..8usize {
            raw.push(if c == 'A' as usize { 0xFF } else { (c ^ r) as u8 });
        }
    }
    Font::parse_font_data(&raw).unwrap()
}

#[test]
fn bitmap_chosen_at_native_height_outline_otherwise() {
    let sizes = vec![TextSize::Exactly(12), TextSize::Any];
    assert_eq!(select_renderer(&sizes, 12), Some(0));
    assert_eq!(select_renderer(&sizes, 24), Some(1));
}

#[test]
fn no_backend_for_height_draws_nothing() {
    let sizes = vec![TextSize::Exactly(12), TextSize::Exactly(16)];
    assert_eq!(select_renderer(&sizes, 24), None);
    assert_eq!(select_renderer(&Vec::new(), 8), None);
    assert!(TextSize::Any.renders_text_size(0));
    assert!(!TextSize::Exactly(8).renders_text_size(9));
}

#[test]
fn bitmap_font_supports_only_its_height() {
    let font = test_font();
    assert!(font.renders_text_size(8));
    assert!(!font.renders_text_size(12));
    assert_eq!(font.text_size(), TextSize::Exactly(8));
}

#[test]
fn empty_text_is_zero_wide_and_requested_height_tall() {
    let font = test_font();
    let mut s = Ssd1305::new();
    let dims = font.render_text(&mut s, &Params { height: 8, x: 3, y: 4 }, "");
    assert_eq!(dims, Dims { width: 0, height: 8 });
    assert!(s.buffer().iter().all(|b| *b == 0));
}

#[test]
fn result_height_is_the_requested_height() {
    let font = test_font();
    let mut s = Ssd1305::new();
    let dims = font.render_text(&mut s, &Params { height: 24, x: 0, y: 0 }, "");
    assert_eq!(dims, Dims { width: 0, height: 24 });
    let dims = font.render_text(&mut s, &Params { height: 5, x: 0, y: 0 }, "AAA");
    assert_eq!(dims, Dims { width: 24, height: 5 });
}

#[test]
fn text_is_drawn_in_cells() {
    let font = test_font();
    let mut s = Ssd1305::new();
    let dims = font.render_text(&mut s, &Params { height: 8, x: 0, y: 0 }, "AA");
    assert_eq!(dims, Dims { width: 16, height: 8 });
    for x in 0..16 {
        assert_eq!(s.buffer()[x], 0xFF);
    }
    assert_eq!(s.buffer()[16], 0);
}

#[test]
fn glyph_is_placed_at_offset_and_page_split() {
    let font = test_font();
    let mut s = Ssd1305::new();
    font.render_text(&mut s, &Params { height: 8, x: 10, y: 4 }, "A");
    // rows 4..8 in page 0, rows 8..12 in page 1, columns 10..18
    for x in 10..18 {
        assert_eq!(s.buffer()[x], 0xF0);
        assert_eq!(s.buffer()[x + 128], 0x0F);
    }
    assert_eq!(s.buffer()[9], 0);
    assert_eq!(s.buffer()[18], 0);
}

#[test]
fn glyph_overwrites_cell_pixels() {
    let font = test_font();
    let mut s = Ssd1305::new();
    for x in 0..8 {
        for y in 0..8 {
            s.set_pixel(x, y, true);
        }
    }
    // glyph 0 has row r equal to r: row 0 is dark, row 1 lights column 7
    font.render_text(&mut s, &Params { height: 8, x: 0, y: 0 }, "\u{0}");
    assert_eq!(s.buffer()[7], 0b1010_1010);
    assert_eq!(s.buffer()[0], 0);
}

#[test]
fn glyphs_past_panel_edges_are_clipped() {
    let font = test_font();
    let mut s = Ssd1305::new();
    let dims = font.render_text(&mut s, &Params { height: 8, x: 124, y: 28 }, "AAAA");
    assert_eq!(dims, Dims { width: 32, height: 8 });
    for x in 124..128 {
        assert_eq!(s.buffer()[x + 3 * 128], 0xF0);
    }
    let lit: usize = s.buffer().iter().map(|b| b.count_ones() as usize).sum();
    assert_eq!(lit, 16);
}

#[test]
fn negative_offset_clips_left_and_top() {
    let font = test_font();
    let mut s = Ssd1305::new();
    font.render_text(&mut s, &Params { height: 8, x: -6, y: -4 }, "A");
    assert_eq!(s.buffer()[0], 0x0F);
    assert_eq!(s.buffer()[1], 0x0F);
    assert_eq!(s.buffer()[2], 0);
}

#[test]
fn missing_glyph_is_skipped_but_keeps_its_cell() {
    let font = test_font();
    let mut s = Ssd1305::new();
    let dims = font.render_text(&mut s, &Params { height: 8, x: 0, y: 0 }, "\u{400}A");
    assert_eq!(dims, Dims { width: 16, height: 8 });
    for x in 0..8 {
        assert_eq!(s.buffer()[x], 0);
    }
    for x in 8..16 {
        assert_eq!(s.buffer()[x], 0xFF);
    }
}
