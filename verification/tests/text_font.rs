use piso::bitmap::Bitmap;
use piso::error::Error;
use piso::font::{Font, MAX_GLYPH};
use piso::text::{decimal, digit_str, is_whitespace, trim_end};

fn glyphs() -> Vec<Bitmap> {
    let mut glyphs = Vec::new();
    for code in 0u8..128 {
        glyphs.push(Bitmap::from_slice(&[&[code, 1], &[0, code]]));
    }
    glyphs
}

fn small_font() -> Font {
    Font::new(2, 2, glyphs(), Bitmap::from_slice(&[&[8]])).unwrap()
}

fn rows_of(bitmap: &Bitmap) -> Vec<Vec<u8>> {
    let mut rows = Vec::new();
    for y in 0..bitmap.height() {
        let mut row = Vec::new();
        for x in 0..bitmap.width() {
            row.push(bitmap.pixel(x, y));
        }
        rows.push(row);
    }
    rows
}

#[test]
fn decimal_of_small_numbers() {
    assert_eq!(decimal(0), "0");
    assert_eq!(decimal(7), "7");
    assert_eq!(decimal(10), "10");
}

#[test]
fn decimal_of_large_numbers() {
    assert_eq!(decimal(12345), "12345");
    assert_eq!(decimal(u64::MAX), "18446744073709551615");
}

#[test]
fn digit_strings() {
    assert_eq!(digit_str(0), "0");
    assert_eq!(digit_str(9), "9");
}

#[test]
fn whitespace_follows_unicode() {
    for c in [' ', '\n', '\t', '\r', '\u{0b}', '\u{0c}', '\u{85}', '\u{a0}', '\u{1680}', '\u{2000}', '\u{200a}',
        '\u{2028}', '\u{2029}', '\u{202f}', '\u{205f}', '\u{3000}']
    {
        assert!(is_whitespace(c));
        assert!(c.is_whitespace());
    }
    for c in ['a', '0', '/', '\u{200b}', '\u{08}', '\u{0e}', '\u{1f}', '\u{feff}'] {
        assert!(!is_whitespace(c));
        assert!(!c.is_whitespace());
    }
}

#[test]
fn whitespace_agrees_with_std_everywhere() {
    for code in 0u32..=0x10ffff {
        if let Some(c) = char::from_u32(code) {
            assert_eq!(is_whitespace(c), c.is_whitespace());
        }
    }
}

#[test]
fn trim_end_removes_trailing_space_only() {
    assert_eq!(trim_end("/dev/loop0\n"), "/dev/loop0");
    assert_eq!(trim_end("  a b \t\r\n"), "  a b");
    assert_eq!(trim_end("\n\n"), "");
    assert_eq!(trim_end(""), "");
    assert_eq!(trim_end("x"), "x");
}

#[test]
fn trim_end_agrees_with_std() {
    for text in ["abc \u{a0}\u{3000}", " \u{2003}z\u{2028}", "no space", "tab\tinside\t"] {
        assert_eq!(trim_end(text), text.trim_end());
    }
}

#[test]
fn font_rejects_wrong_glyph_size() {
    let mut bad = glyphs();
    bad[65] = Bitmap::from_slice(&[&[1, 1, 1], &[1, 1, 1]]);
    assert!(Font::new(2, 2, bad, Bitmap::new(1, 1)).is_none());
}

#[test]
fn font_rejects_large_cells() {
    assert!(Font::new(MAX_GLYPH + 1, 2, Vec::new(), Bitmap::new(1, 1)).is_none());
    assert!(Font::new(2, MAX_GLYPH + 1, Vec::new(), Bitmap::new(1, 1)).is_none());
    assert!(Font::new(2, 2, Vec::new(), Bitmap::new(MAX_GLYPH + 1, 1)).is_none());
    assert!(Font::new(2, 2, Vec::new(), Bitmap::new(1, MAX_GLYPH + 1)).is_none());
    assert!(Font::new(MAX_GLYPH, MAX_GLYPH, Vec::new(), Bitmap::new(MAX_GLYPH, MAX_GLYPH)).is_some());
}

#[test]
fn font_keeps_its_arrow() {
    let font = small_font();
    assert_eq!(rows_of(font.arrow()), vec![vec![8]]);
}

#[test]
fn text_sets_cells_side_by_side() {
    let font = small_font();
    let bitmap = font.render_text("AB").unwrap();
    assert_eq!(rows_of(&bitmap), vec![vec![65, 1, 66, 1], vec![0, 65, 0, 66]]);
}

#[test]
fn empty_text_is_empty() {
    let font = small_font();
    let bitmap = font.render_text("").unwrap();
    assert_eq!(bitmap.width(), 0);
    assert_eq!(bitmap.height(), 0);
}

#[test]
fn unknown_character_is_a_blank_cell() {
    let font = small_font();
    let bitmap = font.render_text("A\u{e9}B").unwrap();
    assert_eq!(rows_of(&bitmap), vec![vec![65, 1, 0, 0, 66, 1], vec![0, 65, 0, 0, 0, 66]]);
}

#[test]
fn text_of_cells_without_width() {
    let font = Font::new(0, 3, Vec::new(), Bitmap::new(0, 0)).unwrap();
    let bitmap = font.render_text("abc").unwrap();
    assert_eq!(bitmap.width(), 0);
    assert_eq!(bitmap.height(), 3);
}

#[test]
fn error_messages() {
    assert_eq!(Error::WindowsExhausted.message(), "window identities exhausted");
    assert_eq!(Error::InvalidWindow.message(), "no such window");
    assert_eq!(Error::FrameTooLarge.message(), "frame too large");
    assert_eq!(Error::Backend.message(), "volume backend failed");
    assert_eq!(Error::ExternalTool.message(), "external tool failed");
}
