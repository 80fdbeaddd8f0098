use dodjtime::battery::{Level, Source, State};
use dodjtime::text::{Color, Font, GLYPH_ABSENT};

fn test_font() -> Font {
    // Height 2, three palette colors. Only 'A' has a glyph: 4 pixels (2x2),
    // packed into one byte after the 4-byte big-endian pixel count.
    // Pixel values, MSB first: 0 (transparent), 1, 2, 3.
    let mut keys = vec![GLYPH_ABSENT; 128];
    keys[b'A' as usize] = 0;
    let pixels = vec![0, 0, 0, 4, 0b00_01_10_11];
    Font::new(2, vec![0xf800, 0x07e0, 0x001f], keys, pixels).unwrap()
}

#[test]
fn extents_reads_the_glyph_length_field() {
    let font = test_font();
    let e = font.extents(b'A').unwrap();
    assert_eq!(e.offset(), 4);
    assert_eq!(e.len_in_pixels(), 4);
    assert_eq!(e.len_in_bytes(), 1);
    assert_eq!(e.width(&font), 2);
    assert_eq!(font.extents_size(e, 3), (6, 6));
}

#[test]
fn absent_and_non_ascii_glyphs_have_no_extents() {
    let font = test_font();
    assert!(font.extents(b'B').is_none());
    assert!(font.extents(200).is_none());
}

#[test]
fn pixels_decode_two_bits_per_pixel_msb_first() {
    let font = test_font();
    let e = font.extents(b'A').unwrap();
    let mut p = font.pixels(e, 1);
    assert_eq!(p.next(), Some(Color::Transparent));
    assert_eq!(p.next(), Some(Color::Opaque(0xf800)));
    assert_eq!(p.next(), Some(Color::Opaque(0x07e0)));
    assert_eq!(p.next(), Some(Color::Opaque(0x001f)));
    assert_eq!(p.next(), None);
}

#[test]
fn pixels_scale_by_replication() {
    let font = test_font();
    let e = font.extents(b'A').unwrap();
    let mut p = font.pixels(e, 2);
    let mut out = Vec::new();
    while let Some(c) = p.next() {
        out.push(c);
    }
    // The 2x2 glyph becomes 4x4: each pixel a 2x2 block, row major.
    let t = Color::Transparent;
    let c1 = Color::Opaque(0xf800);
    let c2 = Color::Opaque(0x07e0);
    let c3 = Color::Opaque(0x001f);
    assert_eq!(
        out,
        vec![t, t, c1, c1, t, t, c1, c1, c2, c2, c3, c3, c2, c2, c3, c3]
    );
}

#[test]
fn font_new_rejects_bad_tables() {
    assert!(Font::new(0, vec![0; 3], vec![GLYPH_ABSENT; 128], vec![]).is_none());
    assert!(Font::new(2, vec![0; 2], vec![GLYPH_ABSENT; 128], vec![]).is_none());
    assert!(Font::new(2, vec![0; 3], vec![GLYPH_ABSENT; 127], vec![]).is_none());
    // An offset that leaves no room for the length field.
    let mut keys = vec![GLYPH_ABSENT; 128];
    keys[0] = 2;
    assert!(Font::new(2, vec![0; 3], keys, vec![0, 0, 0, 0]).is_none());
}

#[test]
fn adc_sample_to_millivolts_and_percent() {
    // Full scale: 4095 reads as 3000 mV, which is below the 0% point.
    let full = Level::from_adc_sample(4095);
    assert_eq!(full.mv, 3000);
    assert_eq!(full.percent_m10, 0);
    // A negative sample clamps to zero.
    let neg = Level::from_adc_sample(-100);
    assert_eq!(neg.mv, 0);
    assert_eq!(neg.percent_m10, 0);
    // 3700 mV sits halfway along the 3500..3900 line: 50.0%.
    // 3700 mV needs a sample of 3700 * 4095 / 3000 = 5050.5 -> 5051.
    let half = Level::from_adc_sample(5051);
    assert_eq!(half.mv, 3700);
    assert_eq!(half.percent_m10, 500);
    // 3900 mV and above clamp to 100.0%.
    let top = Level::from_adc_sample(5325);
    assert_eq!(top.mv, 3901);
    assert_eq!(top.percent_m10, 1000);
}

#[test]
fn power_source_from_pin() {
    assert_eq!(Source::from_pin_high(true), Source::Battery);
    assert_eq!(Source::from_pin_high(false), Source::Charger);
    let state = State::new(Level::from_adc_sample(5051), Source::Charger);
    assert_eq!(state.level.mv, 3700);
    assert_eq!(state.source, Source::Charger);
}
