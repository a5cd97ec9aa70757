use gg_engine::font::{
    atlas_layout, blit_glyph, font_charset, glyph_advance, kerning_pairs, pack_atlas, read_face_metrics,
    FaceMetrics, FontError, KerningPair, GLYPH_BITMAP_BYTES,
};

fn put16(v: &mut Vec<u8>, x: u16) {
    v.extend_from_slice(&x.to_be_bytes());
}

fn put32(v: &mut Vec<u8>, x: u32) {
    v.extend_from_slice(&x.to_be_bytes());
}

/// A minimal TrueType face: glyphs 1, 2, 3 for 'A', 'B' and 'é', advances
/// 600, 700, 800, and kerning A-B = -50, A-é = 0, B-A = 30.
fn tiny_font() -> Vec<u8> {
    let mut cmap = Vec::new();
    put16(&mut cmap, 0);
    put16(&mut cmap, 1);
    put16(&mut cmap, 0);
    put16(&mut cmap, 3);
    put32(&mut cmap, 12);
    put16(&mut cmap, 0);
    put16(&mut cmap, 262);
    put16(&mut cmap, 0);
    let mut ids = [0u8; 256];
    ids[0x41] = 1;
    ids[0x42] = 2;
    ids[0xE9] = 3;
    cmap.extend_from_slice(&ids);

    let mut head = Vec::new();
    put32(&mut head, 0x0001_0000);
    put32(&mut head, 0x0001_0000);
    put32(&mut head, 0);
    put32(&mut head, 0x5F0F_3CF5);
    put16(&mut head, 0);
    put16(&mut head, 1000);
    put32(&mut head, 0);
    put32(&mut head, 0);
    put32(&mut head, 0);
    put32(&mut head, 0);
    for _ in 0..4 {
        put16(&mut head, 0);
    }
    put16(&mut head, 0);
    put16(&mut head, 8);
    put16(&mut head, 2);
    put16(&mut head, 0);
    put16(&mut head, 0);

    let mut hhea = Vec::new();
    put32(&mut hhea, 0x0001_0000);
    put16(&mut hhea, 800);
    put16(&mut hhea, (-200i16) as u16);
    put16(&mut hhea, 90);
    for _ in 0..12 {
        put16(&mut hhea, 0);
    }
    put16(&mut hhea, 4);

    let mut hmtx = Vec::new();
    for adv in [500u16, 600, 700, 800] {
        put16(&mut hmtx, adv);
        put16(&mut hmtx, 0);
    }

    let mut kern = Vec::new();
    put16(&mut kern, 0);
    put16(&mut kern, 1);
    put16(&mut kern, 0);
    put16(&mut kern, 32);
    kern.push(0);
    kern.push(1);
    put16(&mut kern, 3);
    put16(&mut kern, 12);
    put16(&mut kern, 1);
    put16(&mut kern, 6);
    for (l, r, k) in [(1u16, 2u16, -50i16), (1, 3, 0), (2, 1, 30)] {
        put16(&mut kern, l);
        put16(&mut kern, r);
        put16(&mut kern, k as u16);
    }

    let mut maxp = Vec::new();
    put32(&mut maxp, 0x0000_5000);
    put16(&mut maxp, 4);

    let tables: Vec<(&[u8; 4], Vec<u8>)> =
        vec![(b"cmap", cmap), (b"head", head), (b"hhea", hhea), (b"hmtx", hmtx), (b"kern", kern), (b"maxp", maxp)];
    let mut font = Vec::new();
    put32(&mut font, 0x0001_0000);
    put16(&mut font, tables.len() as u16);
    put16(&mut font, 64);
    put16(&mut font, 2);
    put16(&mut font, 32);
    let mut offset = 12 + 16 * tables.len();
    let mut body = Vec::new();
    for (tag, data) in &tables {
        font.extend_from_slice(*tag);
        put32(&mut font, 0);
        put32(&mut font, offset as u32);
        put32(&mut font, data.len() as u32);
        body.extend_from_slice(data);
        while body.len() % 4 != 0 {
            body.push(0);
        }
        offset = 12 + 16 * tables.len() + body.len();
    }
    font.extend_from_slice(&body);
    font
}

#[test]
fn face_metrics_of_valid_font() {
    let data = tiny_font();
    let m = read_face_metrics(&data).unwrap();
    assert_eq!(m, FaceMetrics { units_per_em: 1000, ascender: 800, descender: -200, line_gap: 90 });
}

#[test]
fn face_metrics_of_garbage_is_parse_error() {
    match read_face_metrics(&[1, 2, 3, 4, 5]) {
        Err(FontError::Parse(e)) => assert_eq!(e, ttf_parser::FaceParsingError::UnknownMagic),
        Ok(_) => panic!("garbage parsed"),
    }
}

#[test]
fn charset_keeps_glyphs_the_face_has() {
    let data = tiny_font();
    assert_eq!(font_charset(&data), vec!['A', 'B', 'é']);
    assert!(font_charset(&[0u8; 8]).is_empty());
}

#[test]
fn glyph_advances() {
    let data = tiny_font();
    assert_eq!(glyph_advance(&data, 'A'), 600);
    assert_eq!(glyph_advance(&data, 'é'), 800);
}

#[test]
fn kerning_pairs_skip_zero_values() {
    let data = tiny_font();
    let chars = font_charset(&data);
    assert_eq!(
        kerning_pairs(&data, &chars),
        vec![
            KerningPair { left: 'A', right: 'B', value: -50 },
            KerningPair { left: 'B', right: 'A', value: 30 },
        ]
    );
    assert!(kerning_pairs(&[9u8; 4], &chars).is_empty());
}

#[test]
fn atlas_layout_grid() {
    let l = atlas_layout(0);
    assert_eq!((l.cols, l.rows, l.width, l.height), (1, 1, 52, 52));
    let l = atlas_layout(95);
    assert_eq!((l.cols, l.rows, l.width, l.height), (10, 10, 520, 520));
    let l = atlas_layout(17);
    assert_eq!((l.cols, l.rows), (5, 4));
    let l = atlas_layout(16);
    assert_eq!((l.cols, l.rows), (4, 4));
}

#[test]
fn blit_places_glyph_inside_cell() {
    let (w, h) = (104usize, 52usize);
    let mut atlas = vec![0u8; w * h * 4];
    let bitmap: Vec<u8> = (0..GLYPH_BITMAP_BYTES).map(|i| (i % 251) as u8 + 1).collect();
    blit_glyph(&mut atlas, w, h, 54, 2, &bitmap);
    let px = |x: usize, y: usize, c: usize| atlas[(y * w + x) * 4 + c];
    assert_eq!(px(54, 2, 0), bitmap[0]);
    assert_eq!(px(55, 2, 3), bitmap[7]);
    assert_eq!(px(54 + 47, 2 + 47, 2), bitmap[(47 * 48 + 47) * 4 + 2]);
    assert_eq!(px(53, 2, 0), 0);
    assert_eq!(px(54, 50, 0), 0);
    assert_eq!(px(10, 10, 0), 0);
}

#[test]
fn pack_atlas_assigns_cells_in_order() {
    let glyph = |v: u8| Some(vec![v; GLYPH_BITMAP_BYTES]);
    let bitmaps = vec![glyph(10), None, glyph(20), glyph(30), None, glyph(40), glyph(50)];
    let packed = pack_atlas(&bitmaps);
    assert_eq!((packed.layout.cols, packed.layout.rows), (3, 2));
    assert_eq!((packed.layout.width, packed.layout.height), (156, 104));
    assert_eq!(packed.pixels.len(), 156 * 104 * 4);
    assert_eq!(
        packed.cells,
        vec![Some((2, 2)), None, Some((54, 2)), Some((106, 2)), None, Some((2, 54)), Some((54, 54))]
    );
    let w = 156usize;
    let px = |x: usize, y: usize| packed.pixels[(y * w + x) * 4];
    assert_eq!(px(2, 2), 10);
    assert_eq!(px(60, 10), 20);
    assert_eq!(px(150, 40), 30);
    assert_eq!(px(2, 54), 40);
    assert_eq!(px(101, 101), 50);
    assert_eq!(px(0, 0), 0);
    assert_eq!(px(120, 80), 0);
}

#[test]
fn glyph_advance_only_for_present_glyphs() {
    let data = tiny_font();
    assert_eq!(gg_engine::font::glyph_advance_of(&data, 'B'), Some(700));
    assert_eq!(gg_engine::font::glyph_advance_of(&data, 'Z'), None);
    assert_eq!(gg_engine::font::glyph_advance_of(&[0u8; 3], 'A'), None);
}
