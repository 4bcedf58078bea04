use glyph_brush::font::{read_font, read_owned_font};

fn put16(data: &mut Vec<u8>, x: u16) {
    data.extend_from_slice(&x.to_be_bytes());
}

fn put32(data: &mut Vec<u8>, x: u32) {
    data.extend_from_slice(&x.to_be_bytes());
}

/// A font with an empty glyph, a square for `A` and a bar for `B`.
fn font_bytes() -> Vec<u8> {
    let mut cmap: Vec<u8> = Vec::new();
    for x in [0u16, 1, 3, 1] {
        put16(&mut cmap, x);
    }
    put32(&mut cmap, 12);
    for x in [6u16, 14, 0, 65, 2, 1, 2] {
        put16(&mut cmap, x);
    }
    let outline = |w: i16, h: i16| -> Vec<u8> {
        let mut g: Vec<u8> = Vec::new();
        for x in [1, 0, 0, w, h, 3, 0] {
            put16(&mut g, x as u16);
        }
        g.extend_from_slice(&[1, 1, 1, 1]);
        for x in [0, 0, w, 0, 0, h, 0, -h] {
            put16(&mut g, x as u16);
        }
        g.extend_from_slice(&[0, 0]);
        g
    };
    let (square, bar) = (outline(500, 500), outline(250, 1000));
    let mut loca: Vec<u8> = Vec::new();
    for x in [0, 0, square.len(), square.len() + bar.len()] {
        put32(&mut loca, x as u32);
    }
    let mut glyf = square;
    glyf.extend_from_slice(&bar);
    let mut head: Vec<u8> = vec![0; 54];
    head[18..20].copy_from_slice(&1000u16.to_be_bytes());
    head[51] = 1;
    let mut hhea: Vec<u8> = vec![0; 36];
    hhea[4..6].copy_from_slice(&1000u16.to_be_bytes());
    hhea[35] = 3;
    let mut hmtx: Vec<u8> = Vec::new();
    for _ in 0..3 {
        put16(&mut hmtx, 600);
        put16(&mut hmtx, 0);
    }
    let maxp: Vec<u8> = vec![0, 1, 0, 0, 0, 3];
    let tables: Vec<(&[u8], Vec<u8>)> = vec![
        (b"cmap", cmap),
        (b"glyf", glyf),
        (b"head", head),
        (b"hhea", hhea),
        (b"hmtx", hmtx),
        (b"loca", loca),
        (b"maxp", maxp),
    ];
    let mut font: Vec<u8> = vec![0, 1, 0, 0, 0, 7, 0, 0, 0, 0, 0, 0];
    let mut body: Vec<u8> = Vec::new();
    for (tag, table) in &tables {
        font.extend_from_slice(tag);
        put32(&mut font, 0);
        put32(&mut font, (12 + 16 * tables.len() + body.len()) as u32);
        put32(&mut font, table.len() as u32);
        body.extend_from_slice(table);
        while body.len() % 4 != 0 {
            body.push(0);
        }
    }
    font.extend_from_slice(&body);
    font
}

#[test]
fn a_font_is_read() {
    let data = font_bytes();
    let font = read_font(&data).unwrap();
    assert_eq!(font.glyph_count(), 3);
    assert_eq!(font.glyph('A').id().0, 1);
    assert_eq!(font.glyph('B').id().0, 2);
    assert_eq!(font.glyph(' ').id().0, 0);
}

#[test]
fn a_font_can_own_its_data() {
    let font = read_owned_font(font_bytes()).unwrap();
    assert_eq!(font.glyph('B').id().0, 2);
    assert!(read_owned_font(b"not a font at all".to_vec()).is_none());
    assert!(read_owned_font(font_bytes()[..100].to_vec()).is_none());
}

#[test]
fn a_collection_of_one_font_is_read() {
    let alone = font_bytes();
    let mut data: Vec<u8> = b"ttcf".to_vec();
    put32(&mut data, 0x1_0000);
    put32(&mut data, 1);
    put32(&mut data, 16);
    data.extend_from_slice(&alone);
    // the tables of a font in a collection lie where the whole file says
    for i in 0..7 {
        let at = 16 + 12 + 16 * i + 8;
        let old = u32::from_be_bytes([data[at], data[at + 1], data[at + 2], data[at + 3]]);
        data[at..at + 4].copy_from_slice(&(old + 16).to_be_bytes());
    }
    assert_eq!(read_font(&data).unwrap().glyph('B').id().0, 2);
    data[11] = 2;
    assert!(read_font(&data).is_none());
}

#[test]
fn other_data_is_no_font() {
    assert!(read_font(&[]).is_none());
    assert!(read_font(&[0, 1, 0]).is_none());
    assert!(read_font(b"not a font at all").is_none());
    assert!(read_font(&[0, 1, 0, 0]).is_none());
    assert!(read_font(&[0, 1, 0, 0, 0, 0]).is_none());
    assert!(read_font(b"ttcf").is_none());
}

#[test]
fn a_font_without_a_required_table_is_refused() {
    for i in [0, 1, 2, 3, 4, 5] {
        let mut data = font_bytes();
        data[12 + 16 * i] = b'x';
        assert!(read_font(&data).is_none());
    }
    let mut data = font_bytes();
    data[12 + 16 * 6] = b'x';
    assert!(read_font(&data).is_some());
}

#[test]
fn truncated_fonts_are_refused_without_a_panic() {
    let data = font_bytes();
    let mut readable: usize = 0;
    for n in 0..data.len() {
        if read_font(&data[..n]).is_some() {
            readable += 1;
        }
    }
    // what follows the number of glyphs, which is read last in the file, is only padding
    assert!(readable <= 2);
}

#[test]
fn tables_that_lie_outside_are_refused_without_a_panic() {
    for i in [0, 2, 6] {
        let mut data = font_bytes();
        let at = 12 + 16 * i + 8;
        data[at..at + 4].copy_from_slice(&0xffff_fff0u32.to_be_bytes());
        assert!(read_font(&data).is_none());
    }
}
