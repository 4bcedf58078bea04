use glyph_brush::brush::{BrushAction, BrushError, GlyphBrush};
use glyph_brush::builder::GlyphBrushBuilder;
use glyph_brush::float32::Float32;
use glyph_brush::font::read_font;
use glyph_brush::geometry::{Color, Point, Rectangle};
use glyph_brush::glyph::{covered_pixels, glyph_shape, FontId, SectionGlyph};
use glyph_brush::glyphed::GlyphVertex;
use glyph_brush::hashing::SectionHasher;
use glyph_brush::section::{
    GlyphChange, GlyphPositioner, SectionGeometry, SectionText, VariedSection,
};
use glyph_brush::texture::{is_in_reach, upload_region};
use rusttype::{point, Font, Scale};
use std::borrow::Cow;
use std::cell::{Cell, RefCell};

fn put16(data: &mut Vec<u8>, x: u16) {
    data.extend_from_slice(&x.to_be_bytes());
}

fn put32(data: &mut Vec<u8>, x: u32) {
    data.extend_from_slice(&x.to_be_bytes());
}

/// A font with an empty glyph, a square for `A` and a bar for `B`.
fn font_bytes() -> Vec<u8> {
    let mut cmap: Vec<u8> = Vec::new();
    for x in [0u16, 1, 3, 1] {
        put16(&mut cmap, x);
    }
    put32(&mut cmap, 12);
    for x in [6u16, 14, 0, 65, 2, 1, 2] {
        put16(&mut cmap, x);
    }
    let outline = |w: i16, h: i16| -> Vec<u8> {
        let mut g: Vec<u8> = Vec::new();
        for x in [1, 0, 0, w, h, 3, 0] {
            put16(&mut g, x as u16);
        }
        g.extend_from_slice(&[1, 1, 1, 1]);
        for x in [0, 0, w, 0, 0, h, 0, -h] {
            put16(&mut g, x as u16);
        }
        g.extend_from_slice(&[0, 0]);
        g
    };
    let (square, bar) = (outline(500, 500), outline(250, 1000));
    let mut loca: Vec<u8> = Vec::new();
    for x in [0, 0, square.len(), square.len() + bar.len()] {
        put32(&mut loca, x as u32);
    }
    let mut glyf = square;
    glyf.extend_from_slice(&bar);
    let mut head: Vec<u8> = vec![0; 54];
    head[18..20].copy_from_slice(&1000u16.to_be_bytes());
    head[51] = 1;
    let mut hhea: Vec<u8> = vec![0; 36];
    hhea[4..6].copy_from_slice(&1000u16.to_be_bytes());
    hhea[35] = 3;
    let mut hmtx: Vec<u8> = Vec::new();
    for _ in 0..3 {
        put16(&mut hmtx, 600);
        put16(&mut hmtx, 0);
    }
    let maxp: Vec<u8> = vec![0, 1, 0, 0, 0, 3];
    let tables: Vec<(&[u8], Vec<u8>)> = vec![
        (b"cmap", cmap),
        (b"glyf", glyf),
        (b"head", head),
        (b"hhea", hhea),
        (b"hmtx", hmtx),
        (b"loca", loca),
        (b"maxp", maxp),
    ];
    let mut font: Vec<u8> = vec![0, 1, 0, 0, 0, 7, 0, 0, 0, 0, 0, 0];
    let mut body: Vec<u8> = Vec::new();
    for (tag, table) in &tables {
        font.extend_from_slice(tag);
        put32(&mut font, 0);
        put32(&mut font, (12 + 16 * tables.len() + body.len()) as u32);
        put32(&mut font, table.len() as u32);
        body.extend_from_slice(table);
        while body.len() % 4 != 0 {
            body.push(0);
        }
    }
    font.extend_from_slice(&body);
    font
}

fn number(x: f32) -> Float32 {
    Float32::from_bits(x.to_bits())
}

fn at(x: f32, y: f32) -> Point<Float32> {
    Point { x: number(x), y: number(y) }
}

fn value(x: Float32) -> f32 {
    f32::from_bits(x.bits)
}

fn font() -> Font<'static> {
    let data: &'static [u8] = Box::leak(font_bytes().into_boxed_slice());
    read_font(data).unwrap()
}

/// A layout that puts all glyphs on one line, 10 pixels apart, and counts what it is asked for.
struct Line {
    calculated: Cell<u32>,
    changes: RefCell<Vec<GlyphChange>>,
}

impl Line {
    fn new() -> Line {
        Line { calculated: Cell::new(0), changes: RefCell::new(Vec::new()) }
    }
}

fn place<'font>(
    fonts: &Vec<Font<'font>>,
    geometry: &SectionGeometry,
    text: &Vec<SectionText<'_>>,
) -> Vec<SectionGlyph<'font>> {
    let mut glyphs = Vec::new();
    let mut x = value(geometry.screen_position.x);
    for run in text {
        for c in run.text.chars() {
            let scale = Scale { x: value(run.scale.x), y: value(run.scale.y) };
            let glyph = fonts[run.font_id.0]
                .glyph(c)
                .scaled(scale)
                .positioned(point(x, value(geometry.screen_position.y)));
            glyphs.push(SectionGlyph { glyph, color: run.color, font_id: run.font_id });
            x += 10.0;
        }
    }
    glyphs
}

impl GlyphPositioner for Line {
    fn hash_key(&self) -> Vec<u8> {
        vec![1]
    }

    fn calculate_glyphs<'font>(
        &self,
        fonts: &Vec<Font<'font>>,
        geometry: &SectionGeometry,
        text: &Vec<SectionText<'_>>,
    ) -> Vec<SectionGlyph<'font>> {
        self.calculated.set(self.calculated.get() + 1);
        place(fonts, geometry, text)
    }

    fn bounds_rect(&self, geometry: &SectionGeometry) -> Rectangle<Float32> {
        let (x, y) = (value(geometry.screen_position.x), value(geometry.screen_position.y));
        Rectangle {
            min: at(x, y - value(geometry.bounds.y)),
            max: at(x + value(geometry.bounds.x), y),
        }
    }

    fn recalculate_glyphs<'font>(
        &self,
        previous: Cow<'_, Vec<SectionGlyph<'font>>>,
        change: GlyphChange,
        fonts: &Vec<Font<'font>>,
        geometry: &SectionGeometry,
        text: &Vec<SectionText<'_>>,
    ) -> Vec<SectionGlyph<'font>> {
        let glyphs = place(fonts, geometry, text);
        assert_eq!(previous.len(), glyphs.len());
        self.changes.borrow_mut().push(change);
        glyphs
    }
}

const RED: (f32, f32) = (1.0, 1.0);

fn color(red: f32, alpha: f32) -> Color {
    [number(red), number(0.0), number(0.0), number(alpha)]
}

fn section<'a>(text: &'a str, x: f32, y: f32) -> VariedSection<'a, Line> {
    painted(text, x, y, color(RED.0, RED.1))
}

fn painted<'a>(text: &'a str, x: f32, y: f32, color: Color) -> VariedSection<'a, Line> {
    VariedSection {
        screen_position: at(x, y),
        bounds: at(100.0, 50.0),
        z: number(0.5),
        layout: Line::new(),
        text: vec![SectionText { text, scale: at(10.0, 10.0), color, font_id: FontId(0) }],
    }
}

type Brush = GlyphBrush<'static, GlyphVertex>;

fn brush() -> Brush {
    GlyphBrushBuilder::using_font(font()).build()
}

fn same(v: GlyphVertex) -> GlyphVertex {
    v
}

fn process(brush: &mut Brush) -> Result<BrushAction<GlyphVertex>, BrushError> {
    brush.process_queued(|_, _| {}, same)
}

fn draw(brush: &mut Brush) -> Vec<GlyphVertex> {
    match process(brush) {
        Ok(BrushAction::Draw(vertices)) => vertices,
        other => panic!("not drawn: {:?}", other.is_ok()),
    }
}

fn is_redraw(r: &Result<BrushAction<GlyphVertex>, BrushError>) -> bool {
    matches!(r, Ok(BrushAction::ReDraw))
}

fn pixels(x0: i32, y0: i32, x1: i32, y1: i32) -> Rectangle<i32> {
    Rectangle { min: Point { x: x0, y: y0 }, max: Point { x: x1, y: y1 } }
}

fn texture_bits(v: &GlyphVertex) -> [u32; 4] {
    let r = v.tex_coords;
    [r.min.x.bits, r.min.y.bits, r.max.x.bits, r.max.y.bits]
}

#[test]
fn queued_sections_give_a_vertex_for_each_glyph_with_a_box() {
    let mut brush = brush();
    brush.queue(&section("A B", 10.0, 20.0));
    let vertices = draw(&mut brush);
    assert_eq!(vertices.len(), 2);
    assert_eq!(vertices[0].pixel_coords, pixels(10, 15, 15, 20));
    assert_eq!(vertices[1].pixel_coords, pixels(30, 10, 33, 20));
    assert_eq!(vertices[0].color[0].bits, 1.0f32.to_bits());
    assert_eq!(vertices[0].z.bits, 0.5f32.to_bits());
    assert_eq!(value(vertices[0].bounds.max.x), 110.0);
    // 5 pixels of 256, whatever their place
    let r = vertices[0].tex_coords;
    assert_eq!(value(r.max.x) - value(r.min.x), 5.0 / 256.0);
    assert_eq!(value(r.max.y) - value(r.min.y), 5.0 / 256.0);
}

#[test]
fn sections_are_drawn_in_the_order_in_which_they_were_queued() {
    let mut brush = brush();
    brush.queue(&section("A", 50.0, 20.0));
    brush.queue(&section("A", 10.0, 20.0));
    brush.queue(&section("A", 50.0, 20.0));
    let xs: Vec<i32> = draw(&mut brush).iter().map(|v| v.pixel_coords.min.x).collect();
    assert_eq!(xs, vec![50, 10, 50]);
}

#[test]
fn new_glyphs_are_uploaded_once() {
    let mut brush = brush();
    let mut uploads: Vec<(u32, u32, usize)> = Vec::new();
    brush.queue(&section("AAB", 10.0, 20.0));
    let first = brush.process_queued(
        |rect, data| uploads.push((rect.width(), rect.height(), data.len())),
        same,
    );
    assert!(first.is_ok());
    uploads.sort();
    assert_eq!(uploads, vec![(5, 12, 60), (7, 7, 49)]);
    brush.queue(&section("AAB", 30.0, 20.0));
    let mut more = 0;
    assert!(brush.process_queued(|_, _| more += 1, same).is_ok());
    assert_eq!(more, 0);
}

#[test]
fn an_unchanged_frame_is_redrawn() {
    let mut brush = brush();
    brush.queue(&section("AB", 10.0, 20.0));
    assert_eq!(draw(&mut brush).len(), 2);
    brush.queue(&section("AB", 10.0, 20.0));
    assert!(is_redraw(&process(&mut brush)));
    brush.queue(&section("AB", 11.0, 20.0));
    assert_eq!(draw(&mut brush).len(), 2);
    assert_eq!(draw(&mut brush).len(), 0);
    assert!(is_redraw(&process(&mut brush)));
}

#[test]
fn without_draw_caching_every_frame_is_drawn() {
    let mut brush: Brush =
        GlyphBrushBuilder::using_font(font()).cache_glyph_drawing(false).build();
    brush.queue(&section("A", 10.0, 20.0));
    assert_eq!(draw(&mut brush).len(), 1);
    brush.queue(&section("A", 10.0, 20.0));
    assert_eq!(draw(&mut brush).len(), 1);
}

#[test]
fn a_section_is_positioned_once() {
    let mut brush = brush();
    let s = section("AB", 10.0, 20.0);
    brush.queue(&s);
    brush.queue(&s);
    assert_eq!(brush.pixel_bounds_custom_layout(&s, &s.layout), Some(pixels(10, 10, 23, 20)));
    assert_eq!(draw(&mut brush).len(), 4);
    brush.queue(&s);
    assert_eq!(s.layout.calculated.get(), 1);
    assert_eq!(s.layout.changes.borrow().len(), 0);
}

#[test]
fn without_position_caching_a_section_is_positioned_each_time() {
    let mut brush: Brush =
        GlyphBrushBuilder::using_font(font()).cache_glyph_positioning(false).build();
    let s = section("AB", 10.0, 20.0);
    brush.queue(&s);
    brush.queue(&s);
    assert_eq!(s.layout.calculated.get(), 2);
    brush.keep_cached(&s);
    assert_eq!(draw(&mut brush).len(), 4);
    assert!(brush.section_pixel_bounds(&s).is_none());
}

#[test]
fn a_moved_section_is_laid_out_from_the_last_frame() {
    let mut brush = brush();
    brush.queue(&section("AB", 10.0, 20.0));
    draw(&mut brush);
    let moved = section("AB", 12.0, 20.0);
    brush.queue(&moved);
    assert_eq!(moved.layout.calculated.get(), 0);
    let changes = moved.layout.changes.borrow();
    assert_eq!(changes.len(), 1);
    match changes[0] {
        GlyphChange::Geometry(g) => assert_eq!(value(g.screen_position.x), 10.0),
        _ => panic!("not a change of geometry"),
    }
}

#[test]
fn a_recoloured_section_is_laid_out_from_the_last_frame() {
    let mut brush = brush();
    brush.queue(&section("AB", 10.0, 20.0));
    draw(&mut brush);
    let darker = painted("AB", 10.0, 20.0, color(0.5, 1.0));
    brush.queue(&darker);
    assert!(matches!(darker.layout.changes.borrow()[0], GlyphChange::Color));
    assert_eq!(value(draw(&mut brush)[0].color[0]), 0.5);
    let faded = painted("AB", 10.0, 20.0, color(0.5, 0.25));
    brush.queue(&faded);
    assert!(matches!(faded.layout.changes.borrow()[0], GlyphChange::Alpha));
    assert_eq!(value(draw(&mut brush)[0].color[3]), 0.25);
}

#[test]
fn other_text_is_laid_out_anew() {
    let mut brush = brush();
    brush.queue(&section("AB", 10.0, 20.0));
    draw(&mut brush);
    let other = section("BA", 10.0, 20.0);
    brush.queue(&other);
    assert_eq!(other.layout.calculated.get(), 1);
    assert_eq!(other.layout.changes.borrow().len(), 0);
    let both = painted("AB", 12.0, 20.0, color(0.5, 0.5));
    brush.queue(&both);
    assert_eq!(both.layout.calculated.get(), 1);
}

#[test]
fn only_a_section_met_at_the_same_time_is_reused() {
    let mut brush = brush();
    brush.queue(&section("AB", 10.0, 20.0));
    draw(&mut brush);
    let first = section("A", 10.0, 20.0);
    let second = section("AB", 12.0, 20.0);
    brush.queue(&first);
    brush.queue(&second);
    assert_eq!(second.layout.calculated.get(), 1);
    assert_eq!(second.layout.changes.borrow().len(), 0);
}

#[test]
fn a_section_used_in_this_frame_stays_when_it_is_reused() {
    let mut brush = brush();
    let s = section("AB", 10.0, 20.0);
    brush.queue(&s);
    draw(&mut brush);
    brush.keep_cached(&s);
    let moved = section("AB", 12.0, 20.0);
    brush.queue(&moved);
    assert_eq!(moved.layout.changes.borrow().len(), 1);
    assert!(brush.section_pixel_bounds(&s).is_some());
    draw(&mut brush);
    let again = section("AB", 14.0, 20.0);
    brush.queue(&again);
    assert!(brush.section_pixel_bounds(&moved).is_none());
    assert!(brush.section_pixel_bounds(&s).is_some());
}

#[test]
fn sections_are_forgotten_when_a_frame_does_not_use_them() {
    let mut brush = brush();
    let s = section("AB", 10.0, 20.0);
    assert!(brush.section_pixel_bounds(&s).is_none());
    brush.queue(&s);
    draw(&mut brush);
    assert_eq!(brush.section_pixel_bounds(&s), Some(pixels(10, 10, 23, 20)));
    draw(&mut brush);
    assert!(brush.section_pixel_bounds(&s).is_none());
}

#[test]
fn kept_sections_are_not_forgotten() {
    let mut brush = brush();
    let s = section("AB", 10.0, 20.0);
    brush.queue(&s);
    draw(&mut brush);
    brush.keep_cached(&s);
    draw(&mut brush);
    assert!(brush.section_pixel_bounds(&s).is_some());
    brush.keep_cached_custom_layout(&s, &s.layout);
    assert!(is_redraw(&process(&mut brush)));
    assert!(brush.section_pixel_bounds(&s).is_some());
    assert_eq!(s.layout.calculated.get(), 1);
}

#[test]
fn glyphs_are_given_out_in_order() {
    let mut brush = brush();
    let s = section("AB A", 10.0, 20.0);
    let glyphs = brush.glyphs_custom_layout(&s, &s.layout);
    let ids: Vec<u32> = glyphs.iter().map(|g| g.id().0).collect();
    assert_eq!(ids, vec![1, 2, 0, 1]);
    assert_eq!(glyphs[3].position().x, 40.0);
}

#[test]
fn covered_pixels_are_cut_at_the_bounds() {
    let mut brush = brush();
    let mut s = section("AAB", 10.0, 20.0);
    s.bounds = at(12.5, 8.0);
    let covered = brush.pixel_bounds_custom_layout(&s, &s.layout);
    assert_eq!(covered, Some(pixels(10, 15, 23, 20)));
    let empty = section("   ", 10.0, 20.0);
    assert_eq!(brush.pixel_bounds_custom_layout(&empty, &empty.layout), None);
}

#[test]
fn glyphs_outside_the_bounds_are_not_drawn() {
    let mut brush = brush();
    let mut s = section("AAA", 10.0, 20.0);
    s.bounds = at(12.0, 50.0);
    brush.queue(&s);
    let xs: Vec<i32> = draw(&mut brush).iter().map(|v| v.pixel_coords.min.x).collect();
    assert_eq!(xs, vec![10, 20]);
}

#[test]
fn a_texture_that_is_too_small_is_refused_and_can_be_resized() {
    let mut brush: Brush =
        GlyphBrushBuilder::using_font(font()).initial_cache_size((7, 5)).build();
    brush.queue(&section("A", 10.0, 20.0));
    let error = process(&mut brush).err().unwrap();
    assert_eq!(error, BrushError::TextureTooSmall { suggested: (14, 10) });
    assert_eq!(error.clone(), error);
    assert_eq!(error.description(), "Texture is too small to cache queued glyphs");
    brush.resize_texture(14, 10);
    assert_eq!(brush.texture_dimensions(), (14, 10));
    assert_eq!(draw(&mut brush).len(), 1);
}

#[test]
fn a_refused_frame_stays_queued() {
    let mut brush: Brush =
        GlyphBrushBuilder::using_font(font()).initial_cache_size((4, 4)).build();
    let s = section("AB", 10.0, 20.0);
    brush.queue(&s);
    assert!(process(&mut brush).is_err());
    assert!(process(&mut brush).is_err());
    brush.resize_texture(64, 64);
    assert_eq!(draw(&mut brush).len(), 2);
    assert_eq!(s.layout.calculated.get(), 1);
}

#[test]
fn glyphs_out_of_reach_are_not_processed() {
    let mut brush = brush();
    brush.queue(&section("A", 2147483000.0, 20.0));
    brush.queue(&section("A", 10.0, 20.0));
    assert!(brush.try_process_queued(|_, _| {}, same).is_none());
    assert!(brush.try_process_queued(|_, _| {}, same).is_none());
    let mut brush: Brush = brush.to_builder().build();
    brush.queue(&section("A", 2e9, 20.0));
    brush.queue(&section(" ", 2147483000.0, 20.0));
    match brush.try_process_queued(|_, _| {}, same) {
        Some(Ok(BrushAction::Draw(vertices))) => {
            assert_eq!(vertices.len(), 1);
            assert_eq!(vertices[0].pixel_coords.min.x, 2_000_000_000);
        }
        _ => panic!("not drawn"),
    }
    let fonts: Vec<Font<'static>> = brush.fonts().to_vec();
    let glyphs = positioned(&fonts, f32::NEG_INFINITY);
    assert!(!is_in_reach(&glyphs[0].glyph));
    assert!(!is_in_reach(&positioned(&fonts, f32::NAN)[0].glyph));
    assert!(!is_in_reach(&positioned(&fonts, -2147483600.0)[0].glyph));
    assert!(is_in_reach(&positioned(&fonts, -2147470000.0)[0].glyph));
    brush.queue_pre_positioned(glyphs, wide(), number(0.0));
    assert!(brush.try_process_queued(|_, _| {}, same).is_none());
}

#[test]
fn a_glyph_whose_box_drifted_from_its_place_is_out_of_reach() {
    let f = font();
    let mut glyph =
        f.glyph('B').scaled(Scale { x: 10.0, y: 9e8 }).positioned(point(7.0, 1e9));
    assert!(is_in_reach(&glyph));
    glyph.set_position(point(7.0, -2e9));
    assert!(glyph.pixel_bounding_box().unwrap().min.y > -2_100_000_000);
    assert!(!is_in_reach(&glyph));
}

fn scaled<'a>(text: &'a str, x: f32, scale: f32, red: f32) -> VariedSection<'a, Line> {
    let mut s = painted(text, x, 40.0, color(red, 1.0));
    s.text[0].scale = at(scale, scale);
    s
}

#[test]
fn glyphs_without_size_keep_their_place_in_the_texture() {
    let mut brush = brush();
    brush.queue(&scaled("A", 10.0, 0.0, 1.0));
    brush.queue(&scaled("B", 10.0, 0.0, 1.0));
    let before = draw(&mut brush);
    assert_eq!(before.len(), 2);
    brush.queue(&scaled("A", 10.0, 0.0, 0.5));
    brush.queue(&scaled("B", 10.0, 0.0, 0.5));
    brush.queue(&scaled("B", 30.0, 20.0, 0.5));
    let after = draw(&mut brush);
    assert_eq!(after.len(), 3);
    assert_eq!(texture_bits(&before[0]), texture_bits(&after[0]));
    assert_eq!(texture_bits(&before[1]), texture_bits(&after[1]));
    assert_ne!(texture_bits(&after[2]), texture_bits(&after[0]));
}

#[test]
fn a_frame_that_the_texture_holds_is_never_refused() {
    let mut brush: Brush =
        GlyphBrushBuilder::using_font(font()).initial_cache_size((14, 14)).build();
    brush.queue(&section("AB", 10.0, 20.0));
    let before = draw(&mut brush);
    for x in [20.0, 30.0, 40.0] {
        brush.queue(&section("BA", x, 20.0));
        brush.queue(&painted("AB", x, 25.0, color(0.5, 0.5)));
        let mut uploads = 0;
        let after = match brush.process_queued(|_, _| uploads += 1, same) {
            Ok(BrushAction::Draw(vertices)) => vertices,
            _ => panic!("not drawn"),
        };
        assert_eq!(uploads, 0);
        assert_eq!(texture_bits(&after[1]), texture_bits(&before[0]));
        assert_eq!(texture_bits(&after[0]), texture_bits(&before[1]));
    }
}

#[test]
fn glyphs_at_the_ends_of_the_reach_are_drawn() {
    let mut brush = brush();
    let fonts: Vec<Font<'static>> = brush.fonts().to_vec();
    let mut drawn = 0;
    for (x, y) in [(2147479000.0, 20.3), (-2147479000.0, 20.0), (7.6, 2147479000.0), (7.6, -2147479000.0)] {
        let glyph = fonts[0].glyph('B').scaled(Scale::uniform(30.0)).positioned(point(x, y));
        if !is_in_reach(&glyph) {
            continue;
        }
        let glyphs = vec![SectionGlyph { glyph, color: color(0.0, 1.0), font_id: FontId(0) }];
        let all = Rectangle { min: at(-3e9, -3e9), max: at(3e9, 3e9) };
        brush.queue_pre_positioned(glyphs, all, number(0.0));
        drawn += draw(&mut brush).len();
    }
    assert_eq!(drawn, 4);
}

#[test]
fn no_larger_size_is_suggested_than_can_be_measured() {
    let mut brush: Brush =
        GlyphBrushBuilder::using_font(font()).initial_cache_size((0x8000_0000, 4)).build();
    brush.queue(&section("A", 10.0, 20.0));
    let error = process(&mut brush).err().unwrap();
    assert_eq!(error, BrushError::TextureTooSmall { suggested: (u32::MAX, 8) });
    brush.resize_texture(u32::MAX, 8);
    assert_eq!(draw(&mut brush).len(), 1);
}

#[test]
fn what_fits_is_drawn_whatever_the_texture_held() {
    let mut brush: Brush =
        GlyphBrushBuilder::using_font(font()).initial_cache_size((16, 16)).build();
    for (text, scale) in [("B", 10.0), ("A", 20.0), ("B", 12.0), ("A", 18.0), ("B", 9.0)] {
        brush.queue(&scaled(text, 10.0, scale, 1.0));
        let mut uploads = 0;
        match brush.process_queued(|_, _| uploads += 1, same) {
            Ok(BrushAction::Draw(vertices)) => assert_eq!(vertices.len(), 1),
            _ => panic!("not drawn"),
        }
        assert_eq!(uploads, 1);
    }
    // too large beside what is held
    brush.queue(&scaled("B", 10.0, 9.0, 1.0));
    brush.queue(&scaled("B", 10.0, 14.0, 1.0));
    assert!(process(&mut brush).is_err());
}

#[test]
fn many_letters_fit_in_cells() {
    // 2 letters in 8 scales, each at whole pixels: cells of 7 by 12 pixels, 4 in a row, 4 rows
    let mut brush: Brush =
        GlyphBrushBuilder::using_font(font()).initial_cache_size((28, 48)).build();
    for shift in 0..4 {
        for i in 0..16 {
            let scale = 9.0 + 0.1 * (i % 8) as f32 + 0.02 * shift as f32;
            let mut s = scaled(if i < 8 { "AAAA" } else { "BBBB" }, 10.0, scale, 1.0);
            s.screen_position = at(10.0 + i as f32, 40.0);
            brush.queue(&s);
        }
        assert_eq!(draw(&mut brush).len(), 64);
    }
}

#[test]
fn drawings_lie_in_the_texture() {
    let mut brush: Brush =
        GlyphBrushBuilder::using_font(font()).initial_cache_size((40, 30)).build();
    for scale in [8.0, 10.0, 13.0, 15.0] {
        brush.queue(&scaled("AB", 10.0, scale, 1.0));
    }
    let r = brush.process_queued(
        |rect, data| {
            let region = upload_region(&rect);
            assert!(region.min.x < region.max.x && region.max.x <= 40);
            assert!(region.min.y < region.max.y && region.max.y <= 30);
            let (w, h) = (region.max.x - region.min.x, region.max.y - region.min.y);
            assert_eq!((w, h), (rect.width(), rect.height()));
            assert_eq!(data.len(), (w * h) as usize);
        },
        same,
    );
    assert!(r.is_ok());
}

#[test]
fn a_frame_that_is_redrawn_asks_for_nothing() {
    let mut brush: GlyphBrush<'static, GlyphVertex, Same> =
        GlyphBrushBuilder::using_font(font())
            .section_hasher(Same(0))
            .initial_cache_size((0x8000_0000, 64))
            .build();
    brush.queue(&section("A", 2147483000.0, 20.0));
    let r = brush.try_process_queued(|_, _| {}, same);
    assert!(matches!(r, Some(Ok(BrushAction::ReDraw))));
}

#[test]
fn a_larger_size_is_suggested_even_for_no_size() {
    let mut brush: Brush =
        GlyphBrushBuilder::using_font(font()).initial_cache_size((0, 3)).build();
    brush.queue(&section("A", 10.0, 20.0));
    let error = process(&mut brush).err().unwrap();
    assert_eq!(error, BrushError::TextureTooSmall { suggested: (1, 6) });
}

#[test]
fn a_frame_without_glyphs_fits_any_texture() {
    let mut brush: Brush =
        GlyphBrushBuilder::using_font(font()).initial_cache_size((1, 1)).build();
    brush.queue(&section("", 10.0, 20.0));
    assert_eq!(draw(&mut brush).len(), 0);
}

#[test]
fn a_resized_texture_is_drawn_anew() {
    let mut brush = brush();
    let s = section("A", 10.0, 20.0);
    brush.queue(&s);
    let before = draw(&mut brush);
    brush.queue(&s);
    assert!(is_redraw(&process(&mut brush)));
    brush.resize_texture(512, 128);
    assert_eq!(brush.texture_dimensions(), (512, 128));
    brush.queue(&s);
    let mut uploads = 0;
    let after = match brush.process_queued(|_, _| uploads += 1, same) {
        Ok(BrushAction::Draw(vertices)) => vertices,
        _ => panic!("not drawn"),
    };
    assert_eq!(uploads, 1);
    assert_eq!(before[0].pixel_coords, after[0].pixel_coords);
    let r = after[0].tex_coords;
    assert_eq!(value(r.max.x) - value(r.min.x), 5.0 / 512.0);
    assert_eq!(value(r.max.y) - value(r.min.y), 5.0 / 128.0);
}

#[test]
fn vertices_follow_glyphs_that_move_in_the_texture() {
    let mut brush: Brush =
        GlyphBrushBuilder::using_font(font()).initial_cache_size((26, 26)).build();
    let small = section("A", 10.0, 20.0);
    brush.queue(&small);
    let before = draw(&mut brush);
    let large: Vec<VariedSection<'_, Line>> = [20.0, 19.5, 19.0]
        .iter()
        .map(|scale| {
            let mut s = section("A", 50.0, 40.0);
            s.text[0].scale = at(*scale, *scale);
            s
        })
        .collect();
    brush.queue(&small);
    for s in &large {
        brush.queue(s);
    }
    let after = draw(&mut brush);
    assert_eq!(after.len(), 4);
    assert_eq!(before[0].pixel_coords, after[0].pixel_coords);
    assert_ne!(texture_bits(&before[0]), texture_bits(&after[0]));
    // no two glyphs share a place
    for i in 0..4 {
        for j in 0..i {
            assert_ne!(texture_bits(&after[i]), texture_bits(&after[j]));
        }
    }
    // what is drawn again without a change in the texture stays where it is
    brush.queue(&large[0]);
    brush.queue(&small);
    let last = draw(&mut brush);
    assert_eq!(texture_bits(&last[1]), texture_bits(&after[0]));
}

fn positioned(fonts: &[Font<'static>], x: f32) -> Vec<SectionGlyph<'static>> {
    let glyph = fonts[0].glyph('A').scaled(Scale::uniform(10.0)).positioned(point(x, 20.0));
    vec![SectionGlyph { glyph, color: color(0.0, 1.0), font_id: FontId(0) }]
}

fn wide() -> Rectangle<Float32> {
    Rectangle { min: at(0.0, 0.0), max: at(200.0, 200.0) }
}

#[test]
fn positioned_glyphs_are_drawn_after_the_sections() {
    let mut brush = brush();
    let glyphs = positioned(brush.fonts(), 70.0);
    brush.queue_pre_positioned(glyphs, wide(), number(0.25));
    brush.queue(&section("A", 10.0, 20.0));
    let vertices = draw(&mut brush);
    assert_eq!(vertices.len(), 2);
    assert_eq!(vertices[0].pixel_coords, pixels(10, 15, 15, 20));
    assert_eq!(vertices[1].pixel_coords, pixels(70, 15, 75, 20));
    assert_eq!(value(vertices[1].z), 0.25);
    assert_eq!(value(vertices[1].bounds.max.x), 200.0);
}

#[test]
fn positioned_glyphs_are_redrawn_while_they_do_not_change() {
    let mut brush = brush();
    let fonts: Vec<Font<'static>> = brush.fonts().to_vec();
    brush.queue_pre_positioned(positioned(&fonts, 70.0), wide(), number(0.0));
    assert_eq!(draw(&mut brush).len(), 1);
    brush.queue_pre_positioned(positioned(&fonts, 70.0), wide(), number(-0.0));
    assert!(is_redraw(&process(&mut brush)));
    brush.queue_pre_positioned(positioned(&fonts, 71.0), wide(), number(0.0));
    assert_eq!(draw(&mut brush).len(), 1);
    brush.queue_pre_positioned(positioned(&fonts, 71.0), wide(), number(1.0));
    assert_eq!(draw(&mut brush).len(), 1);
    let mut recoloured = positioned(&fonts, 71.0);
    recoloured[0].color = color(0.5, 1.0);
    brush.queue_pre_positioned(recoloured, wide(), number(1.0));
    assert_eq!(draw(&mut brush).len(), 1);
    brush.queue_pre_positioned(positioned(&fonts, 71.0), wide(), number(f32::NAN));
    assert_eq!(draw(&mut brush).len(), 1);
    brush.queue_pre_positioned(positioned(&fonts, 71.0), wide(), number(f32::NAN));
    assert_eq!(draw(&mut brush).len(), 1);
    assert_eq!(draw(&mut brush).len(), 0);
    assert!(is_redraw(&process(&mut brush)));
}

#[test]
fn positioned_glyphs_are_told_apart_by_shape_and_font() {
    let mut brush = brush();
    brush.add_font(font());
    let fonts: Vec<Font<'static>> = brush.fonts().to_vec();
    let shaped = |c: char, scale: f32, id: usize| -> Vec<SectionGlyph<'static>> {
        let glyph = fonts[0].glyph(c).scaled(Scale::uniform(scale)).positioned(point(70.0, 20.0));
        vec![SectionGlyph { glyph, color: color(0.0, 1.0), font_id: FontId(id) }]
    };
    for (c, scale, id) in [('A', 10.0, 0), ('B', 10.0, 0), ('B', 12.0, 0), ('B', 12.0, 1)] {
        brush.queue_pre_positioned(shaped(c, scale, id), wide(), number(0.0));
        assert_eq!(draw(&mut brush).len(), 1);
        brush.queue_pre_positioned(shaped(c, scale, id), wide(), number(0.0));
        assert!(is_redraw(&process(&mut brush)));
    }
    brush.queue_pre_positioned(shaped('B', 12.0, 1), Rectangle { ..wide() }, number(0.0));
    brush.queue_pre_positioned(shaped('B', 12.0, 1), wide(), number(0.0));
    assert_eq!(draw(&mut brush).len(), 2);
}

#[test]
fn a_glyph_is_read_by_its_parts() {
    let f = font();
    let glyph = f.glyph('B').scaled(Scale { x: 10.0, y: 20.0 }).positioned(point(1.5, -2.0));
    let shape = glyph_shape(&glyph);
    assert_eq!(shape.number, 2);
    assert_eq!((value(shape.scale.x), value(shape.scale.y)), (10.0, 20.0));
    assert_eq!((value(shape.position.x), value(shape.position.y)), (1.5, -2.0));
}

#[test]
fn covered_pixels_are_the_least_around_all_boxes() {
    let limits = Rectangle { min: at(0.5, 0.5), max: at(9.5, 100.0) };
    assert_eq!(covered_pixels(&vec![], &limits), None);
    assert_eq!(covered_pixels(&vec![None, Some(pixels(20, 0, 30, 9))], &limits), None);
    let boxes = vec![Some(pixels(-5, 7, 2, 9)), None, Some(pixels(4, 1, 12, 3))];
    assert_eq!(covered_pixels(&boxes, &limits), Some(pixels(0, 1, 10, 9)));
}

#[test]
fn fonts_are_numbered_as_they_are_added() {
    let mut brush = brush();
    assert_eq!(brush.fonts().len(), 1);
    assert_eq!(brush.add_font(font()), FontId(1));
    let data: &'static [u8] = Box::leak(font_bytes().into_boxed_slice());
    assert_eq!(brush.add_font_bytes(data), FontId(2));
    assert_eq!(brush.try_add_font_bytes(data), Some(FontId(3)));
    assert_eq!(brush.try_add_font_bytes(b"no font"), None);
    assert_eq!(brush.fonts().len(), 4);
    assert_eq!(brush.fonts()[2].glyph('B').id().0, 2);
    let mut s = section("A", 10.0, 20.0);
    s.text[0].font_id = FontId(3);
    brush.queue(&s);
    assert_eq!(draw(&mut brush).len(), 1);
}

#[test]
fn a_brush_is_built_from_the_bytes_of_a_font() {
    let data: &'static [u8] = Box::leak(font_bytes().into_boxed_slice());
    let mut brush: Brush = GlyphBrushBuilder::using_font_bytes(data).build();
    assert_eq!(brush.texture_dimensions(), (256, 256));
    brush.queue(&section("AB", 10.0, 20.0));
    assert_eq!(draw(&mut brush).len(), 2);
    assert!(GlyphBrushBuilder::try_using_font_bytes(data).is_some());
    assert!(GlyphBrushBuilder::try_using_font_bytes(b"no font").is_none());
}

#[test]
fn a_brush_built_from_another_has_its_properties() {
    let brush: Brush = GlyphBrushBuilder::using_fonts(vec![font(), font()])
        .initial_cache_size((128, 128))
        .cache_glyph_positioning(false)
        .cache_glyph_drawing(false)
        .build();
    let builder = brush.to_builder();
    assert!(!builder.cache_glyph_positioning);
    assert!(!builder.cache_glyph_drawing);
    assert_eq!(builder.font_data.len(), 2);
    let new_brush: Brush = builder.build();
    assert_eq!(new_brush.texture_dimensions(), (128, 128));
    assert_eq!(new_brush.fonts().len(), 2);
}

/// A hasher that takes everything for the same.
#[derive(Clone)]
struct Same(u64);

impl SectionHasher for Same {
    fn digests(&self, writes: &Vec<Vec<u8>>) -> Vec<u64> {
        writes.iter().map(|_| self.0).collect()
    }
}

#[test]
fn the_section_hasher_can_be_chosen() {
    let mut brush: GlyphBrush<'static, GlyphVertex, Same> =
        GlyphBrushBuilder::using_font(font()).section_hasher(Same(7)).build();
    let (a, b) = (section("A", 10.0, 20.0), section("BB", 30.0, 20.0));
    brush.queue(&a);
    brush.queue(&b);
    assert_eq!(b.layout.calculated.get(), 0);
    match brush.process_queued(|_, _| {}, same) {
        Ok(BrushAction::Draw(vertices)) => assert_eq!(vertices.len(), 2),
        _ => panic!("not drawn"),
    }
    assert_eq!(brush.to_builder().section_hasher.0, 7);
    // nothing was drawn is what a hash of zero stands for
    let mut brush: GlyphBrush<'static, GlyphVertex, Same> =
        GlyphBrushBuilder::using_font(font()).section_hasher(Same(0)).build();
    brush.queue(&a);
    let r = brush.process_queued(|_, _| {}, same);
    assert!(matches!(r, Ok(BrushAction::ReDraw)));
}
