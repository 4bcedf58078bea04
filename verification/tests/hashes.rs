use glyph_brush::float32::Float32;
use glyph_brush::geometry::{Point, Rectangle};
use glyph_brush::glyph::{FontId, SectionGlyph};
use glyph_brush::hashing::{
    hash_hashes, DefaultSectionHasher, SectionHashDetail, SectionHashDiff, SectionHasher,
};
use glyph_brush::section::{
    GlyphChange, GlyphPositioner, SectionGeometry, SectionText, VariedSection,
};
use rusttype::Font;
use std::borrow::Cow;
use std::cell::RefCell;
use std::collections::hash_map::DefaultHasher;
use std::hash::{Hash, Hasher};

struct Keyed(u8);

impl GlyphPositioner for Keyed {
    fn hash_key(&self) -> Vec<u8> {
        vec![self.0]
    }

    fn calculate_glyphs<'font>(
        &self,
        _: &Vec<Font<'font>>,
        _: &SectionGeometry,
        _: &Vec<SectionText<'_>>,
    ) -> Vec<SectionGlyph<'font>> {
        Vec::new()
    }

    fn bounds_rect(&self, geometry: &SectionGeometry) -> Rectangle<Float32> {
        Rectangle { min: geometry.screen_position, max: geometry.bounds }
    }

    fn recalculate_glyphs<'font>(
        &self,
        _: Cow<'_, Vec<SectionGlyph<'font>>>,
        _: GlyphChange,
        _: &Vec<Font<'font>>,
        _: &SectionGeometry,
        _: &Vec<SectionText<'_>>,
    ) -> Vec<SectionGlyph<'font>> {
        Vec::new()
    }
}

fn number(x: f32) -> Float32 {
    Float32::from_bits(x.to_bits())
}

fn at(x: f32, y: f32) -> Point<Float32> {
    Point { x: number(x), y: number(y) }
}

fn sample() -> VariedSection<'static, Keyed> {
    VariedSection {
        screen_position: at(1.0, 2.0),
        bounds: at(3.0, 4.0),
        z: number(5.0),
        layout: Keyed(9),
        text: vec![SectionText {
            text: "ab",
            scale: at(6.0, 7.0),
            color: [number(0.1), number(0.2), number(0.3), number(0.4)],
            font_id: FontId(258),
        }],
    }
}

fn hashes(s: &VariedSection<'static, Keyed>) -> SectionHashDetail {
    SectionHashDetail::new(&DefaultSectionHasher {}, s, &s.layout)
}

/// A hasher that keeps what it is given.
struct Recorder {
    seen: RefCell<Vec<Vec<u8>>>,
}

impl SectionHasher for Recorder {
    fn digests(&self, writes: &Vec<Vec<u8>>) -> Vec<u64> {
        *self.seen.borrow_mut() = writes.clone();
        (0..writes.len() as u64).map(|i| 100 + i).collect()
    }
}

#[test]
fn a_section_is_hashed_part_by_part() {
    let recorder = Recorder { seen: RefCell::new(Vec::new()) };
    let s = sample();
    let detail = SectionHashDetail::new(&recorder, &s, &s.layout);
    assert_eq!(detail.text_no_color_alpha, 101);
    assert_eq!(detail.text_no_color, 102);
    assert_eq!(detail.text, 103);
    assert_eq!(detail.full, 105);
    assert_eq!(detail.geometry.screen_position.x.bits, 1.0f32.to_bits());
    let seen = recorder.seen.borrow();
    assert_eq!(seen.len(), 6);
    assert_eq!(seen[0], vec![9]);
    let mut text: Vec<u8> = vec![b'a', b'b', 0xff, 2, 1, 0, 0, 0, 0, 0, 0];
    text.extend_from_slice(&6.0f32.to_bits().to_le_bytes());
    text.extend_from_slice(&7.0f32.to_bits().to_le_bytes());
    assert_eq!(seen[1], text);
    assert_eq!(seen[2], 0.4f32.to_bits().to_le_bytes().to_vec());
    let mut color: Vec<u8> = Vec::new();
    for x in [0.1f32, 0.2, 0.3] {
        color.extend_from_slice(&x.to_bits().to_le_bytes());
    }
    assert_eq!(seen[3], color);
    let mut geometry: Vec<u8> = Vec::new();
    for x in [1.0f32, 2.0, 3.0, 4.0] {
        geometry.extend_from_slice(&x.to_bits().to_le_bytes());
    }
    assert_eq!(seen[4], geometry);
    assert_eq!(seen[5], 5.0f32.to_bits().to_le_bytes().to_vec());
}

#[test]
fn the_usual_hasher_is_that_of_std() {
    let digests = DefaultSectionHasher {}.digests(&vec![vec![1, 2], vec![3]]);
    let mut h = DefaultHasher::new();
    h.write(&[1, 2]);
    assert_eq!(digests[0], h.finish());
    h.write(&[3]);
    assert_eq!(digests[1], h.finish());
    assert_eq!(digests.len(), 2);
}

#[test]
fn a_list_of_hashes_is_hashed_as_std_does() {
    for list in [vec![], vec![1u64], vec![1, 2, 3], vec![u64::MAX, 0, 77]] {
        let mut h = DefaultHasher::new();
        list.hash(&mut h);
        assert_eq!(hash_hashes(&DefaultSectionHasher {}, &list), h.finish());
    }
    let some = hash_hashes(&DefaultSectionHasher {}, &vec![1, 2]);
    assert_ne!(some, hash_hashes(&DefaultSectionHasher {}, &vec![2, 1]));
}

#[test]
fn moved_sections_differ_in_geometry() {
    let a = sample();
    let mut b = sample();
    b.screen_position = at(10.0, 2.0);
    b.z = number(9.0);
    assert_eq!(hashes(&a).diff(hashes(&b)), SectionHashDiff::GeometryChange);
    assert_ne!(hashes(&a).full, hashes(&b).full);
    match hashes(&a).change(hashes(&b)) {
        Some(GlyphChange::Geometry(g)) => {
            assert_eq!(g.screen_position.x.bits, 10.0f32.to_bits())
        }
        _ => panic!("not a change of geometry"),
    }
}

#[test]
fn recoloured_sections_differ_in_colour() {
    let a = sample();
    let mut b = sample();
    b.text[0].color[1] = number(0.9);
    assert_eq!(hashes(&a).diff(hashes(&b)), SectionHashDiff::ColorChange);
    assert!(matches!(hashes(&a).change(hashes(&b)), Some(GlyphChange::Color)));
    b.bounds = at(3.0, 5.0);
    assert_eq!(hashes(&a).diff(hashes(&b)), SectionHashDiff::Different);
}

#[test]
fn faded_sections_differ_in_alpha() {
    let a = sample();
    let mut b = sample();
    b.text[0].color = [number(0.5), number(0.2), number(0.3), number(0.8)];
    assert_eq!(hashes(&a).diff(hashes(&b)), SectionHashDiff::AlphaChange);
    assert!(matches!(hashes(&a).change(hashes(&b)), Some(GlyphChange::Alpha)));
    b.screen_position = at(f32::NAN, 2.0);
    assert_eq!(hashes(&a).diff(hashes(&b)), SectionHashDiff::Different);
}

#[test]
fn other_texts_and_layouts_are_different() {
    let a = sample();
    let mut b = sample();
    b.text[0].text = "ac";
    assert_eq!(hashes(&a).diff(hashes(&b)), SectionHashDiff::Different);
    assert!(hashes(&a).change(hashes(&b)).is_none());
    let mut c = sample();
    c.layout = Keyed(8);
    assert_eq!(hashes(&a).diff(hashes(&c)), SectionHashDiff::Different);
    let mut d = sample();
    d.text[0].scale = at(6.0, 8.0);
    assert_eq!(hashes(&a).diff(hashes(&d)), SectionHashDiff::Different);
    let mut e = sample();
    e.text[0].font_id = FontId(3);
    assert_eq!(hashes(&a).diff(hashes(&e)), SectionHashDiff::Different);
}

#[test]
fn equal_sections_share_their_hash() {
    let mut a = sample();
    let mut b = sample();
    a.screen_position = at(0.0, 2.0);
    b.screen_position = at(-0.0, 2.0);
    assert_eq!(hashes(&a).full, hashes(&b).full);
    assert_eq!(hashes(&a).text, hashes(&b).text);
}
