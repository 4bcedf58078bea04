//! The hashes by which sections are found again, and what two of them tell of a change.
use crate::section::{GlyphChange, GlyphPositioner, SectionGeometry, SectionText, VariedSection};
use std::collections::hash_map::DefaultHasher;
use std::hash::Hasher;
use vstd::bytes::{u32_to_le_bytes, u64_to_le_bytes};
use vstd::prelude::*;
use vstd::std_specs::hash::DefaultHasherAdditionalSpecFns;
use vstd::string::StringSliceAdditionalSpecFns;

verus! {

/// A hash of a section.
pub type SectionHash = u64;

/// The contents of a list of writes.
pub open spec fn contents(writes: Seq<Vec<u8>>) -> Seq<Seq<u8>> {
    writes.map_values(|w: Vec<u8>| w@)
}

/// A source of hashers that all hash alike.
///
/// One that says nothing of [`digest`](SectionHasher::digest) is held to some function of the
/// source and the writes, whichever that is.
pub trait SectionHasher: Sized {
    /// What a hasher answers after it was given these writes. What that is is open unless the
    /// source says it.
    open spec fn digest(&self, writes: Seq<Seq<u8>>) -> u64 {
        vstd::pervasive::arbitrary::<spec_fn(Self, Seq<Seq<u8>>) -> u64>()(*self, writes)
    }

    /// Gives the writes to a new hasher, and its answer after each of them.
    fn digests(&self, writes: &Vec<Vec<u8>>) -> (r: Vec<u64>)
        ensures
            r@.len() == writes@.len(),
            forall|i: int|
                0 <= i < r@.len() ==> #[trigger] r@[i] == self.digest(
                    contents(writes@).take(i + 1),
                ),
    ;
}

/// The hasher used where no other is chosen.
#[derive(Clone, Copy, Debug, Default)]
pub struct DefaultSectionHasher {}

impl SectionHasher for DefaultSectionHasher {
    open spec fn digest(&self, writes: Seq<Seq<u8>>) -> u64 {
        DefaultHasher::spec_finish(writes)
    }

    fn digests(&self, writes: &Vec<Vec<u8>>) -> (r: Vec<u64>) {
        let mut state = DefaultHasher::new();
        let mut r: Vec<u64> = Vec::new();
        let mut i: usize = 0;
        while i < writes.len()
            invariant
                i <= writes@.len(),
                r@.len() == i,
                state@ == contents(writes@).take(i as int),
                forall|j: int|
                    0 <= j < i ==> #[trigger] r@[j] == self.digest(contents(writes@).take(j + 1)),
            decreases writes@.len() - i,
        {
            state.write(writes[i].as_slice());
            assert(state@ =~= contents(writes@).take(i + 1));
            r.push(state.finish());
            i = i + 1;
        }
        r
    }
}

/// What is hashed of a run of text, but for its colour.
pub open spec fn run_bytes(t: SectionText<'_>) -> Seq<u8> {
    t.text.spec_bytes().push(0xff) + vstd::bytes::spec_u64_to_le_bytes(t.font_id.0 as u64)
        + vstd::bytes::spec_u32_to_le_bytes(t.scale.x.canonical())
        + vstd::bytes::spec_u32_to_le_bytes(t.scale.y.canonical())
}

/// What is hashed of the alpha of a run.
pub open spec fn run_alpha_bytes(t: SectionText<'_>) -> Seq<u8> {
    vstd::bytes::spec_u32_to_le_bytes(t.color[3].canonical())
}

/// What is hashed of the colour of a run, but for its alpha.
pub open spec fn run_color_bytes(t: SectionText<'_>) -> Seq<u8> {
    vstd::bytes::spec_u32_to_le_bytes(t.color[0].canonical())
        + vstd::bytes::spec_u32_to_le_bytes(t.color[1].canonical())
        + vstd::bytes::spec_u32_to_le_bytes(t.color[2].canonical())
}

/// What is hashed of the text, but for its colours.
pub open spec fn text_bytes(text: Seq<SectionText<'_>>) -> Seq<u8>
    decreases text.len(),
{
    if text.len() == 0 {
        Seq::empty()
    } else {
        text_bytes(text.drop_last()) + run_bytes(text.last())
    }
}

/// What is hashed of the alpha of the text.
pub open spec fn alpha_bytes(text: Seq<SectionText<'_>>) -> Seq<u8>
    decreases text.len(),
{
    if text.len() == 0 {
        Seq::empty()
    } else {
        alpha_bytes(text.drop_last()) + run_alpha_bytes(text.last())
    }
}

/// What is hashed of the colours of the text, but for their alpha.
pub open spec fn color_bytes(text: Seq<SectionText<'_>>) -> Seq<u8>
    decreases text.len(),
{
    if text.len() == 0 {
        Seq::empty()
    } else {
        color_bytes(text.drop_last()) + run_color_bytes(text.last())
    }
}

/// What is hashed of a geometry.
pub open spec fn geometry_bytes(g: SectionGeometry) -> Seq<u8> {
    vstd::bytes::spec_u32_to_le_bytes(g.screen_position.x.canonical())
        + vstd::bytes::spec_u32_to_le_bytes(g.screen_position.y.canonical())
        + vstd::bytes::spec_u32_to_le_bytes(g.bounds.x.canonical())
        + vstd::bytes::spec_u32_to_le_bytes(g.bounds.y.canonical())
}

/// All that is hashed of a section, in the order in which it is hashed: layout, text, alpha,
/// colours, geometry and depth.
pub open spec fn section_writes<L, G: GlyphPositioner>(
    section: VariedSection<'_, L>,
    layout: G,
) -> Seq<Seq<u8>> {
    seq![
        layout.key(),
        text_bytes(section.text@),
        alpha_bytes(section.text@),
        color_bytes(section.text@),
        geometry_bytes(section.geometry_spec()),
        vstd::bytes::spec_u32_to_le_bytes(section.z.canonical()),
    ]
}

/// What is hashed of a list of section hashes.
pub open spec fn hashes_bytes(hashes: Seq<SectionHash>) -> Seq<u8>
    decreases hashes.len(),
{
    if hashes.len() == 0 {
        Seq::empty()
    } else {
        hashes_bytes(hashes.drop_last()) + vstd::bytes::spec_u64_to_le_bytes(hashes.last())
    }
}

/// The hash of a list of section hashes: of their number, and then of each of them.
pub open spec fn hashes_digest<H: SectionHasher>(hasher: H, hashes: Seq<SectionHash>) -> u64 {
    hasher.digest(
        seq![vstd::bytes::spec_u64_to_le_bytes(hashes.len() as u64), hashes_bytes(hashes)],
    )
}

/// The hashes of a section, each of more of it than the one before.
#[derive(Clone, Copy, Debug)]
pub struct SectionHashDetail {
    /// Hash of the text.
    pub text_no_color_alpha: SectionHash,
    /// Hash of the text and its alpha.
    pub text_no_color: SectionHash,
    /// Hash of the text and its colours, alpha included.
    pub text: SectionHash,
    /// Hash of everything.
    pub full: SectionHash,
    /// The geometry, to be compared later.
    pub geometry: SectionGeometry,
}

/// How a section differs from another.
#[derive(Clone, Copy, Debug, PartialEq, Eq, Structural)]
pub enum SectionHashDiff {
    GeometryChange,
    ColorChange,
    AlphaChange,
    Different,
}

impl SectionHashDetail {
    /// The hashes of a section under a layout.
    pub open spec fn of<H: SectionHasher, L, G: GlyphPositioner>(
        hasher: H,
        section: VariedSection<'_, L>,
        layout: G,
    ) -> SectionHashDetail {
        let writes = section_writes(section, layout);
        SectionHashDetail {
            text_no_color_alpha: hasher.digest(writes.take(2)),
            text_no_color: hasher.digest(writes.take(3)),
            text: hasher.digest(writes.take(4)),
            full: hasher.digest(writes),
            geometry: section.geometry_spec(),
        }
    }

    /// How this section differs from `other`, as far as the hashes tell.
    pub open spec fn diff_spec(self, other: SectionHashDetail) -> SectionHashDiff {
        let placed_alike = crate::section::geometries_equal(self.geometry, other.geometry);
        if self.text == other.text {
            SectionHashDiff::GeometryChange
        } else if placed_alike && self.text_no_color == other.text_no_color {
            SectionHashDiff::ColorChange
        } else if placed_alike && self.text_no_color_alpha == other.text_no_color_alpha {
            SectionHashDiff::AlphaChange
        } else {
            SectionHashDiff::Different
        }
    }

    /// What glyphs of `other` would have to be changed for, to be those of this section.
    pub open spec fn change_from(self, other: SectionHashDetail) -> Option<GlyphChange> {
        match self.diff_spec(other) {
            SectionHashDiff::GeometryChange => Some(GlyphChange::Geometry(other.geometry)),
            SectionHashDiff::ColorChange => Some(GlyphChange::Color),
            SectionHashDiff::AlphaChange => Some(GlyphChange::Alpha),
            SectionHashDiff::Different => None,
        }
    }

    /// Hashes a section under a layout.
    pub fn new<H: SectionHasher, L, G: GlyphPositioner>(
        build_hasher: &H,
        section: &VariedSection<'_, L>,
        layout: &G,
    ) -> (r: Self)
        ensures
            r == SectionHashDetail::of(*build_hasher, *section, *layout),
    {
        let mut writes: Vec<Vec<u8>> = Vec::new();
        writes.push(layout.hash_key());
        writes.push(write_text(&section.text));
        writes.push(write_alpha(&section.text));
        writes.push(write_color(&section.text));
        let geometry = section.geometry();
        writes.push(write_geometry(&geometry));
        writes.push(u32_to_le_bytes(section.z.canonical_bits()));
        let ghost all = section_writes(*section, *layout);
        proof {
            assert(contents(writes@) =~= all);
            assert(all.take(6) =~= all);
        }
        let hashes = build_hasher.digests(&writes);
        SectionHashDetail {
            text_no_color_alpha: hashes[1],
            text_no_color: hashes[2],
            text: hashes[3],
            full: hashes[5],
            geometry,
        }
    }

    /// They're different, but how?
    pub fn diff(self, other: SectionHashDetail) -> (r: SectionHashDiff)
        ensures
            r == self.diff_spec(other),
    {
        if self.text == other.text {
            return SectionHashDiff::GeometryChange;
        } else if self.geometry.same(&other.geometry) {
            if self.text_no_color == other.text_no_color {
                return SectionHashDiff::ColorChange;
            } else if self.text_no_color_alpha == other.text_no_color_alpha {
                return SectionHashDiff::AlphaChange;
            }
        }
        SectionHashDiff::Different
    }

    /// What glyphs of `other` have to be changed for, to be those of this section; none where
    /// they are of no use.
    pub fn change(self, other: SectionHashDetail) -> (r: Option<GlyphChange>)
        ensures
            r == self.change_from(other),
    {
        match self.diff(other) {
            SectionHashDiff::GeometryChange => Some(GlyphChange::Geometry(other.geometry)),
            SectionHashDiff::ColorChange => Some(GlyphChange::Color),
            SectionHashDiff::AlphaChange => Some(GlyphChange::Alpha),
            SectionHashDiff::Different => None,
        }
    }
}

/// Appends bytes to what is to be hashed.
fn write_bytes(out: &mut Vec<u8>, bytes: &[u8])
    ensures
        final(out)@ == old(out)@ + bytes@,
{
    out.extend_from_slice(bytes);
    assert(out@ =~= old(out)@ + bytes@);
}

fn write_text(text: &Vec<SectionText<'_>>) -> (r: Vec<u8>)
    ensures
        r@ == text_bytes(text@),
{
    let mut r: Vec<u8> = Vec::new();
    let mut i: usize = 0;
    while i < text.len()
        invariant
            i <= text@.len(),
            r@ == text_bytes(text@.take(i as int)),
        decreases text@.len() - i,
    {
        let ghost before = r@;
        let t = &text[i];
        write_bytes(&mut r, t.text.as_bytes());
        r.push(0xff);
        write_bytes(&mut r, u64_to_le_bytes(t.font_id.0 as u64).as_slice());
        write_bytes(&mut r, u32_to_le_bytes(t.scale.x.canonical_bits()).as_slice());
        write_bytes(&mut r, u32_to_le_bytes(t.scale.y.canonical_bits()).as_slice());
        proof {
            assert(r@ =~= before + run_bytes(*t));
            assert(text@.take(i + 1).drop_last() =~= text@.take(i as int));
        }
        i = i + 1;
    }
    assert(text@.take(i as int) =~= text@);
    r
}

fn write_alpha(text: &Vec<SectionText<'_>>) -> (r: Vec<u8>)
    ensures
        r@ == alpha_bytes(text@),
{
    let mut r: Vec<u8> = Vec::new();
    let mut i: usize = 0;
    while i < text.len()
        invariant
            i <= text@.len(),
            r@ == alpha_bytes(text@.take(i as int)),
        decreases text@.len() - i,
    {
        write_bytes(&mut r, u32_to_le_bytes(text[i].color[3].canonical_bits()).as_slice());
        assert(text@.take(i + 1).drop_last() =~= text@.take(i as int));
        i = i + 1;
    }
    assert(text@.take(i as int) =~= text@);
    r
}

fn write_color(text: &Vec<SectionText<'_>>) -> (r: Vec<u8>)
    ensures
        r@ == color_bytes(text@),
{
    let mut r: Vec<u8> = Vec::new();
    let mut i: usize = 0;
    while i < text.len()
        invariant
            i <= text@.len(),
            r@ == color_bytes(text@.take(i as int)),
        decreases text@.len() - i,
    {
        let ghost before = r@;
        let t = &text[i];
        write_bytes(&mut r, u32_to_le_bytes(t.color[0].canonical_bits()).as_slice());
        write_bytes(&mut r, u32_to_le_bytes(t.color[1].canonical_bits()).as_slice());
        write_bytes(&mut r, u32_to_le_bytes(t.color[2].canonical_bits()).as_slice());
        proof {
            assert(r@ =~= before + run_color_bytes(*t));
            assert(text@.take(i + 1).drop_last() =~= text@.take(i as int));
        }
        i = i + 1;
    }
    assert(text@.take(i as int) =~= text@);
    r
}

fn write_geometry(g: &SectionGeometry) -> (r: Vec<u8>)
    ensures
        r@ == geometry_bytes(*g),
{
    let mut r: Vec<u8> = u32_to_le_bytes(g.screen_position.x.canonical_bits());
    write_bytes(&mut r, u32_to_le_bytes(g.screen_position.y.canonical_bits()).as_slice());
    write_bytes(&mut r, u32_to_le_bytes(g.bounds.x.canonical_bits()).as_slice());
    write_bytes(&mut r, u32_to_le_bytes(g.bounds.y.canonical_bits()).as_slice());
    r
}

/// Hashes a list of section hashes.
pub fn hash_hashes<H: SectionHasher>(hasher: &H, hashes: &Vec<SectionHash>) -> (r: u64)
    ensures
        r == hashes_digest(*hasher, hashes@),
{
    let mut bytes: Vec<u8> = Vec::new();
    let mut i: usize = 0;
    while i < hashes.len()
        invariant
            i <= hashes@.len(),
            bytes@ == hashes_bytes(hashes@.take(i as int)),
        decreases hashes@.len() - i,
    {
        write_bytes(&mut bytes, u64_to_le_bytes(hashes[i]).as_slice());
        assert(hashes@.take(i + 1).drop_last() =~= hashes@.take(i as int));
        i = i + 1;
    }
    assert(hashes@.take(i as int) =~= hashes@);
    let mut writes: Vec<Vec<u8>> = Vec::new();
    writes.push(u64_to_le_bytes(hashes.len() as u64));
    writes.push(bytes);
    let digests = hasher.digests(&writes);
    proof {
        assert(contents(writes@).take(2) =~= seq![
            vstd::bytes::spec_u64_to_le_bytes(hashes@.len() as u64),
            hashes_bytes(hashes@),
        ]);
    }
    digests[1]
}

} // verus!
