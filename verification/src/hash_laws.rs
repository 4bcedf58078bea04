//! What hashes tell of sections.
use crate::float32::Float32;
use crate::hashing::{
    color_bytes, run_bytes, run_color_bytes, section_writes, text_bytes, SectionHash,
    SectionHashDetail, SectionHashDiff, SectionHasher,
};
use crate::number_laws::{alike, equal};
use crate::section::{GlyphChange, GlyphPositioner, SectionGeometry, SectionText, VariedSection};
use vstd::bytes::{spec_u32_to_le_bytes, spec_u64_to_le_bytes};
use vstd::prelude::*;
use vstd::std_specs::hash::DefaultHasherAdditionalSpecFns;
use vstd::string::StringSliceAdditionalSpecFns;

verus! {

/// Whether two texts have the same runs but for their colours: the same characters in the same
/// fonts and scales, run by run.
pub open spec fn same_runs(a: Seq<SectionText<'_>>, b: Seq<SectionText<'_>>) -> bool {
    &&& a.len() == b.len()
    &&& forall|i: int|
        0 <= i < a.len() ==> {
            &&& (#[trigger] a[i]).text@ == b[i].text@
            &&& a[i].font_id.0 == b[i].font_id.0
            &&& alike(a[i].scale.x, b[i].scale.x)
            &&& alike(a[i].scale.y, b[i].scale.y)
        }
}

/// Whether the runs of two texts have the same alphas.
pub open spec fn same_alphas(a: Seq<SectionText<'_>>, b: Seq<SectionText<'_>>) -> bool {
    &&& a.len() == b.len()
    &&& forall|i: int| 0 <= i < a.len() ==> alike((#[trigger] a[i]).color[3], b[i].color[3])
}

/// Whether the runs of two texts have the same reds, greens and blues.
pub open spec fn same_colors(a: Seq<SectionText<'_>>, b: Seq<SectionText<'_>>) -> bool {
    &&& a.len() == b.len()
    &&& forall|i: int|
        0 <= i < a.len() ==> {
            &&& alike((#[trigger] a[i]).color[0], b[i].color[0])
            &&& alike(a[i].color[1], b[i].color[1])
            &&& alike(a[i].color[2], b[i].color[2])
        }
}

/// Whether a hasher answers differently for two lists of writes, if they differ.
pub open spec fn told<H: SectionHasher>(hasher: H, x: Seq<Seq<u8>>, y: Seq<Seq<u8>>) -> bool {
    hasher.digest(x) == hasher.digest(y) ==> x == y
}

proof fn lemma_no_end_byte(bytes: Seq<u8>)
    requires
        vstd::utf8::valid_utf8(bytes),
    ensures
        forall|i: int| 0 <= i < bytes.len() ==> #[trigger] bytes[i] != 0xff,
    decreases bytes.len(),
{
    if bytes.len() > 0 {
        let rest = vstd::utf8::pop_first_scalar(bytes);
        let n = vstd::utf8::length_of_first_scalar(bytes);
        lemma_no_end_byte(rest);
        assert forall|i: int| 0 <= i < bytes.len() implies #[trigger] bytes[i] != 0xff by {
            if i >= n {
                assert(bytes[i] == rest[i - n]);
            }
        }
    }
}

/// A string that is ended by a byte that no string holds is told from what follows.
proof fn lemma_ended(a: Seq<u8>, b: Seq<u8>, after_a: Seq<u8>, after_b: Seq<u8>)
    requires
        a.push(0xff) + after_a == b.push(0xff) + after_b,
        forall|i: int| 0 <= i < a.len() ==> #[trigger] a[i] != 0xff,
        forall|i: int| 0 <= i < b.len() ==> #[trigger] b[i] != 0xff,
    ensures
        a == b,
        after_a == after_b,
{
    let (x, y) = (a.push(0xff) + after_a, b.push(0xff) + after_b);
    assert(x[a.len() as int] == 0xff);
    assert(y[b.len() as int] == 0xff);
    if a.len() < b.len() {
        assert(y[a.len() as int] == b[a.len() as int]);
    }
    if b.len() < a.len() {
        assert(x[b.len() as int] == a[b.len() as int]);
    }
    assert forall|i: int| 0 <= i < a.len() implies a[i] == b[i] by {
        assert(x[i] == a[i] && y[i] == b[i]);
    }
    assert(a =~= b);
    lemma_parts(a.push(0xff), b.push(0xff), after_a, after_b);
}

/// Two joined lists whose first parts are equally long have the same parts where they are the
/// same.
proof fn lemma_parts(a: Seq<u8>, b: Seq<u8>, after_a: Seq<u8>, after_b: Seq<u8>)
    requires
        a + after_a == b + after_b,
        a.len() == b.len(),
    ensures
        a == b,
        after_a == after_b,
{
    let (x, y) = (a + after_a, b + after_b);
    assert(a =~= x.take(a.len() as int));
    assert(b =~= y.take(a.len() as int));
    assert(after_a =~= x.skip(a.len() as int));
    assert(after_b =~= y.skip(a.len() as int));
}

/// The bytes of a number of four bytes tell it.
proof fn lemma_number(a: Float32, b: Float32)
    ensures
        spec_u32_to_le_bytes(a.canonical()).len() == 4,
        spec_u32_to_le_bytes(a.canonical()) == spec_u32_to_le_bytes(b.canonical()) <==> alike(a, b),
{
    vstd::bytes::lemma_auto_spec_u32_to_from_le_bytes();
    crate::number_laws::patterns_hash_alike(a, b);
    assert(spec_u32_to_le_bytes(a.canonical()).len() == 4);
    assert(spec_u32_to_le_bytes(b.canonical()).len() == 4);
    assert(vstd::bytes::spec_u32_from_le_bytes(spec_u32_to_le_bytes(a.canonical()))
        == a.canonical());
    assert(vstd::bytes::spec_u32_from_le_bytes(spec_u32_to_le_bytes(b.canonical()))
        == b.canonical());
}

/// The bytes of a run tell it, whatever follows.
proof fn lemma_run(a: SectionText<'_>, b: SectionText<'_>, after_a: Seq<u8>, after_b: Seq<u8>)
    requires
        run_bytes(a) + after_a == run_bytes(b) + after_b,
    ensures
        a.text@ == b.text@,
        a.font_id.0 == b.font_id.0,
        alike(a.scale.x, b.scale.x),
        alike(a.scale.y, b.scale.y),
        after_a == after_b,
{
    let (ta, tb) = (a.text.spec_bytes(), b.text.spec_bytes());
    vstd::utf8::encode_utf8_valid_utf8(a.text@);
    vstd::utf8::encode_utf8_valid_utf8(b.text@);
    vstd::utf8::encode_utf8_decode_utf8(a.text@);
    vstd::utf8::encode_utf8_decode_utf8(b.text@);
    lemma_no_end_byte(ta);
    lemma_no_end_byte(tb);
    vstd::bytes::lemma_auto_spec_u64_to_from_le_bytes();
    lemma_number(a.scale.x, b.scale.x);
    lemma_number(b.scale.x, a.scale.x);
    lemma_number(a.scale.y, b.scale.y);
    lemma_number(b.scale.y, a.scale.y);
    let (fa, fb) = (
        spec_u64_to_le_bytes(a.font_id.0 as u64),
        spec_u64_to_le_bytes(b.font_id.0 as u64),
    );
    let (xa, xb) = (
        spec_u32_to_le_bytes(a.scale.x.canonical()),
        spec_u32_to_le_bytes(b.scale.x.canonical()),
    );
    let (ya, yb) = (
        spec_u32_to_le_bytes(a.scale.y.canonical()),
        spec_u32_to_le_bytes(b.scale.y.canonical()),
    );
    assert(run_bytes(a) + after_a =~= ta.push(0xff) + (fa + (xa + (ya + after_a))));
    assert(run_bytes(b) + after_b =~= tb.push(0xff) + (fb + (xb + (yb + after_b))));
    lemma_ended(ta, tb, fa + (xa + (ya + after_a)), fb + (xb + (yb + after_b)));
    lemma_parts(fa, fb, xa + (ya + after_a), xb + (yb + after_b));
    lemma_parts(xa, xb, ya + after_a, yb + after_b);
    lemma_parts(ya, yb, after_a, after_b);
    assert(vstd::bytes::spec_u64_from_le_bytes(fa) == a.font_id.0 as u64);
    assert(vstd::bytes::spec_u64_from_le_bytes(fb) == b.font_id.0 as u64);
}

/// What is written of a text starts with its first run.
proof fn lemma_first_run(text: Seq<SectionText<'_>>)
    requires
        text.len() > 0,
    ensures
        text_bytes(text) == run_bytes(text[0]) + text_bytes(text.skip(1)),
    decreases text.len(),
{
    let front = text.drop_last();
    if front.len() > 0 {
        lemma_first_run(front);
        assert(text.skip(1).drop_last() =~= front.skip(1));
        assert(text.skip(1).last() == text.last());
        assert(text_bytes(text) =~= run_bytes(text[0]) + text_bytes(text.skip(1)));
    } else {
        assert(text.skip(1) =~= Seq::empty());
        assert(text_bytes(front) =~= Seq::empty());
        assert(text_bytes(text) =~= run_bytes(text[0]) + text_bytes(text.skip(1)));
    }
}

proof fn lemma_runs_told(a: Seq<SectionText<'_>>, b: Seq<SectionText<'_>>)
    requires
        text_bytes(a) == text_bytes(b),
    ensures
        same_runs(a, b),
    decreases a.len(),
{
    if a.len() > 0 {
        lemma_first_run(a);
    }
    if b.len() > 0 {
        lemma_first_run(b);
    }
    if a.len() > 0 && b.len() > 0 {
        lemma_run(a[0], b[0], text_bytes(a.skip(1)), text_bytes(b.skip(1)));
        let (ra, rb) = (a.skip(1), b.skip(1));
        lemma_runs_told(ra, rb);
        assert forall|i: int| 0 <= i < a.len() implies {
            &&& (#[trigger] a[i]).text@ == b[i].text@
            &&& a[i].font_id.0 == b[i].font_id.0
            &&& alike(a[i].scale.x, b[i].scale.x)
            &&& alike(a[i].scale.y, b[i].scale.y)
        } by {
            if i > 0 {
                assert(ra[i - 1] == a[i] && rb[i - 1] == b[i]);
            }
        }
    } else if a.len() > 0 {
        assert(run_bytes(a[0]).len() > 0);
        assert(text_bytes(b).len() == 0);
    } else if b.len() > 0 {
        assert(run_bytes(b[0]).len() > 0);
        assert(text_bytes(a).len() == 0);
    }
}

proof fn lemma_runs_written(a: Seq<SectionText<'_>>, b: Seq<SectionText<'_>>)
    requires
        same_runs(a, b),
    ensures
        text_bytes(a) == text_bytes(b),
    decreases a.len(),
{
    if a.len() > 0 {
        let (fa, fb) = (a.drop_last(), b.drop_last());
        assert forall|i: int| 0 <= i < fa.len() implies #[trigger] fa[i] == a[i] && fb[i]
            == b[i] by {}
        lemma_runs_written(fa, fb);
        let (x, y) = (a[a.len() - 1], b[b.len() - 1]);
        lemma_number(x.scale.x, y.scale.x);
        lemma_number(x.scale.y, y.scale.y);
    }
}

/// What is written of the alphas tells them.
proof fn lemma_alphas(a: Seq<SectionText<'_>>, b: Seq<SectionText<'_>>)
    ensures
        crate::hashing::alpha_bytes(a).len() == 4 * a.len(),
        crate::hashing::alpha_bytes(b).len() == 4 * b.len(),
        crate::hashing::alpha_bytes(a) == crate::hashing::alpha_bytes(b) <==> same_alphas(a, b),
    decreases a.len() + b.len(),
{
    if a.len() > 0 && b.len() > 0 {
        let (fa, fb) = (a.drop_last(), b.drop_last());
        let (x, y) = (a[a.len() - 1], b[b.len() - 1]);
        lemma_alphas(fa, fb);
        lemma_number(x.color[3], y.color[3]);
        lemma_number(y.color[3], x.color[3]);
        let (wa, wb) = (crate::hashing::alpha_bytes(a), crate::hashing::alpha_bytes(b));
        assert(wa.len() == 4 * a.len());
        assert(wb.len() == 4 * b.len());
        if wa == wb {
            lemma_parts(
                crate::hashing::alpha_bytes(fa),
                crate::hashing::alpha_bytes(fb),
                spec_u32_to_le_bytes(x.color[3].canonical()),
                spec_u32_to_le_bytes(y.color[3].canonical()),
            );
            assert forall|i: int| 0 <= i < a.len() implies alike(
                (#[trigger] a[i]).color[3],
                b[i].color[3],
            ) by {
                if i < fa.len() {
                    assert(fa[i] == a[i] && fb[i] == b[i]);
                }
            }
        }
        if same_alphas(a, b) {
            assert forall|i: int| 0 <= i < fa.len() implies #[trigger] fa[i] == a[i] && fb[i]
                == b[i] by {}
        }
    } else if a.len() > 0 {
        lemma_alphas(a.drop_last(), b);
        lemma_number(a[a.len() - 1].color[3], a[a.len() - 1].color[3]);
    } else if b.len() > 0 {
        lemma_alphas(a, b.drop_last());
        lemma_number(b[b.len() - 1].color[3], b[b.len() - 1].color[3]);
    }
}

proof fn lemma_run_color(a: SectionText<'_>, b: SectionText<'_>)
    ensures
        run_color_bytes(a).len() == 12,
        run_color_bytes(a) == run_color_bytes(b) <==> alike(a.color[0], b.color[0]) && alike(
            a.color[1],
            b.color[1],
        ) && alike(a.color[2], b.color[2]),
{
    lemma_number(a.color[0], b.color[0]);
    lemma_number(a.color[1], b.color[1]);
    lemma_number(a.color[2], b.color[2]);
    lemma_number(b.color[0], a.color[0]);
    lemma_number(b.color[1], a.color[1]);
    lemma_number(b.color[2], a.color[2]);
    if run_color_bytes(a) == run_color_bytes(b) {
        let (a0, b0) = (
            spec_u32_to_le_bytes(a.color[0].canonical()),
            spec_u32_to_le_bytes(b.color[0].canonical()),
        );
        let (a1, b1) = (
            spec_u32_to_le_bytes(a.color[1].canonical()),
            spec_u32_to_le_bytes(b.color[1].canonical()),
        );
        let (a2, b2) = (
            spec_u32_to_le_bytes(a.color[2].canonical()),
            spec_u32_to_le_bytes(b.color[2].canonical()),
        );
        lemma_parts(a0 + a1, b0 + b1, a2, b2);
        lemma_parts(a0, b0, a1, b1);
    }
}

/// What is written of the colours tells them.
proof fn lemma_colors(a: Seq<SectionText<'_>>, b: Seq<SectionText<'_>>)
    ensures
        color_bytes(a).len() == 12 * a.len(),
        color_bytes(b).len() == 12 * b.len(),
        color_bytes(a) == color_bytes(b) <==> same_colors(a, b),
    decreases a.len() + b.len(),
{
    if a.len() > 0 && b.len() > 0 {
        let (fa, fb) = (a.drop_last(), b.drop_last());
        let (x, y) = (a[a.len() - 1], b[b.len() - 1]);
        lemma_colors(fa, fb);
        lemma_run_color(x, y);
        lemma_run_color(y, x);
        assert(color_bytes(a).len() == 12 * a.len());
        assert(color_bytes(b).len() == 12 * b.len());
        if color_bytes(a) == color_bytes(b) {
            lemma_parts(color_bytes(fa), color_bytes(fb), run_color_bytes(x), run_color_bytes(y));
            assert forall|i: int| 0 <= i < a.len() implies {
                &&& alike((#[trigger] a[i]).color[0], b[i].color[0])
                &&& alike(a[i].color[1], b[i].color[1])
                &&& alike(a[i].color[2], b[i].color[2])
            } by {
                if i < fa.len() {
                    assert(fa[i] == a[i] && fb[i] == b[i]);
                }
            }
        }
        if same_colors(a, b) {
            assert forall|i: int| 0 <= i < fa.len() implies #[trigger] fa[i] == a[i] && fb[i]
                == b[i] by {}
        }
    } else if a.len() > 0 {
        lemma_colors(a.drop_last(), b);
        lemma_run_color(a[a.len() - 1], a[a.len() - 1]);
    } else if b.len() > 0 {
        lemma_colors(a, b.drop_last());
        lemma_run_color(b[b.len() - 1], b[b.len() - 1]);
    }
}

/// What is written of a geometry tells it.
proof fn lemma_geometry(a: SectionGeometry, b: SectionGeometry)
    ensures
        crate::hashing::geometry_bytes(a) == crate::hashing::geometry_bytes(b) <==> {
            &&& alike(a.screen_position.x, b.screen_position.x)
            &&& alike(a.screen_position.y, b.screen_position.y)
            &&& alike(a.bounds.x, b.bounds.x)
            &&& alike(a.bounds.y, b.bounds.y)
        },
{
    lemma_number(a.screen_position.x, b.screen_position.x);
    lemma_number(a.screen_position.y, b.screen_position.y);
    lemma_number(a.bounds.x, b.bounds.x);
    lemma_number(a.bounds.y, b.bounds.y);
    lemma_number(b.screen_position.x, a.screen_position.x);
    lemma_number(b.screen_position.y, a.screen_position.y);
    lemma_number(b.bounds.x, a.bounds.x);
    lemma_number(b.bounds.y, a.bounds.y);
    let (a0, b0) = (
        spec_u32_to_le_bytes(a.screen_position.x.canonical()),
        spec_u32_to_le_bytes(b.screen_position.x.canonical()),
    );
    let (a1, b1) = (
        spec_u32_to_le_bytes(a.screen_position.y.canonical()),
        spec_u32_to_le_bytes(b.screen_position.y.canonical()),
    );
    let (a2, b2) = (
        spec_u32_to_le_bytes(a.bounds.x.canonical()),
        spec_u32_to_le_bytes(b.bounds.x.canonical()),
    );
    let (a3, b3) = (
        spec_u32_to_le_bytes(a.bounds.y.canonical()),
        spec_u32_to_le_bytes(b.bounds.y.canonical()),
    );
    if crate::hashing::geometry_bytes(a) == crate::hashing::geometry_bytes(b) {
        lemma_parts(a0 + a1 + a2, b0 + b1 + b2, a3, b3);
        lemma_parts(a0 + a1, b0 + b1, a2, b2);
        lemma_parts(a0, b0, a1, b1);
    }
}

/// Whether two sections are the same under their layouts: the runs, the colours with their
/// alphas, the place, the bounds and the depth, and what stands for the layouts.
pub open spec fn same_sections<L, M, G: GlyphPositioner, K: GlyphPositioner>(
    a: VariedSection<'_, L>,
    b: VariedSection<'_, M>,
    p: G,
    q: K,
) -> bool {
    &&& p.key() == q.key()
    &&& same_runs(a.text@, b.text@)
    &&& same_alphas(a.text@, b.text@)
    &&& same_colors(a.text@, b.text@)
    &&& alike(a.screen_position.x, b.screen_position.x)
    &&& alike(a.screen_position.y, b.screen_position.y)
    &&& alike(a.bounds.x, b.bounds.x)
    &&& alike(a.bounds.y, b.bounds.y)
    &&& alike(a.z, b.z)
}

/// What is written to a hasher tells sections apart. Two sections give the same writes just where
/// they are the same; their first four writes are the same just where they have the same layout,
/// text and colours with alphas, the first three without regard to the other colours, and the
/// first two without regard to the alphas either.
pub proof fn writes_tell_sections_apart<L, M, G: GlyphPositioner, K: GlyphPositioner>(
    a: VariedSection<'_, L>,
    b: VariedSection<'_, M>,
    p: G,
    q: K,
)
    ensures
        section_writes(a, p) == section_writes(b, q) <==> same_sections(a, b, p, q),
        section_writes(a, p).take(4) == section_writes(b, q).take(4) <==> p.key() == q.key()
            && same_runs(a.text@, b.text@) && same_alphas(a.text@, b.text@) && same_colors(
            a.text@,
            b.text@,
        ),
        section_writes(a, p).take(3) == section_writes(b, q).take(3) <==> p.key() == q.key()
            && same_runs(a.text@, b.text@) && same_alphas(a.text@, b.text@),
        section_writes(a, p).take(2) == section_writes(b, q).take(2) <==> p.key() == q.key()
            && same_runs(a.text@, b.text@),
{
    let (x, y) = (section_writes(a, p), section_writes(b, q));
    if text_bytes(a.text@) == text_bytes(b.text@) {
        lemma_runs_told(a.text@, b.text@);
    }
    if same_runs(a.text@, b.text@) {
        lemma_runs_written(a.text@, b.text@);
    }
    lemma_alphas(a.text@, b.text@);
    lemma_colors(a.text@, b.text@);
    lemma_geometry(a.geometry_spec(), b.geometry_spec());
    lemma_number(a.z, b.z);
    assert(x.len() == 6 && y.len() == 6);
    let same = |n: int| forall|i: int| 0 <= i < n ==> #[trigger] x[i] == y[i];
    assert forall|n: int| 0 <= n <= 6 implies (#[trigger] x.take(n) == y.take(n)) == same(n) by {
        if x.take(n) == y.take(n) {
            assert forall|i: int| 0 <= i < n implies #[trigger] x[i] == y[i] by {
                assert(x.take(n)[i] == y.take(n)[i]);
            }
        }
        if same(n) {
            assert(x.take(n) =~= y.take(n));
        }
    }
    assert(x.take(6) =~= x);
    assert(y.take(6) =~= y);
    assert(x.take(2) == y.take(2) <==> same(2));
    assert(x.take(3) == y.take(3) <==> same(3));
    assert(x.take(4) == y.take(4) <==> same(4));
    assert(x.take(6) == y.take(6) <==> same(6));
    assert(same(2) <==> x[0] == y[0] && x[1] == y[1]);
    assert(same(3) <==> same(2) && x[2] == y[2]);
    assert(same(4) <==> same(3) && x[3] == y[3]);
    assert(same(6) <==> same(4) && x[4] == y[4] && x[5] == y[5]);
}

/// The hashes of sections tell what the sections share: each is the same for sections that share
/// what it is of, and, unless the hasher answers alike for what is written of the two, for no
/// others. The geometry is kept as it is.
pub proof fn hashes_tell_sections_apart<H: SectionHasher, L, M, G: GlyphPositioner, K: GlyphPositioner>(
    hasher: H,
    a: VariedSection<'_, L>,
    b: VariedSection<'_, M>,
    p: G,
    q: K,
)
    ensures
        ({
            let (x, y) = (
                SectionHashDetail::of(hasher, a, p),
                SectionHashDetail::of(hasher, b, q),
            );
            let (v, w) = (section_writes(a, p), section_writes(b, q));
            let runs = p.key() == q.key() && same_runs(a.text@, b.text@);
            let alphas = runs && same_alphas(a.text@, b.text@);
            let colors = alphas && same_colors(a.text@, b.text@);
            &&& same_sections(a, b, p, q) ==> x.full == y.full
            &&& x.full == y.full && told(hasher, v, w) ==> same_sections(a, b, p, q)
            &&& colors ==> x.text == y.text
            &&& x.text == y.text && told(hasher, v.take(4), w.take(4)) ==> colors
            &&& alphas ==> x.text_no_color == y.text_no_color
            &&& x.text_no_color == y.text_no_color && told(hasher, v.take(3), w.take(3)) ==> alphas
            &&& runs ==> x.text_no_color_alpha == y.text_no_color_alpha
            &&& x.text_no_color_alpha == y.text_no_color_alpha && told(
                hasher,
                v.take(2),
                w.take(2),
            ) ==> runs
            &&& x.geometry == (SectionGeometry {
                screen_position: a.screen_position,
                bounds: a.bounds,
            })
        }),
{
    writes_tell_sections_apart(a, b, p, q);
}

/// Whether two sections are laid out at equal places and within equal bounds.
pub open spec fn placed_alike<L, M>(a: VariedSection<'_, L>, b: VariedSection<'_, M>) -> bool {
    &&& equal(a.screen_position.x, b.screen_position.x)
    &&& equal(a.screen_position.y, b.screen_position.y)
    &&& equal(a.bounds.x, b.bounds.x)
    &&& equal(a.bounds.y, b.bounds.y)
}

/// What the glyphs of `b` have to be changed for, to be those of `a`, follows from what the two
/// share, unless the hasher answers alike for what is written of them. Where all but the geometry
/// and the depth is shared, it is the geometry, and the whole geometry of `b` is told. Where the
/// geometry is shared it is the colour if the alphas are shared, and the alpha if they are not.
/// Sections that share less are of no use to each other.
pub proof fn changes_are_told_by_hashes<H: SectionHasher, L, M, G: GlyphPositioner, K: GlyphPositioner>(
    hasher: H,
    a: VariedSection<'_, L>,
    b: VariedSection<'_, M>,
    p: G,
    q: K,
    diff: SectionHashDiff,
    change: Option<GlyphChange>,
)
    requires
        diff == SectionHashDetail::of(hasher, a, p).diff_spec(SectionHashDetail::of(hasher, b, q)),
        change == SectionHashDetail::of(hasher, a, p).change_from(
            SectionHashDetail::of(hasher, b, q),
        ),
    ensures
        ({
            let (v, w) = (section_writes(a, p), section_writes(b, q));
            let runs = p.key() == q.key() && same_runs(a.text@, b.text@);
            let alphas = runs && same_alphas(a.text@, b.text@);
            let colors = alphas && same_colors(a.text@, b.text@);
            &&& colors ==> diff == SectionHashDiff::GeometryChange
            &&& diff == SectionHashDiff::GeometryChange <==> (change matches Some(
                GlyphChange::Geometry(_),
            ))
            &&& diff == SectionHashDiff::ColorChange <==> (change matches Some(GlyphChange::Color))
            &&& diff == SectionHashDiff::AlphaChange <==> (change matches Some(GlyphChange::Alpha))
            &&& diff == SectionHashDiff::Different <==> change is None
            &&& change matches Some(GlyphChange::Geometry(g)) ==> {
                &&& g.screen_position == b.screen_position
                &&& g.bounds == b.bounds
            }
            &&& diff == SectionHashDiff::GeometryChange && told(hasher, v.take(4), w.take(4))
                ==> colors
            &&& diff == SectionHashDiff::ColorChange || diff == SectionHashDiff::AlphaChange
                ==> !colors && placed_alike(a, b)
            &&& diff == SectionHashDiff::ColorChange && told(hasher, v.take(3), w.take(3))
                ==> alphas
            &&& diff == SectionHashDiff::AlphaChange ==> !alphas
            &&& diff == SectionHashDiff::AlphaChange && told(hasher, v.take(2), w.take(2)) ==> runs
            &&& diff == SectionHashDiff::Different ==> !colors && !(runs && placed_alike(a, b))
        }),
{
    hashes_tell_sections_apart(hasher, a, b, p, q);
    hashes_tell_sections_apart(hasher, b, a, q, p);
    crate::number_laws::patterns_compare_as_numbers(a.screen_position.x, b.screen_position.x);
    crate::number_laws::patterns_compare_as_numbers(a.screen_position.y, b.screen_position.y);
    crate::number_laws::patterns_compare_as_numbers(a.bounds.x, b.bounds.x);
    crate::number_laws::patterns_compare_as_numbers(a.bounds.y, b.bounds.y);
}

/// Hashes that are known for two sections tell the change by themselves, and the geometry that
/// is told is the one that is known of the other section.
pub proof fn known_hashes_tell_changes(
    a: SectionHashDetail,
    b: SectionHashDetail,
    change: Option<GlyphChange>,
)
    requires
        change == a.change_from(b),
    ensures
        ({
            let placed = {
                &&& equal(a.geometry.screen_position.x, b.geometry.screen_position.x)
                &&& equal(a.geometry.screen_position.y, b.geometry.screen_position.y)
                &&& equal(a.geometry.bounds.x, b.geometry.bounds.x)
                &&& equal(a.geometry.bounds.y, b.geometry.bounds.y)
            };
            &&& a.text == b.text <==> change is Some && change->0 is Geometry
            &&& change matches Some(GlyphChange::Geometry(g)) ==> g == b.geometry
            &&& change is Some && change->0 is Color <==> a.text != b.text && placed
                && a.text_no_color == b.text_no_color
            &&& change is Some && change->0 is Alpha <==> a.text != b.text && placed
                && a.text_no_color != b.text_no_color && a.text_no_color_alpha
                == b.text_no_color_alpha
        }),
{
    let (g, h) = (a.geometry, b.geometry);
    crate::number_laws::patterns_compare_as_numbers(g.screen_position.x, h.screen_position.x);
    crate::number_laws::patterns_compare_as_numbers(g.screen_position.y, h.screen_position.y);
    crate::number_laws::patterns_compare_as_numbers(g.bounds.x, h.bounds.x);
    crate::number_laws::patterns_compare_as_numbers(g.bounds.y, h.bounds.y);
}

/// What is written of a list of hashes: their number, and each of them.
pub open spec fn list_writes(hashes: Seq<SectionHash>) -> Seq<Seq<u8>> {
    seq![spec_u64_to_le_bytes(hashes.len() as u64), crate::hashing::hashes_bytes(hashes)]
}

proof fn lemma_lists(a: Seq<SectionHash>, b: Seq<SectionHash>)
    ensures
        crate::hashing::hashes_bytes(a).len() == 8 * a.len(),
        crate::hashing::hashes_bytes(b).len() == 8 * b.len(),
        crate::hashing::hashes_bytes(a) == crate::hashing::hashes_bytes(b) ==> a == b,
    decreases a.len() + b.len(),
{
    vstd::bytes::lemma_auto_spec_u64_to_from_le_bytes();
    if a.len() > 0 && b.len() > 0 {
        let (fa, fb) = (a.drop_last(), b.drop_last());
        lemma_lists(fa, fb);
        if crate::hashing::hashes_bytes(a) == crate::hashing::hashes_bytes(b) {
            let (x, y) = (spec_u64_to_le_bytes(a.last()), spec_u64_to_le_bytes(b.last()));
            lemma_parts(
                crate::hashing::hashes_bytes(fa),
                crate::hashing::hashes_bytes(fb),
                x,
                y,
            );
            assert(vstd::bytes::spec_u64_from_le_bytes(x) == a.last());
            assert(vstd::bytes::spec_u64_from_le_bytes(y) == b.last());
            assert(a =~= fa.push(a.last()));
            assert(b =~= fb.push(b.last()));
        }
    } else if a.len() > 0 {
        lemma_lists(a.drop_last(), b);
    } else if b.len() > 0 {
        lemma_lists(a, b.drop_last());
    } else {
        assert(a =~= b);
    }
}

/// Lists of hashes that share their hash are the same list, unless the hasher answers alike for
/// what is written of two.
pub proof fn hash_lists_are_told_apart<H: SectionHasher>(
    hasher: H,
    a: Seq<SectionHash>,
    b: Seq<SectionHash>,
)
    requires
        told(hasher, list_writes(a), list_writes(b)),
        crate::hashing::hashes_digest(hasher, a) == crate::hashing::hashes_digest(hasher, b),
    ensures
        a == b,
{
    lemma_lists(a, b);
    assert(list_writes(a)[1] == list_writes(b)[1]);
}

/// The hasher used where no other is chosen answers as the one of std does.
pub proof fn default_hashers_are_those_of_std(
    hasher: crate::hashing::DefaultSectionHasher,
    writes: Seq<Seq<u8>>,
)
    ensures
        hasher.digest(writes) == std::collections::hash_map::DefaultHasher::spec_finish(writes),
{
}

} // verus!
