//! The hash tables that sections are kept in.
//!
//! They are the tables of `rustc_hash`, which are those of std with a hasher of their own. What
//! std's tables do rests on the hashers of a table all hashing alike, [`tables_work`].
use crate::glyphed::{Glyphed, GlyphedView};
use crate::hashing::SectionHash;
use rustc_hash::{FxHashMap, FxHashSet, FxHasher};
use std::hash::BuildHasherDefault;
use vstd::prelude::*;

verus! {

#[verifier::external_type_specification]
#[verifier::external_body]
pub struct ExFxHasher(rustc_hash::FxHasher);

#[verifier::external_type_specification]
#[verifier::external_body]
#[verifier::reject_recursive_types(H)]
pub struct ExBuildHasherDefault<H>(std::hash::BuildHasherDefault<H>);

/// Positioned sections by their hashes.
pub type SectionMap<'font, V> = FxHashMap<SectionHash, Glyphed<'font, V>>;

/// A set of section hashes.
pub type HashesSet = FxHashSet<SectionHash>;

/// Whether hashers made by one source give the same answer to the same writes. This is said of
/// all sources of a type at once; `source` is one of them.
pub open spec fn hash_alike<S>(source: S) -> bool {
    vstd::std_specs::hash::builds_valid_hashers::<S>()
}

/// Whether the hashers of the tables hash alike, so that the tables work.
pub open spec fn tables_work() -> bool {
    vstd::std_specs::hash::builds_valid_hashers::<BuildHasherDefault<FxHasher>>()
}

/// `BuildHasherDefault::default` for `rustc_hash::FxHasher`: each hasher that it makes starts
/// from zero and has no other input than what is written to it.
#[verifier::external_body]
fn fx_hashers() -> (r: BuildHasherDefault<FxHasher>)
    ensures
        hash_alike(r),
{
    BuildHasherDefault::<FxHasher>::default()
}

/// The sections of a table.
pub open spec fn sections_of<'font, V>(map: Map<SectionHash, Glyphed<'font, V>>) -> Map<
    SectionHash,
    GlyphedView<'font, V>,
> {
    map.map_values(|g: Glyphed<'font, V>| g@)
}

/// An empty table of sections.
pub(crate) fn new_map<'font, V>() -> (r: SectionMap<'font, V>)
    ensures
        sections_of(r@) == Map::<SectionHash, GlyphedView<'font, V>>::empty(),
        tables_work(),
{
    let _ = fx_hashers();
    let r: SectionMap<'font, V> = FxHashMap::default();
    assert(sections_of(r@) =~= Map::<SectionHash, GlyphedView<'font, V>>::empty());
    r
}

/// An empty set of hashes.
pub(crate) fn new_set() -> (r: HashesSet)
    ensures
        r@ == Set::<SectionHash>::empty(),
{
    FxHashSet::default()
}

/// The hashes in a table, each once, in no particular order.
pub(crate) fn keys_of<'font, V>(map: &SectionMap<'font, V>) -> (r: Vec<SectionHash>)
    requires
        tables_work(),
    ensures
        r@.no_duplicates(),
        r@.to_set() == map@.dom(),
{
    let mut r: Vec<SectionHash> = Vec::new();
    for key in it: map.keys()
        invariant
            r@ == it.seq().take(it.index() as int).unref(),
            it.index() == it.seq().len() ==> r@ =~= it.seq().unref(),
            it.seq().unref().to_set() == map@.dom(),
            it.seq().no_duplicates(),
    {
        r.push(*key);
        assert(r@ =~= it.seq().take(it.index() + 1).unref());
    }
    r
}

/// The hashes in a set, each once, in no particular order.
pub(crate) fn hashes_in(set: &HashesSet) -> (r: Vec<SectionHash>)
    requires
        tables_work(),
    ensures
        r@.no_duplicates(),
        r@.to_set() == set@,
{
    let mut r: Vec<SectionHash> = Vec::new();
    for key in it: set.iter()
        invariant
            r@ == it.seq().take(it.index() as int).unref(),
            it.index() == it.seq().len() ==> r@ =~= it.seq().unref(),
            it.seq().unref().to_set() == set@,
            it.seq().no_duplicates(),
    {
        r.push(*key);
        assert(r@ =~= it.seq().take(it.index() + 1).unref());
    }
    r
}

/// Removes the sections whose hashes are not in `keep`.
pub(crate) fn retain_sections<'font, V>(map: &mut SectionMap<'font, V>, keep: &HashesSet)
    requires
        tables_work(),
    ensures
        sections_of(final(map)@) == sections_of(old(map)@).restrict(keep@),
{
    let keys = keys_of(map);
    let mut i: usize = 0;
    while i < keys.len()
        invariant
            i <= keys@.len(),
            tables_work(),
            keys@.no_duplicates(),
            keys@.to_set() == old(map)@.dom(),
            forall|k: SectionHash| #[trigger]
                map@.contains_key(k) <==> old(map)@.contains_key(k) && (keep@.contains(k)
                    || !keys@.take(i as int).contains(k)),
            forall|k: SectionHash| #[trigger] map@.contains_key(k) ==> map@[k] == old(map)@[k],
        decreases keys@.len() - i,
    {
        let ghost before = map@;
        let key: SectionHash = keys[i];
        if !keep.contains(&key) {
            map.remove(&key);
        }
        proof {
            let done = keys@.take(i as int);
            assert(keys@.take(i + 1) =~= done.push(key));
            assert forall|k: SectionHash| done.push(key).contains(k) <==> done.contains(k) || k
                == key by {
                if done.contains(k) {
                    let j = choose|j: int| 0 <= j < done.len() && done[j] == k;
                    assert(done.push(key)[j] == k);
                }
                if k == key {
                    assert(done.push(key)[i as int] == k);
                }
            }
        }
        i = i + 1;
    }
    proof {
        assert(keys@.take(i as int) =~= keys@);
        assert forall|k: SectionHash| old(map)@.contains_key(k) implies keys@.contains(k) by {
            assert(keys@.to_set().contains(k));
        }
        assert(sections_of(map@) =~= sections_of(old(map)@).restrict(keep@));
    }
}

/// The same sections, none with vertices.
pub open spec fn invalidated<'font, V>(
    sections: Map<SectionHash, GlyphedView<'font, V>>,
) -> Map<SectionHash, GlyphedView<'font, V>> {
    sections.map_values(|g: GlyphedView<'font, V>| GlyphedView::<V>::fresh(g.positioned))
}

/// Drops the vertices of all sections.
pub(crate) fn invalidate_sections<'font, V>(map: &mut SectionMap<'font, V>)
    requires
        tables_work(),
    ensures
        sections_of(final(map)@) == invalidated(sections_of(old(map)@)),
{
    let keys = keys_of(map);
    let mut i: usize = 0;
    while i < keys.len()
        invariant
            i <= keys@.len(),
            tables_work(),
            keys@.no_duplicates(),
            keys@.to_set() == old(map)@.dom(),
            map@.dom() == old(map)@.dom(),
            forall|j: int|
                0 <= j < i ==> map@[#[trigger] keys@[j]]@ == GlyphedView::<V>::fresh(
                    old(map)@[keys@[j]]@.positioned,
                ),
            forall|j: int| i <= j < keys@.len() ==> map@[#[trigger] keys@[j]] == old(map)@[keys@[j]],
        decreases keys@.len() - i,
    {
        let key: SectionHash = keys[i];
        proof {
            assert(keys@.to_set().contains(keys@[i as int]));
        }
        if let Some(glyphed) = map.remove(&key) {
            let mut glyphed = glyphed;
            glyphed.invalidate_texture_positions();
            map.insert(key, glyphed);
        }
        assert(map@.dom() =~= old(map)@.dom());
        i = i + 1;
    }
    proof {
        assert forall|k: SectionHash| old(map)@.contains_key(k) implies map@[k]@
            == GlyphedView::<V>::fresh(old(map)@[k]@.positioned) by {
            assert(keys@.to_set().contains(k));
            let j = choose|j: int| 0 <= j < keys@.len() && keys@[j] == k;
            assert(map@[keys@[j]]@ == GlyphedView::<V>::fresh(old(map)@[keys@[j]]@.positioned));
        }
        assert(sections_of(map@) =~= invalidated(sections_of(old(map)@)));
    }
}

} // verus!
