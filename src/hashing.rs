use vstd::prelude::*;

use fxhash::{FxHashMap, FxHashSet, FxHasher};
use std::hash::BuildHasherDefault;

verus! {

#[verifier::external_type_specification]
#[verifier::external_body]
pub struct ExFxHasher(FxHasher);

#[verifier::external_type_specification]
#[verifier::external_body]
#[verifier::reject_recursive_types(H)]
pub struct ExBuildHasherDefault<H>(BuildHasherDefault<H>);

/// A grid vertex: a pair of signed coordinates.
pub type Vertex = (i64, i64);

/// What a vertex index holds: each known vertex with its slot in the node arena.
pub uninterp spec fn index_contents(m: FxHashMap<Vertex, usize>) -> Map<Vertex, usize>;

/// What a vertex set holds.
pub uninterp spec fn set_contents(s: FxHashSet<Vertex>) -> Set<Vertex>;

/// Relies on `FxHashMap::default` (std's `HashMap::default`): a new map is empty.
#[verifier::external_body]
pub(crate) fn index_new() -> (r: FxHashMap<Vertex, usize>)
    ensures
        index_contents(r).dom() == Set::<Vertex>::empty(),
{
    FxHashMap::default()
}

/// Relies on std's `HashMap::clear`: every entry is removed.
#[verifier::external_body]
pub(crate) fn index_clear(m: &mut FxHashMap<Vertex, usize>)
    ensures
        index_contents(*final(m)).dom() == Set::<Vertex>::empty(),
{
    m.clear()
}

/// Relies on std's `HashMap::get`: the value stored under the key, if any.
#[verifier::external_body]
pub(crate) fn index_get(m: &FxHashMap<Vertex, usize>, v: Vertex) -> (r: Option<usize>)
    ensures
        r == (if index_contents(*m).contains_key(v) {
            Some(index_contents(*m)[v])
        } else {
            None
        }),
{
    m.get(&v).copied()
}

/// Relies on std's `HashMap::insert`: the key maps to the new value afterwards,
/// every other entry is kept.
#[verifier::external_body]
pub(crate) fn index_insert(m: &mut FxHashMap<Vertex, usize>, v: Vertex, i: usize)
    ensures
        index_contents(*final(m)) == index_contents(*old(m)).insert(v, i),
{
    m.insert(v, i);
}

/// Relies on `FxHashSet::default` (std's `HashSet::default`): a new set is empty.
#[verifier::external_body]
pub(crate) fn set_new() -> (r: FxHashSet<Vertex>)
    ensures
        set_contents(r) == Set::<Vertex>::empty(),
{
    FxHashSet::default()
}

/// Relies on std's `HashSet::clear`: every element is removed.
#[verifier::external_body]
pub(crate) fn set_clear(s: &mut FxHashSet<Vertex>)
    ensures
        set_contents(*final(s)) == Set::<Vertex>::empty(),
{
    s.clear()
}

/// Relies on std's `HashSet::contains`: membership.
#[verifier::external_body]
pub(crate) fn set_contains(s: &FxHashSet<Vertex>, v: Vertex) -> (r: bool)
    ensures
        r == set_contents(*s).contains(v),
{
    s.contains(&v)
}

/// Relies on std's `HashSet::insert`: the value is a member afterwards, every
/// other member is kept.
#[verifier::external_body]
pub(crate) fn set_insert(s: &mut FxHashSet<Vertex>, v: Vertex)
    ensures
        set_contents(*final(s)) == set_contents(*old(s)).insert(v),
{
    s.insert(v);
}

} // verus!
