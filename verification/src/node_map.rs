//! Maps keyed by node, as an integer map of `nohash_hasher`.
//!
//! The contents of a map are its view, a `Map<NodeId, V>`. The functions here are the only places
//! where a node map is read or written; what they claim of the map is believed, not proved.
use crate::ids::NodeId;
use nohash_hasher::IntMap;
use vstd::prelude::*;

verus! {

/// `std::hash::BuildHasherDefault`, which builds the hashers of an `IntMap`; carried, never looked into.
#[verifier::external_type_specification]
#[verifier::external_body]
#[verifier::reject_recursive_types(H)]
pub struct ExBuildHasherDefault<H>(std::hash::BuildHasherDefault<H>);

/// `nohash_hasher::NoHashHasher`, the hasher of an `IntMap`; carried, never looked into.
#[verifier::external_type_specification]
#[verifier::external_body]
#[verifier::reject_recursive_types(T)]
pub struct ExNoHashHasher<T>(nohash_hasher::NoHashHasher<T>);

/// A map from node ids to values of type `T`.
pub type NodeMap<T> = IntMap<NodeId, T>;

/// `IntMap::default`: a map without entries.
#[verifier::external_body]
pub(crate) fn new<V>() -> (m: NodeMap<V>)
    ensures
        (m@ == Map::<NodeId, V>::empty()),
{
    NodeMap::default()
}

/// `IntMap::insert`: afterwards `pid` maps to `value`, and every other node to what it did before.
#[verifier::external_body]
pub(crate) fn insert<V>(m: &mut NodeMap<V>, pid: NodeId, value: V)
    ensures
        final(m)@ == old(m)@.insert(pid, value),
{
    m.insert(pid, value);
}

/// `IntMap::get`: the value that `pid` maps to, if it has one.
#[verifier::external_body]
pub(crate) fn get<'a, V>(m: &'a NodeMap<V>, pid: NodeId) -> (value: Option<&'a V>)
    ensures
        match value {
            Some(v) => m@.contains_key(pid) && *v == m@[pid],
            None => !m@.contains_key(pid),
        },
{
    m.get(&pid)
}

/// `IntMap::get_mut`: a handle to the value that `pid` maps to, if it has one. What is left behind
/// the handle is what `pid` maps to afterwards; the other entries stay as they are.
#[verifier::external_body]
pub(crate) fn get_mut<'a, V>(m: &'a mut NodeMap<V>, pid: NodeId) -> (value: Option<&'a mut V>)
    ensures
        match value {
            Some(v) => old(m)@.contains_key(pid) && *v == old(m)@[pid] && final(m)@ == old(
                m,
            )@.insert(pid, *final(v)),
            None => !old(m)@.contains_key(pid) && final(m)@ == old(m)@,
        },
{
    m.get_mut(&pid)
}

/// `IntMap::iter`: the entries of the map, each node once, in an order that is left open.
#[verifier::external_body]
pub(crate) fn entries<'a, V>(m: &'a NodeMap<V>) -> (es: Vec<(NodeId, &'a V)>)
    ensures
        is_walk(es@, m@),
{
    m.iter().map(|(pid, value)| (*pid, value)).collect()
}

/// Whether `es` lists each entry of `m` exactly once.
pub open spec fn is_walk<V>(es: Seq<(NodeId, &V)>, m: Map<NodeId, V>) -> bool {
    &&& forall|i: int|
        #![trigger es[i]]
        0 <= i < es.len() ==> m.contains_key(es[i].0) && m[es[i].0] == *es[i].1
    &&& forall|pid: NodeId| #[trigger]
        m.contains_key(pid) ==> exists|i: int| 0 <= i < es.len() && (#[trigger] es[i]).0 == pid
    &&& forall|i: int, j: int|
        #![trigger es[i], es[j]]
        0 <= i < j < es.len() ==> es[i].0 != es[j].0
}

} // verus!
