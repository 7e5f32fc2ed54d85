//! The concurrent hash containers of `scc` that hold the proxy's tokens and track
//! metadata, each with a name for what it holds and a wrapper per method used.
//!
//! All mutating wrappers take the container by `&mut`: the library owns each container
//! exclusively, so no other thread changes it while a method runs.
use vstd::prelude::*;
use std::hash::BuildHasher;
use crate::music::MusicInfo;

verus! {

#[verifier::external_type_specification]
#[verifier::external_body]
#[verifier::reject_recursive_types(K)]
#[verifier::reject_recursive_types(H)]
pub struct ExSccHashSet<K, H: BuildHasher>(scc::HashSet<K, H>);

#[verifier::external_type_specification]
#[verifier::external_body]
#[verifier::reject_recursive_types(K)]
#[verifier::reject_recursive_types(V)]
#[verifier::reject_recursive_types(H)]
pub struct ExSccHashMap<K, V, H: BuildHasher>(scc::HashMap<K, V, H>);

/// The map from scoped tokens to (creation time, music id).
pub type ScopedMap = scc::HashMap<String, (u64, String)>;

/// The map from external ids to tracks.
pub type MusicMap = scc::HashMap<String, MusicInfo>;

/// The strings that a set of hashed tokens holds.
pub uninterp spec fn hash_set_items(s: scc::HashSet<String>) -> Set<Seq<char>>;

/// The entries of the scoped-token map: token to (creation time, music id).
pub uninterp spec fn scoped_entries(m: ScopedMap) -> Map<
    Seq<char>,
    (u64, Seq<char>),
>;

/// The entries of the track metadata map: external id to track.
pub uninterp spec fn music_entries(m: MusicMap) -> Map<Seq<char>, MusicInfo>;

/// An empty set, by `scc::HashSet::new`.
#[verifier::external_body]
pub(crate) fn hash_set_new() -> (res: scc::HashSet<String>)
    ensures
        hash_set_items(res) == Set::<Seq<char>>::empty(),
{
    scc::HashSet::new()
}

/// `scc::HashSet::insert`: adds `key` unless it is there already, and reports whether it
/// added it.
#[verifier::external_body]
pub(crate) fn hash_set_insert(s: &mut scc::HashSet<String>, key: String) -> (res: bool)
    ensures
        res == !hash_set_items(*old(s)).contains(key@),
        hash_set_items(*final(s)) == hash_set_items(*old(s)).insert(key@),
{
    s.insert(key).is_ok()
}

/// `scc::HashSet::contains`.
#[verifier::external_body]
pub(crate) fn hash_set_contains(s: &scc::HashSet<String>, key: &str) -> (res: bool)
    ensures
        res == hash_set_items(*s).contains(key@),
{
    s.contains(key)
}

/// `scc::HashSet::clear`: removes every key.
#[verifier::external_body]
pub(crate) fn hash_set_clear(s: &mut scc::HashSet<String>)
    ensures
        hash_set_items(*final(s)) == Set::<Seq<char>>::empty(),
{
    s.clear()
}

/// The keys of the set, gathered by `scc::HashSet::scan`. With no other thread changing
/// the set, the scan visits each key once, in an order that the contract leaves open.
#[verifier::external_body]
pub(crate) fn hash_set_keys(s: &mut scc::HashSet<String>) -> (res: Vec<String>)
    ensures
        hash_set_items(*final(s)) == hash_set_items(*old(s)),
        res.deep_view().to_set() == hash_set_items(*old(s)),
        res.deep_view().no_duplicates(),
{
    let mut keys = Vec::new();
    s.scan(|k| keys.push(k.clone()));
    keys
}

/// An empty map, by `scc::HashMap::new`.
#[verifier::external_body]
pub(crate) fn scoped_map_new() -> (res: ScopedMap)
    ensures
        scoped_entries(res).dom() == Set::<Seq<char>>::empty(),
{
    scc::HashMap::new()
}

/// `scc::HashMap::insert`: adds the entry unless the key is there already (then the map
/// keeps its old entry), and reports whether it added it.
#[verifier::external_body]
pub(crate) fn scoped_map_insert(
    m: &mut ScopedMap,
    key: String,
    created: u64,
    music_id: String,
) -> (res: bool)
    ensures
        res == !scoped_entries(*old(m)).contains_key(key@),
        scoped_entries(*final(m)) == (if res {
            scoped_entries(*old(m)).insert(key@, (created, music_id@))
        } else {
            scoped_entries(*old(m))
        }),
{
    m.insert(key, (created, music_id)).is_ok()
}

/// `scc::HashMap::read`, handing out a copy of the entry for `key`.
#[verifier::external_body]
pub(crate) fn scoped_map_get(m: &ScopedMap, key: &str) -> (res: Option<(u64, String)>)
    ensures
        match res {
            Some(e) => scoped_entries(*m).contains_key(key@) && scoped_entries(*m)[key@] == (e.0, e.1@),
            None => !scoped_entries(*m).contains_key(key@),
        },
{
    m.read(key, |_, v| v.clone())
}

/// `scc::HashMap::remove`: drops the entry for `key`, if any.
#[verifier::external_body]
pub(crate) fn scoped_map_remove(m: &mut ScopedMap, key: &str)
    ensures
        scoped_entries(*final(m)) == scoped_entries(*old(m)).remove(key@),
{
    let _ = m.remove(key);
}

/// An empty map, by `scc::HashMap::new`.
#[verifier::external_body]
pub(crate) fn music_map_new() -> (res: MusicMap)
    ensures
        music_entries(res).dom() == Set::<Seq<char>>::empty(),
{
    scc::HashMap::new()
}

/// `scc::HashMap::insert`: adds the track unless its key is there already (then the map
/// keeps its old entry), and reports whether it added it.
#[verifier::external_body]
pub(crate) fn music_map_insert(m: &mut MusicMap, key: String, info: MusicInfo) -> (res: bool)
    ensures
        res == !music_entries(*old(m)).contains_key(key@),
        music_entries(*final(m)) == (if res {
            music_entries(*old(m)).insert(key@, info)
        } else {
            music_entries(*old(m))
        }),
{
    m.insert(key, info).is_ok()
}

/// `scc::HashMap::read`, handing out a clone of the track for `key`.
#[verifier::external_body]
pub(crate) fn music_map_get(m: &MusicMap, key: &str) -> (res: Option<MusicInfo>)
    ensures
        match res {
            Some(info) => music_entries(*m).contains_key(key@) && music_entries(*m)[key@] == info,
            None => !music_entries(*m).contains_key(key@),
        },
{
    m.read(key, |_, v| v.clone())
}

} // verus!
