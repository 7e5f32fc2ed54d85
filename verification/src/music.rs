//! Track metadata fetched from musikcubed, kept by external id.
use vstd::prelude::*;
use crate::api::{lookup, option_bool, take_entry, JsonNumber, JsonValue, WsApiMessage, WsApiMessageType};
use crate::error::{is_message_error, AppError};
use crate::stores::{music_entries, music_map_get, music_map_insert, music_map_new, MusicMap};

verus! {

/// What the proxy knows of one track.
#[derive(Clone, Debug, PartialEq)]
pub struct MusicInfo {
    pub external_id: String,
    pub title: String,
    pub album: String,
    pub artist: String,
    pub thumbnail_id: u32,
}

/// The map after recording `tracks` in order, where the first track with a given external
/// id wins and later ones with that id are ignored.
pub open spec fn record_tracks(entries: Map<Seq<char>, MusicInfo>, tracks: Seq<MusicInfo>) -> Map<
    Seq<char>,
    MusicInfo,
>
    decreases tracks.len(),
{
    if tracks.len() == 0 {
        entries
    } else {
        let before = record_tracks(entries, tracks.drop_last());
        let t = tracks.last();
        if before.contains_key(t.external_id@) {
            before
        } else {
            before.insert(t.external_id@, t)
        }
    }
}

/// Track metadata by external id.
pub struct MusicInfoMap {
    map: MusicMap,
}

impl View for MusicInfoMap {
    type V = Map<Seq<char>, MusicInfo>;

    closed spec fn view(&self) -> Map<Seq<char>, MusicInfo> {
        music_entries(self.map)
    }
}

impl MusicInfoMap {
    /// No tracks.
    pub fn new() -> (res: MusicInfoMap)
        ensures
            res@ == Map::<Seq<char>, MusicInfo>::empty(),
    {
        let map = music_map_new();
        proof {
            assert(music_entries(map) =~= Map::<Seq<char>, MusicInfo>::empty());
        }
        MusicInfoMap { map }
    }

    /// The track with external id `id`, if known.
    pub fn get(&self, id: &str) -> (res: Option<MusicInfo>)
        ensures
            match res {
                Some(info) => self@.contains_key(id@) && self@[id@] == info,
                None => !self@.contains_key(id@),
            },
    {
        music_map_get(&self.map, id)
    }

    /// Records `tracks` in order; a track whose external id is known already is ignored.
    pub fn insert_tracks(&mut self, tracks: Vec<MusicInfo>)
        ensures
            final(self)@ == record_tracks(old(self)@, tracks@),
    {
        let ghost all = tracks@;
        let ghost start = self@;
        for t in it: tracks
            invariant
                it.seq() == all,
                self@ == record_tracks(start, all.take(it.index() as int)),
        {
            let ghost i = it.index();
            proof {
                assert(all.take(i + 1).drop_last() == all.take(i as int));
                assert(all.take(i + 1).last() == all[i as int]);
            }
            let key = t.external_id.clone();
            let _ = music_map_insert(&mut self.map, key, t);
        }
        proof {
            assert(all.take(all.len() as int) == all);
        }
    }
}

/// `musikquadrupled`, the device id the proxy logs in to musikcubed with.
pub open spec fn proxy_device_id() -> Seq<char> {
    "musikquadrupled"@
}

/// The login request sent to musikcubed before fetching the tracks.
pub fn library_auth_request(password: String) -> (res: WsApiMessage)
    ensures
        res.name@ == "authenticate"@,
        res.kind == WsApiMessageType::Request,
        res.id@ == "auth"@,
        res.device_id matches Some(d) && d@ == proxy_device_id(),
        res.options@.len() == 1,
        res.options@[0].0@ == "password"@,
        res.options@[0].1 == JsonValue::Str(password),
{
    broadcast use vstd::string::group_string_axioms;
    proof {
        reveal_strlit("authenticate");
        reveal_strlit("password");
    }
    WsApiMessage::authenticate(password).id("auth".to_string()).device_id(
        "musikquadrupled".to_string(),
    )
}

/// The request for every track (`query_tracks` with limit `u32::MAX` from offset 0).
pub fn library_tracks_request() -> (res: WsApiMessage)
    ensures
        res.name@ == "query_tracks"@,
        res.kind == WsApiMessageType::Request,
        res.id@ == "fetch_tracks"@,
        res.device_id matches Some(d) && d@ == proxy_device_id(),
        lookup(res.options@, "limit"@) == Some(JsonValue::Number(JsonNumber::PosInt(0xffff_ffff))),
        lookup(res.options@, "offset"@) == Some(JsonValue::Number(JsonNumber::PosInt(0))),
        forall|k: Seq<char>| k != "limit"@ && k != "offset"@ ==> #[trigger] lookup(res.options@, k) is None,
{
    broadcast use vstd::string::group_string_axioms;
    proof {
        reveal_strlit("limit");
        reveal_strlit("offset");
    }
    let m = WsApiMessage::request("query_tracks".to_string()).device_id(
        "musikquadrupled".to_string(),
    ).id("fetch_tracks".to_string());
    let m = m.option("limit".to_string(), JsonValue::Number(JsonNumber::PosInt(0xffff_ffff)));
    assert(lookup(m.options@, "limit"@) == Some(JsonValue::Number(JsonNumber::PosInt(0xffff_ffff))));
    assert("limit"@ != "offset"@) by {
        assert("limit"@[0] != "offset"@[0]);
    }
    let r = m.option("offset".to_string(), JsonValue::Number(JsonNumber::PosInt(0)));
    assert(lookup(r.options@, "limit"@) == lookup(m.options@, "limit"@));
    r
}

/// Whether a reply logs in: its `authenticated` option, taken as false when it is missing or
/// not a boolean.
pub open spec fn reply_authenticated(reply: WsApiMessage) -> bool {
    option_bool(reply.options@, "authenticated"@) == Some(true)
}

/// Accepts musikcubed's reply to the login request if it says `authenticated: true`.
pub fn check_library_auth_reply(reply: &WsApiMessage) -> (res: Result<(), AppError>)
    ensures
        reply_authenticated(*reply) ==> res is Ok,
        !reply_authenticated(*reply) ==> (res matches Err(e) && is_message_error(
            e,
            "not authenticated"@,
            None,
        )),
{
    broadcast use vstd::string::group_string_axioms;
    match reply.option_bool("authenticated") {
        Some(true) => Ok(()),
        _ => Err(AppError::message("not authenticated".to_string())),
    }
}

/// The tracks in musikcubed's reply to the track request: its `data` option, which must be
/// an array.
pub fn take_library_tracks(reply: WsApiMessage) -> (res: Result<Vec<JsonValue>, AppError>)
    ensures
        match lookup(reply.options@, "data"@) {
            Some(JsonValue::Array(tracks)) => res == Ok::<Vec<JsonValue>, AppError>(tracks),
            _ => (res matches Err(e) && is_message_error(e, "must have tracks"@, None)),
        },
{
    broadcast use vstd::string::group_string_axioms;
    let (_, data) = take_entry(reply.options, "data");
    match data {
        Some(JsonValue::Array(tracks)) => Ok(tracks),
        _ => Err(AppError::message("must have tracks".to_string())),
    }
}

proof fn lemma_record_keys(entries: Map<Seq<char>, MusicInfo>, tracks: Seq<MusicInfo>, k: Seq<char>)
    ensures
        record_tracks(entries, tracks).contains_key(k) <==> (entries.contains_key(k) || exists|j: int|
            0 <= j < tracks.len() && (#[trigger] tracks[j]).external_id@ == k),
        entries.contains_key(k) ==> record_tracks(entries, tracks)[k] == entries[k],
    decreases tracks.len(),
{
    if tracks.len() > 0 {
        let init = tracks.drop_last();
        lemma_record_keys(entries, init, k);
        if exists|j: int| 0 <= j < init.len() && (#[trigger] init[j]).external_id@ == k {
            let j = choose|j: int| 0 <= j < init.len() && (#[trigger] init[j]).external_id@ == k;
            assert(tracks[j] == init[j]);
        }
        if exists|j: int| 0 <= j < tracks.len() && (#[trigger] tracks[j]).external_id@ == k {
            let j = choose|j: int| 0 <= j < tracks.len() && (#[trigger] tracks[j]).external_id@ == k;
            if j < init.len() {
                assert(init[j] == tracks[j]);
            }
        }
    }
}

/// Recording tracks keeps, for each external id that was not known before, the first track
/// in the list with that id.
pub proof fn law_first_track_wins(entries: Map<Seq<char>, MusicInfo>, tracks: Seq<MusicInfo>, i: int)
    requires
        0 <= i < tracks.len(),
        !entries.contains_key(tracks[i].external_id@),
        forall|j: int| 0 <= j < i ==> (#[trigger] tracks[j]).external_id@ != tracks[i].external_id@,
    ensures
        record_tracks(entries, tracks).contains_key(tracks[i].external_id@),
        record_tracks(entries, tracks)[tracks[i].external_id@] == tracks[i],
    decreases tracks.len(),
{
    let k = tracks[i].external_id@;
    let init = tracks.drop_last();
    if i == tracks.len() - 1 {
        lemma_record_keys(entries, init, k);
        assert(!record_tracks(entries, init).contains_key(k)) by {
            if exists|j: int| 0 <= j < init.len() && (#[trigger] init[j]).external_id@ == k {
                let j = choose|j: int| 0 <= j < init.len() && (#[trigger] init[j]).external_id@ == k;
                assert(tracks[j] == init[j]);
            }
        }
    } else {
        assert(init[i] == tracks[i]);
        assert forall|j: int| 0 <= j < i implies (#[trigger] init[j]).external_id@ != init[i].external_id@ by {
            assert(init[j] == tracks[j]);
        }
        law_first_track_wins(entries, init, i);
    }
}

} // verus!
