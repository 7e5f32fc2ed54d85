//! The JSON messages of the musikcube WebSocket API.
use vstd::prelude::*;
use crate::text::same_text;

verus! {

broadcast use vstd::std_specs::vec::axiom_spec_into_iter;

/// A JSON number as parsed: a non-negative integer, a negative integer, or a float kept as
/// the text that renders it.
#[derive(Debug, PartialEq)]
pub enum JsonNumber {
    PosInt(u64),
    NegInt(i64),
    Float(String),
}

/// A JSON value. An object's entries are in the order they were inserted.
#[derive(Debug, PartialEq)]
pub enum JsonValue {
    Null,
    Bool(bool),
    Number(JsonNumber),
    Str(String),
    Array(Vec<JsonValue>),
    Object(Vec<(String, JsonValue)>),
}

/// The value that the entries of an object give `key`: that of its last entry with that
/// key.
pub open spec fn lookup(entries: Seq<(String, JsonValue)>, key: Seq<char>) -> Option<JsonValue>
    decreases entries.len(),
{
    if entries.len() == 0 {
        None
    } else if entries.last().0@ == key {
        Some(entries.last().1)
    } else {
        lookup(entries.drop_last(), key)
    }
}

/// The entries other than those with `key`, in order.
pub open spec fn without(entries: Seq<(String, JsonValue)>, key: Seq<char>) -> Seq<(String, JsonValue)>
    decreases entries.len(),
{
    if entries.len() == 0 {
        entries
    } else if entries.last().0@ == key {
        without(entries.drop_last(), key)
    } else {
        without(entries.drop_last(), key).push(entries.last())
    }
}

/// Removing a key leaves every other key's value as it was and the key itself unset.
pub proof fn lemma_lookup_without(entries: Seq<(String, JsonValue)>, key: Seq<char>, other: Seq<char>)
    ensures
        lookup(without(entries, key), other) == if other == key {
            None
        } else {
            lookup(entries, other)
        },
    decreases entries.len(),
{
    if entries.len() > 0 {
        lemma_lookup_without(entries.drop_last(), key, other);
        if entries.last().0@ != key {
            assert(without(entries, key).drop_last() == without(entries.drop_last(), key));
        }
    }
}

/// The entries of `entries` with `key`'s entry taken out, and the value it had.
pub fn take_entry(entries: Vec<(String, JsonValue)>, key: &str) -> (res: (
    Vec<(String, JsonValue)>,
    Option<JsonValue>,
))
    ensures
        res.0@ == without(entries@, key@),
        res.1 == lookup(entries@, key@),
{
    let ghost all = entries@;
    let mut kept: Vec<(String, JsonValue)> = Vec::new();
    let mut found: Option<JsonValue> = None;
    for e in it: entries
        invariant
            it.seq() == all,
            kept@ == without(all.take(it.index() as int), key@),
            found == lookup(all.take(it.index() as int), key@),
    {
        let ghost i = it.index();
        proof {
            assert(all.take(i + 1).drop_last() == all.take(i as int));
            assert(all.take(i + 1).last() == all[i as int]);
        }
        let (k, v) = e;
        if same_text(k.as_str(), key) {
            found = Some(v);
        } else {
            kept.push((k, v));
        }
    }
    proof {
        assert(all.take(all.len() as int) == all);
    }
    (kept, found)
}

/// `entries` with `key` set to `value`: any earlier entry with that key is dropped and the
/// new entry comes last.
pub fn set_entry(entries: Vec<(String, JsonValue)>, key: String, value: JsonValue) -> (res: Vec<
    (String, JsonValue),
>)
    ensures
        res@ == without(entries@, key@).push((key, value)),
        forall|other: Seq<char>| #[trigger] lookup(res@, other) == if other == key@ {
            Some(value)
        } else {
            lookup(entries@, other)
        },
{
    let (mut kept, _) = take_entry(entries, key.as_str());
    let ghost base = kept@;
    kept.push((key, value));
    proof {
        assert forall|other: Seq<char>| #[trigger] lookup(kept@, other) == if other == key@ {
            Some(value)
        } else {
            lookup(entries@, other)
        } by {
            assert(kept@.drop_last() == base);
            lemma_lookup_without(entries@, key@, other);
        }
    }
    kept
}

/// The value of the last entry of `entries` with `key`.
pub fn get_entry<'a>(entries: &'a Vec<(String, JsonValue)>, key: &str) -> (res: Option<&'a JsonValue>)
    ensures
        match res {
            Some(v) => lookup(entries@, key@) == Some(*v),
            None => lookup(entries@, key@) is None,
        },
{
    let mut i = entries.len();
    assert(entries@.take(i as int) == entries@);
    while i > 0
        invariant
            i <= entries@.len(),
            lookup(entries@, key@) == lookup(entries@.take(i as int), key@),
        decreases i,
    {
        proof {
            assert(entries@.take(i as int).drop_last() == entries@.take(i - 1));
            assert(entries@.take(i as int).last() == entries@[i - 1]);
        }
        if same_text(entries[i - 1].0.as_str(), key) {
            return Some(&entries[i - 1].1);
        }
        i = i - 1;
    }
    None
}

/// The kind of an API message.
#[derive(Debug, PartialEq)]
pub enum WsApiMessageType {
    Request,
    Response,
    Broadcast,
}

/// A message of the musikcube WebSocket API.
#[derive(Debug, PartialEq)]
pub struct WsApiMessage {
    pub name: String,
    pub kind: WsApiMessageType,
    pub id: String,
    pub device_id: Option<String>,
    pub options: Vec<(String, JsonValue)>,
}

/// The string that the options of a message give `key`, if it is a string.
pub open spec fn option_str(options: Seq<(String, JsonValue)>, key: Seq<char>) -> Option<Seq<char>> {
    match lookup(options, key) {
        Some(JsonValue::Str(s)) => Some(s@),
        _ => None,
    }
}

/// The boolean that the options of a message give `key`, if it is a boolean.
pub open spec fn option_bool(options: Seq<(String, JsonValue)>, key: Seq<char>) -> Option<bool> {
    match lookup(options, key) {
        Some(JsonValue::Bool(b)) => Some(b),
        _ => None,
    }
}

/// `authenticate`, the name of the login request.
pub open spec fn authenticate_name() -> Seq<char> {
    seq!['a', 'u', 't', 'h', 'e', 'n', 't', 'i', 'c', 'a', 't', 'e']
}

/// `password`, the option of the login request that carries the password.
pub open spec fn password_key() -> Seq<char> {
    seq!['p', 'a', 's', 's', 'w', 'o', 'r', 'd']
}

impl WsApiMessage {
    /// A message named `name` of kind `kind`, with an empty id, no device id and no
    /// options.
    pub fn new(name: String, kind: WsApiMessageType) -> (res: WsApiMessage)
        ensures
            res.name == name,
            res.kind == kind,
            res.id@ == Seq::<char>::empty(),
            res.device_id is None,
            res.options@ == Seq::<(String, JsonValue)>::empty(),
    {
        WsApiMessage { name, kind, id: String::new(), device_id: None, options: Vec::new() }
    }

    /// A request named `name`.
    pub fn request(name: String) -> (res: WsApiMessage)
        ensures
            res.name == name,
            res.kind == WsApiMessageType::Request,
            res.id@ == Seq::<char>::empty(),
            res.device_id is None,
            res.options@ == Seq::<(String, JsonValue)>::empty(),
    {
        Self::new(name, WsApiMessageType::Request)
    }

    /// The login request: `authenticate`, with option `password` set to `password`.
    pub fn authenticate(password: String) -> (res: WsApiMessage)
        ensures
            res.name@ == authenticate_name(),
            res.kind == WsApiMessageType::Request,
            res.id@ == Seq::<char>::empty(),
            res.device_id is None,
            res.options@.len() == 1,
            res.options@[0].0@ == password_key(),
            res.options@[0].1 == JsonValue::Str(password),
    {
        broadcast use vstd::string::group_string_axioms;
        proof {
            reveal_strlit("authenticate");
            reveal_strlit("password");
            assert("authenticate"@ =~= authenticate_name());
            assert("password"@ =~= password_key());
        }
        Self::new("authenticate".to_string(), WsApiMessageType::Request).option(
            "password".to_string(),
            JsonValue::Str(password),
        )
    }

    /// The same message with id `id`.
    pub fn id(self, id: String) -> (res: WsApiMessage)
        ensures
            res == (WsApiMessage { id, ..self }),
    {
        WsApiMessage { id, ..self }
    }

    /// The same message with device id `device_id`.
    pub fn device_id(self, device_id: String) -> (res: WsApiMessage)
        ensures
            res == (WsApiMessage { device_id: Some(device_id), ..self }),
    {
        WsApiMessage { device_id: Some(device_id), ..self }
    }

    /// The same message with option `key` set to `value`.
    pub fn option(self, key: String, value: JsonValue) -> (res: WsApiMessage)
        ensures
            res.name == self.name,
            res.kind == self.kind,
            res.id == self.id,
            res.device_id == self.device_id,
            res.options@ == without(self.options@, key@).push((key, value)),
            forall|other: Seq<char>| #[trigger] lookup(res.options@, other) == if other == key@ {
                Some(value)
            } else {
                lookup(self.options@, other)
            },
    {
        let WsApiMessage { name, kind, id, device_id, options } = self;
        let options = set_entry(options, key, value);
        WsApiMessage { name, kind, id, device_id, options }
    }

    /// The string option `key`, if the message has one.
    pub fn option_str(&self, key: &str) -> (res: Option<String>)
        ensures
            match res {
                Some(s) => option_str(self.options@, key@) == Some(s@),
                None => option_str(self.options@, key@) is None,
            },
    {
        match get_entry(&self.options, key) {
            Some(JsonValue::Str(s)) => Some(s.clone()),
            _ => None,
        }
    }

    /// The boolean option `key`, if the message has one.
    pub fn option_bool(&self, key: &str) -> (res: Option<bool>)
        ensures
            res == option_bool(self.options@, key@),
    {
        match get_entry(&self.options, key) {
            Some(JsonValue::Bool(b)) => Some(*b),
            _ => None,
        }
    }
}

} // verus!
