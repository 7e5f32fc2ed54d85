//! URL query strings: dropping the access token from them, rendering them for the
//! request log, and rebuilding the query sent on to musikcubed.
use vstd::prelude::*;
use crate::codec::{distinct_keys, query_decode, query_decoded, query_encode, query_encoded};
use crate::text::{push_char, push_str, same_text};

verus! {

/// `token`, the query key that carries the access token.
pub open spec fn token_key() -> Seq<char> {
    seq!['t', 'o', 'k', 'e', 'n']
}

/// `pairs` without those whose key is `key`, in order.
pub open spec fn without_key(pairs: Seq<(Seq<char>, Seq<char>)>, key: Seq<char>) -> Seq<
    (Seq<char>, Seq<char>),
>
    decreases pairs.len(),
{
    if pairs.len() == 0 {
        pairs
    } else {
        let rest = without_key(pairs.drop_last(), key);
        if pairs.last().0 == key {
            rest
        } else {
            rest.push(pairs.last())
        }
    }
}

/// The parameters of an optional query string other than the access token; none where
/// there is no query or it does not parse.
pub open spec fn query_without_token(query: Option<Seq<char>>) -> Seq<(Seq<char>, Seq<char>)> {
    match query {
        Some(q) => match query_decoded(q) {
            Some(pairs) => without_key(pairs, token_key()),
            None => Seq::empty(),
        },
        None => Seq::empty(),
    }
}

/// `key=value` for each pair, joined by `&`, without any escaping.
pub open spec fn display_pairs(pairs: Seq<(Seq<char>, Seq<char>)>) -> Seq<char>
    decreases pairs.len(),
{
    if pairs.len() == 0 {
        Seq::empty()
    } else {
        let last = pairs.last().0 + seq!['='] + pairs.last().1;
        if pairs.len() == 1 {
            last
        } else {
            display_pairs(pairs.drop_last()) + seq!['&'] + last
        }
    }
}

proof fn lemma_without_key_members(pairs: Seq<(Seq<char>, Seq<char>)>, key: Seq<char>)
    ensures
        forall|j: int|
            0 <= j < without_key(pairs, key).len() ==> exists|i: int|
                0 <= i < pairs.len() && #[trigger] without_key(pairs, key)[j] == pairs[i],
        forall|j: int| 0 <= j < without_key(pairs, key).len() ==> (#[trigger] without_key(pairs, key)[j]).0 != key,
    decreases pairs.len(),
{
    if pairs.len() > 0 {
        let init = pairs.drop_last();
        lemma_without_key_members(init, key);
        let r = without_key(init, key);
        assert forall|j: int| 0 <= j < r.len() implies exists|i: int|
            0 <= i < pairs.len() && #[trigger] r[j] == pairs[i] by {
            let i = choose|i: int| 0 <= i < init.len() && r[j] == init[i];
            assert(pairs[i] == init[i]);
        }
        if pairs.last().0 != key {
            let r2 = r.push(pairs.last());
            assert forall|j: int| 0 <= j < r2.len() implies exists|i: int|
                0 <= i < pairs.len() && #[trigger] r2[j] == pairs[i] by {
                if j < r.len() {
                    assert(r2[j] == r[j]);
                } else {
                    assert(r2[j] == pairs[pairs.len() - 1]);
                }
            }
        }
    }
}

proof fn lemma_without_key_distinct(pairs: Seq<(Seq<char>, Seq<char>)>, key: Seq<char>)
    requires
        distinct_keys(pairs),
    ensures
        distinct_keys(without_key(pairs, key)),
    decreases pairs.len(),
{
    if pairs.len() > 0 {
        let init = pairs.drop_last();
        assert(distinct_keys(init)) by {
            assert forall|i: int, j: int| 0 <= i < j < init.len() implies #[trigger] init[i].0
                != #[trigger] init[j].0 by {
                assert(init[i] == pairs[i] && init[j] == pairs[j]);
            }
        }
        lemma_without_key_distinct(init, key);
        lemma_without_key_members(init, key);
        let r = without_key(init, key);
        if pairs.last().0 != key {
            let r2 = r.push(pairs.last());
            assert forall|i: int, j: int| 0 <= i < j < r2.len() implies #[trigger] r2[i].0
                != #[trigger] r2[j].0 by {
                if j == r.len() {
                    let k = choose|k: int| 0 <= k < init.len() && r[i] == init[k];
                    assert(r2[i] == pairs[k]);
                    assert(r2[j] == pairs[pairs.len() - 1]);
                } else {
                    assert(r2[i] == r[i] && r2[j] == r[j]);
                }
            }
        }
    }
}

/// `pairs` without those whose key is `token`, in order.
pub fn without_token(pairs: &Vec<(String, String)>) -> (res: Vec<(String, String)>)
    ensures
        res.deep_view() == without_key(pairs.deep_view(), token_key()),
        distinct_keys(pairs.deep_view()) ==> distinct_keys(res.deep_view()),
{
    proof {
        reveal_strlit("token");
        assert("token"@ =~= token_key());
    }
    let ghost all = pairs.deep_view();
    let mut res: Vec<(String, String)> = Vec::new();
    let mut i: usize = 0;
    while i < pairs.len()
        invariant
            i <= pairs@.len(),
            all == pairs.deep_view(),
            "token"@ == token_key(),
            res.deep_view() == without_key(all.take(i as int), token_key()),
        decreases pairs@.len() - i,
    {
        proof {
            assert(all.take(i + 1).drop_last() == all.take(i as int));
            assert(all.take(i + 1).last() == all[i as int]);
        }
        let is_token = same_text(pairs[i].0.as_str(), "token");
        let ghost before = res.deep_view();
        if !is_token {
            let k = pairs[i].0.clone();
            let v = pairs[i].1.clone();
            res.push((k, v));
            proof {
                assert(res.deep_view() =~= before.push(all[i as int]));
            }
        }
        proof {
            let t = all.take(i + 1);
            assert(t.last().0 == pairs@[i as int].0@);
            assert(without_key(t, token_key()) == if t.last().0 == token_key() {
                without_key(t.drop_last(), token_key())
            } else {
                without_key(t.drop_last(), token_key()).push(t.last())
            });
        }
        i = i + 1;
    }
    proof {
        assert(all.take(pairs@.len() as int) == all);
        if distinct_keys(all) {
            lemma_without_key_distinct(all, token_key());
        }
    }
    res
}

/// The parameters of `query` other than the access token, in the order the query parser
/// hands them out; none where there is no query or it does not parse.
pub fn remove_token_from_query(query: Option<&str>) -> (res: Vec<(String, String)>)
    ensures
        res.deep_view() == query_without_token(
            match query {
                Some(q) => Some(q@),
                None => None::<Seq<char>>,
            },
        ),
        distinct_keys(res.deep_view()),
{
    let parsed = match query {
        Some(q) => query_decode(q),
        None => None,
    };
    match parsed {
        None => {
            let res: Vec<(String, String)> = Vec::new();
            assert(res.deep_view() =~= Seq::<(Seq<char>, Seq<char>)>::empty());
            res
        },
        Some(pairs) => without_token(&pairs),
    }
}

/// The query parameters to show in the request log.
#[derive(Debug)]
pub struct QueryDisplay {
    pub pairs: Vec<(String, String)>,
}

impl QueryDisplay {
    /// Shows `pairs`.
    pub fn new(pairs: Vec<(String, String)>) -> (res: QueryDisplay)
        ensures
            res.pairs == pairs,
    {
        QueryDisplay { pairs }
    }

    /// `key=value` for each pair, joined by `&`.
    pub fn to_string(&self) -> (res: String)
        ensures
            res@ == display_pairs(self.pairs.deep_view()),
    {
        let ghost all = self.pairs.deep_view();
        let mut res = String::new();
        let mut i: usize = 0;
        while i < self.pairs.len()
            invariant
                i <= self.pairs@.len(),
                all == self.pairs.deep_view(),
                res@ == display_pairs(all.take(i as int)),
            decreases self.pairs@.len() - i,
        {
            proof {
                assert(all.take(i + 1).drop_last() == all.take(i as int));
                assert(all.take(i + 1).last() == all[i as int]);
            }
            if i > 0 {
                push_char(&mut res, '&');
            }
            push_str(&mut res, self.pairs[i].0.as_str());
            push_char(&mut res, '=');
            push_str(&mut res, self.pairs[i].1.as_str());
            proof {
                let p = all[i as int];
                if i == 0 {
                    assert(all.take(1).len() == 1);
                    assert(res@ =~= display_pairs(all.take(1)));
                } else {
                    assert(res@ =~= display_pairs(all.take(i as int)) + seq!['&'] + (p.0 + seq!['='] + p.1));
                }
            }
            i = i + 1;
        }
        proof {
            assert(all.take(self.pairs@.len() as int) == all);
        }
        res
    }
}

/// `no id set`, logged in place of a missing request id.
pub open spec fn missing_request_id() -> Seq<char> {
    seq!['n', 'o', ' ', 'i', 'd', ' ', 's', 'e', 't']
}

/// What a request's log span records besides its path.
#[derive(Debug, PartialEq)]
pub struct SpanFields {
    /// The request id, or `no id set`.
    pub id: String,
    /// The query shown without the access token; `None` where nothing is left of it.
    pub query: Option<String>,
}

/// The log fields of a request with `query` and request id header `request_id`.
pub fn make_span_trace(query: Option<&str>, request_id: Option<&str>) -> (res: SpanFields)
    ensures
        res.id@ == match request_id {
            Some(id) => id@,
            None => missing_request_id(),
        },
        ({
            let shown = query_without_token(
                match query {
                    Some(q) => Some(q@),
                    None => None::<Seq<char>>,
                },
            );
            match res.query {
                Some(q) => shown.len() > 0 && q@ == display_pairs(shown),
                None => shown.len() == 0,
            }
        }),
{
    broadcast use vstd::string::group_string_axioms;
    proof {
        reveal_strlit("no id set");
        assert("no id set"@ =~= missing_request_id());
    }
    let id = match request_id {
        Some(id) => id.to_string(),
        None => "no id set".to_string(),
    };
    let pairs = remove_token_from_query(query);
    if pairs.len() == 0 {
        SpanFields { id, query: None }
    } else {
        let shown = QueryDisplay::new(pairs);
        SpanFields { id, query: Some(shown.to_string()) }
    }
}

/// The path and query to request from musikcubed for a client request to `path` with
/// `query`: the access token is left out, and an empty query is dropped with its `?`.
pub open spec fn forwarded_target(path: Seq<char>, query: Option<Seq<char>>) -> Seq<char> {
    let kept = query_without_token(query);
    if kept.len() == 0 {
        path
    } else {
        path + seq!['?'] + query_encoded(kept)
    }
}

/// The path and query to request from musikcubed for a client request to `path` with
/// `query`, without the access token.
pub fn forwarded_path(path: &str, query: Option<&str>) -> (res: String)
    ensures
        res@ == forwarded_target(
            path@,
            match query {
                Some(q) => Some(q@),
                None => None::<Seq<char>>,
            },
        ),
{
    let kept = remove_token_from_query(query);
    let mut res = String::new();
    push_str(&mut res, path);
    if kept.len() > 0 {
        match query_encode(&kept) {
            Some(encoded) => {
                push_char(&mut res, '?');
                push_str(&mut res, encoded.as_str());
            },
            None => {},
        }
    }
    proof {
        if kept.deep_view().len() > 0 {
            assert(res@ =~= path@ + seq!['?'] + query_encoded(kept.deep_view()));
        } else {
            assert(res@ =~= path@);
        }
    }
    res
}

/// No parameter kept from a query, for the log or for musikcubed, is the access token.
pub proof fn law_token_never_kept(query: Option<Seq<char>>)
    ensures
        forall|j: int|
            0 <= j < query_without_token(query).len() ==> (#[trigger] query_without_token(query)[j]).0
                != token_key(),
{
    if let Some(q) = query {
        if let Some(pairs) = query_decoded(q) {
            lemma_without_key_members(pairs, token_key());
        }
    }
}

} // verus!
