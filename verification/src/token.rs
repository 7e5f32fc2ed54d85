//! Access tokens (kept only as argon2 hashes, saved one per line in a tokens file) and
//! short-lived tokens scoped to a single track.
use vstd::prelude::*;
use vstd::utf8::*;
use crate::clock::ClockLog;
use crate::codec::{argon2_encoded, argon2_hash};
use crate::error::{is_message_error, AppError};
use crate::stores::{hash_set_clear, hash_set_contains, hash_set_insert, hash_set_items, hash_set_keys, hash_set_new, scoped_entries, scoped_map_get, scoped_map_insert, scoped_map_new, scoped_map_remove, ScopedMap};
use crate::text::{chars_of, is_white, push_char, push_range, push_str, split_on, trim, trim_bounds, trim_end, trim_start};
use rand::{Rng, SeedableRng};

verus! {

broadcast use vstd::seq::Seq::lemma_push_to_set_commute;

// ---------------------------------------------------------------------------------------
// Randomness and time
// ---------------------------------------------------------------------------------------

/// An ASCII letter or digit, as a byte.
pub open spec fn is_alnum_byte(b: u8) -> bool {
    (65 <= b && b <= 90) || (97 <= b && b <= 122) || (48 <= b && b <= 57)
}

/// An ASCII letter or digit.
pub open spec fn is_alnum_char(c: char) -> bool {
    is_alnum_byte((c as u32) as u8) && (c as u32) < 128
}

#[verifier::external_type_specification]
#[verifier::external_body]
pub struct ExStdRng(rand::rngs::StdRng);

/// A generator seeded from the operating system's random source, by
/// `rand::rngs::StdRng::from_rng(rand::rngs::OsRng)`; `None` where that source fails.
/// Nothing is stated of the generator: it is random.
#[verifier::external_body]
fn seeded_rng() -> (res: Option<rand::rngs::StdRng>) {
    rand::rngs::StdRng::from_rng(rand::rngs::OsRng).ok()
}

/// One byte drawn from `rng` by `rng.sample(rand::distributions::Alphanumeric)`, which the
/// crate documents as uniform over `a-z`, `A-Z` and `0-9`. The contract states only that
/// range.
#[verifier::external_body]
fn sample_alphanumeric(rng: &mut rand::rngs::StdRng) -> (res: u8)
    ensures
        is_alnum_byte(res),
{
    rng.sample(rand::distributions::Alphanumeric)
}

/// Seconds since the Unix epoch by `std::time::UNIX_EPOCH.elapsed()`, or `None` where the
/// clock reads earlier than the epoch. Nothing is stated of the value: it is the time.
#[verifier::external_body]
fn unix_time_secs() -> (res: Option<u64>) {
    match std::time::UNIX_EPOCH.elapsed() {
        Ok(d) => Some(d.as_secs()),
        Err(_) => None,
    }
}

/// The current time in seconds since the Unix epoch; `None` where the clock reads earlier
/// than the epoch.
pub fn get_current_time() -> (res: Option<u64>) {
    unix_time_secs()
}

/// The string whose characters are the ASCII letters and digits `draws`, in order.
pub fn alnum_string(draws: &Vec<u8>) -> (res: String)
    requires
        forall|i: int| 0 <= i < draws@.len() ==> is_alnum_byte(#[trigger] draws@[i]),
    ensures
        res@.len() == draws@.len(),
        forall|i: int| 0 <= i < draws@.len() ==> #[trigger] res@[i] as u32 == draws@[i] as u32,
        forall|i: int| 0 <= i < draws@.len() ==> is_alnum_char(#[trigger] res@[i]),
{
    let mut res = String::new();
    let mut k: usize = 0;
    while k < draws.len()
        invariant
            k <= draws@.len(),
            forall|i: int| 0 <= i < draws@.len() ==> is_alnum_byte(#[trigger] draws@[i]),
            res@.len() == k,
            forall|i: int| 0 <= i < k ==> #[trigger] res@[i] as u32 == draws@[i] as u32,
            forall|i: int| 0 <= i < k ==> is_alnum_char(#[trigger] res@[i]),
        decreases draws@.len() - k,
    {
        let b = draws[k];
        let c = b as char;
        assert(c as u32 == b as u32);
        push_char(&mut res, c);
        k = k + 1;
    }
    res
}

/// A string of `len` random ASCII letters and digits, each drawn from a generator seeded
/// from the operating system; `None` where that random source fails.
pub fn generate_random_string(len: usize) -> (res: Option<String>)
    ensures
        res matches Some(s) ==> s@.len() == len && forall|i: int|
            0 <= i < len ==> is_alnum_char(#[trigger] s@[i]),
{
    let mut rng = match seeded_rng() {
        Some(rng) => rng,
        None => return None,
    };
    let mut draws: Vec<u8> = Vec::new();
    let mut k: usize = 0;
    while k < len
        invariant
            k <= len,
            draws@.len() == k,
            forall|i: int| 0 <= i < k ==> is_alnum_byte(#[trigger] draws@[i]),
        decreases len - k,
    {
        draws.push(sample_alphanumeric(&mut rng));
        k = k + 1;
    }
    Some(alnum_string(&draws))
}

/// ASCII letters and digits are ASCII characters.
proof fn lemma_alnum_chars_are_ascii(s: Seq<char>)
    requires
        forall|i: int| 0 <= i < s.len() ==> is_alnum_char(#[trigger] s[i]),
    ensures
        vstd::utf8::is_ascii_chars(s),
{
    assert forall|i: int| 0 <= i < s.len() implies '\0' <= #[trigger] s[i] <= '\u{7f}' by {
        lemma_alnum_char_is_ascii(s[i]);
    }
}

proof fn lemma_alnum_char_is_ascii(c: char)
    requires
        is_alnum_char(c),
    ensures
        '\0' <= c <= '\u{7f}',
{
}

/// The error of a token drawing whose random source failed.
pub open spec fn is_random_source_error(e: AppError) -> bool {
    is_message_error(e, "the operating system's random source failed"@, None)
}

/// The error of a token drawing whose random source failed.
pub fn random_source_error() -> (res: AppError)
    ensures
        is_random_source_error(res),
{
    broadcast use vstd::string::group_string_axioms;
    AppError::message("the operating system's random source failed".to_string())
}

/// How many tokens are drawn, at most, before a random source that gives only tokens in use
/// is taken as failed.
pub const DRAW_ATTEMPTS: usize = 8;

// ---------------------------------------------------------------------------------------
// The tokens file
// ---------------------------------------------------------------------------------------

/// A string that survives being written as a line of the tokens file and read back:
/// non-empty, no line break, no whitespace at either end.
pub open spec fn is_line_safe(s: Seq<char>) -> bool {
    &&& s.len() > 0
    &&& !is_white(s[0])
    &&& !is_white(s.last())
    &&& !s.contains('\n')
}

/// The trimmed, non-empty lines among `lines`, in order.
pub open spec fn trimmed_nonempty(lines: Seq<Seq<char>>) -> Seq<Seq<char>>
    decreases lines.len(),
{
    if lines.len() == 0 {
        Seq::<Seq<char>>::empty()
    } else {
        let rest = trimmed_nonempty(lines.drop_last());
        let t = trim(lines.last());
        if t.len() > 0 {
            rest.push(t)
        } else {
            rest
        }
    }
}

/// The entries of a tokens file: its lines, trimmed, without the empty ones.
pub open spec fn file_entries(contents: Seq<char>) -> Seq<Seq<char>> {
    trimmed_nonempty(split_on(contents, '\n'))
}

/// Each of `items` followed by a line break.
pub open spec fn join_lines(items: Seq<Seq<char>>) -> Seq<char>
    decreases items.len(),
{
    if items.len() == 0 {
        Seq::<char>::empty()
    } else {
        join_lines(items.drop_last()) + items.last().push('\n')
    }
}

/// The salt with which tokens are hashed.
pub open spec fn token_salt() -> Seq<u8> {
    Seq::new(8, |i: int| 49u8)
}

/// The stored form of `token`: its argon2 hash, if the hasher accepts it.
pub open spec fn token_hash(token: Seq<char>) -> Option<Seq<char>> {
    argon2_encoded(encode_utf8(token), token_salt())
}

/// What checking `token` against the stored hashes `hashes` gives: whether its hash is
/// stored, or `None` where it cannot be hashed.
pub open spec fn check_token(hashes: Set<Seq<char>>, token: Seq<char>) -> Option<bool> {
    match token_hash(token) {
        Some(h) => Some(hashes.contains(h)),
        None => None,
    }
}

/// The shape of a generated access token: 30 ASCII letters and digits.
pub open spec fn is_token_shape(t: Seq<char>) -> bool {
    t.len() == 30 && forall|i: int| 0 <= i < 30 ==> is_alnum_char(#[trigger] t[i])
}

/// Why generating a token from `t` fails with `e` while `hashes` are stored: the hasher
/// refuses `t` (its error, no status), or the hash of `t` is stored already (an error naming
/// that hash, no status).
pub open spec fn generate_refusal(hashes: Set<Seq<char>>, t: Seq<char>, e: AppError) -> bool {
    match token_hash(t) {
        None => e.source is Hash && e.status is None,
        Some(h) => hashes.contains(h) && is_message_error(e, h, None),
    }
}

/// What drawing a new access token does to the stored hashes `before`: on success the
/// token has the generated shape, its hash was not stored and now is; on failure the random
/// source failed and nothing changed.
pub open spec fn access_token_generated(
    before: Set<Seq<char>>,
    after: Set<Seq<char>>,
    res: Result<String, AppError>,
) -> bool {
    match res {
        Ok(token) => {
            &&& is_token_shape(token@)
            &&& token_hash(token@) matches Some(h) && !before.contains(h) && after == before.insert(h)
        },
        Err(e) => after == before && is_random_source_error(e),
    }
}

/// The set of hashed access tokens.
pub struct Tokens {
    hashed: scc::HashSet<String>,
}

impl View for Tokens {
    type V = Set<Seq<char>>;

    closed spec fn view(&self) -> Set<Seq<char>> {
        hash_set_items(self.hashed)
    }
}

impl Tokens {
    /// Every stored hash can be written as a line of the tokens file.
    #[verifier::type_invariant]
    spec fn well_formed(self) -> bool {
        forall|h: Seq<char>| #[trigger] hash_set_items(self.hashed).contains(h) ==> is_line_safe(h)
    }

    fn salt() -> (res: Vec<u8>)
        ensures
            res@ == token_salt(),
    {
        let v = vec![49u8; 8];
        assert(v@ =~= token_salt());
        v
    }

    /// The tokens that a tokens file holds: each of its lines, trimmed, unless empty.
    pub fn read(contents: &str) -> (res: Tokens)
        ensures
            res@ == file_entries(contents@).to_set(),
    {
        let cs = chars_of(contents);
        let mut hashed = hash_set_new();
        let mut line: Vec<char> = Vec::new();
        let n = cs.len();
        let mut i: usize = 0;
        proof {
            assert(cs@.take(0) =~= Seq::<char>::empty());
        }
        while i < n
            invariant
                n == cs@.len(),
                i <= n,
                !line@.contains('\n'),
                split_on(cs@.take(i as int), '\n') == split_on(cs@.take(i as int), '\n').drop_last().push(line@),
                hash_set_items(hashed) == trimmed_nonempty(split_on(cs@.take(i as int), '\n').drop_last()).to_set(),
                forall|h: Seq<char>| #[trigger] hash_set_items(hashed).contains(h) ==> is_line_safe(h),
            decreases n - i,
        {
            let ghost p = cs@.take(i as int);
            assert(cs@.take(i + 1) == p.push(cs@[i as int]));
            let c = cs[i];
            if c == '\n' {
                Self::insert_trimmed(&mut hashed, &line);
                line = Vec::new();
                proof {
                    let sp = split_on(p, '\n');
                    assert(p.push('\n').drop_last() == p);
                    assert(split_on(p.push('\n'), '\n') == sp.push(Seq::<char>::empty()));
                    assert(sp.push(Seq::<char>::empty()).drop_last() == sp);
                    assert(sp.drop_last().push(sp.last()) == sp);
                    assert(sp.push(Seq::<char>::empty()) == sp.push(Seq::<char>::empty()).drop_last().push(line@));
                }
            } else {
                line.push(c);
                proof {
                    let sp = split_on(p, '\n');
                    let sp2 = split_on(p.push(c), '\n');
                    assert(p.push(c).drop_last() == p);
                    assert(sp2 == sp.update(sp.len() - 1, sp.last().push(c)));
                    assert(sp2.drop_last() == sp.drop_last());
                    assert(sp2 == sp2.drop_last().push(line@));
                    assert(!line@.contains('\n')) by {
                        if line@.contains('\n') {
                            let k = choose|k: int| 0 <= k < line@.len() && line@[k] == '\n';
                            if k < line@.len() - 1 {
                                assert(line@.drop_last()[k] == '\n');
                            }
                        }
                    }
                }
            }
            i = i + 1;
        }
        Self::insert_trimmed(&mut hashed, &line);
        proof {
            assert(cs@.take(n as int) == cs@);
            let sp = split_on(cs@, '\n');
            assert(sp.drop_last().push(line@) == sp);
            assert(sp.len() > 0);
        }
        Tokens { hashed }
    }

    /// Adds `trim(line)` to `hashed` unless it is empty.
    fn insert_trimmed(hashed: &mut scc::HashSet<String>, line: &Vec<char>)
        requires
            !line@.contains('\n'),
            forall|h: Seq<char>| #[trigger] hash_set_items(*old(hashed)).contains(h) ==> is_line_safe(h),
        ensures
            hash_set_items(*final(hashed)) == (if trim(line@).len() > 0 {
                hash_set_items(*old(hashed)).insert(trim(line@))
            } else {
                hash_set_items(*old(hashed))
            }),
            forall|h: Seq<char>| #[trigger] hash_set_items(*final(hashed)).contains(h) ==> is_line_safe(h),
    {
        let (a, b) = trim_bounds(line);
        if a < b {
            let mut t = String::new();
            push_range(&mut t, line, a, b);
            proof {
                let s = line@.subrange(a as int, b as int);
                assert(s[0] == line@[a as int]);
                assert(s.last() == line@[b - 1]);
                assert(!s.contains('\n')) by {
                    if s.contains('\n') {
                        let k = choose|k: int| 0 <= k < s.len() && s[k] == '\n';
                        assert(line@[a + k] == '\n');
                    }
                }
                assert(t@ == s);
            }
            hash_set_insert(hashed, t);
        }
    }

    /// The contents of a tokens file holding the stored hashes: each hash followed by a line
    /// break, in the order the set hands them out.
    pub fn write(&mut self) -> (res: String)
        ensures
            final(self)@ == old(self)@,
            forall|h: Seq<char>| #[trigger] old(self)@.contains(h) ==> is_line_safe(h),
            exists|hashes: Seq<Seq<char>>|
                #![trigger join_lines(hashes)]
                hashes.no_duplicates() && hashes.to_set() == old(self)@ && res@ == join_lines(hashes),
    {
        proof {
            use_type_invariant(&*self);
        }
        let mut hashed = hash_set_new();
        std::mem::swap(&mut hashed, &mut self.hashed);
        let keys = hash_set_keys(&mut hashed);
        self.hashed = hashed;
        let mut res = String::new();
        let mut k: usize = 0;
        let ghost items = keys.deep_view();
        while k < keys.len()
            invariant
                k <= keys@.len(),
                items == keys.deep_view(),
                res@ == join_lines(items.take(k as int)),
            decreases keys@.len() - k,
        {
            push_str(&mut res, keys[k].as_str());
            push_char(&mut res, '\n');
            proof {
                assert(items.take(k + 1).drop_last() == items.take(k as int));
                assert(items.take(k + 1).last() == keys@[k as int]@);
            }
            k = k + 1;
        }
        proof {
            assert(items.take(keys@.len() as int) == items);
        }
        res
    }

    /// Draws a new access token, stores its hash, and returns the token. A drawn token whose
    /// hash is stored already is drawn again; where the random source fails, or gives only
    /// such tokens for `DRAW_ATTEMPTS` draws, it fails with nothing stored.
    pub fn generate(&mut self) -> (res: Result<String, AppError>)
        ensures
            access_token_generated(old(self)@, final(self)@, res),
    {
        let ghost start = self@;
        let mut attempt: usize = 0;
        while attempt < DRAW_ATTEMPTS
            invariant
                start == old(self)@,
                self@ == start,
                attempt <= DRAW_ATTEMPTS,
            decreases DRAW_ATTEMPTS - attempt,
        {
            let token = match generate_random_string(30) {
                None => return Err(random_source_error()),
                Some(token) => token,
            };
            let ghost drawn = token@;
            proof {
                lemma_alnum_chars_are_ascii(drawn);
                vstd::utf8::is_ascii_chars_encode_utf8(drawn);
            }
            let res = self.generate_with(token);
            match res {
                Ok(token) => {
                    return Ok(token);
                },
                Err(_) => {},
            }
            attempt = attempt + 1;
        }
        Err(random_source_error())
    }

    /// Stores the hash of `token` and returns the token; the hasher's error where it refuses
    /// the token, and an error naming the hash where that hash is stored already.
    pub fn generate_with(&mut self, token: String) -> (res: Result<String, AppError>)
        ensures
            encode_utf8(token@).len() <= 0xffff_ffff ==> token_hash(token@) is Some,
            match token_hash(token@) {
                Some(h) => if old(self)@.contains(h) {
                    (res matches Err(e) && generate_refusal(old(self)@, token@, e))
                        && final(self)@ == old(self)@
                } else {
                    res == Ok::<String, AppError>(token) && final(self)@ == old(self)@.insert(h)
                },
                None => (res matches Err(e) && generate_refusal(old(self)@, token@, e))
                    && final(self)@ == old(self)@,
            },
    {
        proof {
            use_type_invariant(&*self);
        }
        let salt = Self::salt();
        match argon2_hash(token.as_str().as_bytes(), salt.as_slice()) {
            Ok(h) => {
                proof {
                    assert(h@.contains('\n') ==> false) by {
                        if h@.contains('\n') {
                            let k = choose|k: int| 0 <= k < h@.len() && h@[k] == '\n';
                            assert(is_white(h@[k]));
                        }
                    }
                }
                let key = h.clone();
                let mut hashed = hash_set_new();
                std::mem::swap(&mut hashed, &mut self.hashed);
                let added = hash_set_insert(&mut hashed, h);
                self.hashed = hashed;
                if added {
                    Ok(token)
                } else {
                    Err(AppError::message(key))
                }
            },
            Err(e) => Err(AppError::hash(e)),
        }
    }

    /// Whether the hash of `token` is stored; an error where it cannot be hashed, which is
    /// only for a token longer than `u32::MAX` bytes.
    pub fn verify(&self, token: &str) -> (res: Result<bool, AppError>)
        ensures
            encode_utf8(token@).len() <= 0xffff_ffff ==> res is Ok,
            match check_token(self@, token@) {
                Some(b) => res == Ok::<bool, AppError>(b),
                None => res is Err,
            },
            res matches Err(e) ==> e.source is Hash && e.status is None,
    {
        let salt = Self::salt();
        match argon2_hash(token.as_bytes(), salt.as_slice()) {
            Ok(h) => Ok(hash_set_contains(&self.hashed, h.as_str())),
            Err(e) => Err(AppError::hash(e)),
        }
    }

    /// Forgets every stored token.
    pub fn revoke_all(&mut self)
        ensures
            final(self)@ == Set::<Seq<char>>::empty(),
    {
        let mut hashed = hash_set_new();
        std::mem::swap(&mut hashed, &mut self.hashed);
        hash_set_clear(&mut hashed);
        self.hashed = hashed;
    }
}

// ---------------------------------------------------------------------------------------
// Laws of the token store
// ---------------------------------------------------------------------------------------

proof fn lemma_split_append_plain(a: Seq<char>, b: Seq<char>, sep: char)
    requires
        !b.contains(sep),
    ensures
        split_on(a + b, sep) == split_on(a, sep).update(
            split_on(a, sep).len() - 1,
            split_on(a, sep).last() + b,
        ),
        split_on(a, sep).len() > 0,
    decreases b.len(),
{
    lemma_split_nonempty(a, sep);
    if b.len() == 0 {
        assert(a + b == a);
        let sp = split_on(a, sep);
        assert(sp.last() + b == sp.last());
        assert(sp.update(sp.len() - 1, sp.last()) == sp);
    } else {
        let b1 = b.drop_last();
        assert(!b1.contains(sep)) by {
            if b1.contains(sep) {
                let k = choose|k: int| 0 <= k < b1.len() && b1[k] == sep;
                assert(b[k] == sep);
            }
        }
        lemma_split_append_plain(a, b1, sep);
        assert((a + b).drop_last() == a + b1);
        assert((a + b).last() == b.last());
        assert(b.last() != sep) by {
            assert(b[b.len() - 1] == b.last());
        }
        let sp = split_on(a, sep);
        assert(sp.last() + b1 + seq![b.last()] == sp.last() + b);
        assert((sp.last() + b1).push(b.last()) == sp.last() + b);
    }
}

proof fn lemma_split_nonempty(a: Seq<char>, sep: char)
    ensures
        split_on(a, sep).len() > 0,
    decreases a.len(),
{
    if a.len() > 0 {
        lemma_split_nonempty(a.drop_last(), sep);
    }
}

proof fn lemma_split_join(items: Seq<Seq<char>>)
    requires
        forall|i: int| 0 <= i < items.len() ==> !(#[trigger] items[i]).contains('\n'),
    ensures
        split_on(join_lines(items), '\n') == items.push(Seq::<char>::empty()),
    decreases items.len(),
{
    if items.len() == 0 {
        assert(join_lines(items) == Seq::<char>::empty());
    } else {
        let rest = items.drop_last();
        let l = items.last();
        assert(forall|i: int| 0 <= i < rest.len() ==> rest[i] == items[i]);
        lemma_split_join(rest);
        let j = join_lines(rest);
        assert(!l.contains('\n')) by {
            assert(items[items.len() - 1] == l);
        }
        lemma_split_append_plain(j, l, '\n');
        let sp = split_on(j + l, '\n');
        assert(sp == rest.push(l)) by {
            assert(split_on(j, '\n').last() == Seq::<char>::empty());
            assert(Seq::<char>::empty() + l == l);
            assert(rest.push(Seq::<char>::empty()).update(rest.len() as int, l) == rest.push(l));
        }
        assert(join_lines(items) == (j + l).push('\n'));
        assert((j + l).push('\n').drop_last() == j + l);
        assert(rest.push(l) == items);
    }
}

proof fn lemma_trim_line_safe(l: Seq<char>)
    requires
        is_line_safe(l),
    ensures
        trim(l) == l,
{
    assert(trim_start(l) == l);
    assert(trim_end(l) == l);
}

proof fn lemma_trimmed_nonempty_safe(items: Seq<Seq<char>>)
    requires
        forall|i: int| 0 <= i < items.len() ==> is_line_safe(#[trigger] items[i]),
    ensures
        trimmed_nonempty(items) == items,
    decreases items.len(),
{
    if items.len() > 0 {
        let rest = items.drop_last();
        assert(forall|i: int| 0 <= i < rest.len() ==> rest[i] == items[i]);
        lemma_trimmed_nonempty_safe(rest);
        assert(is_line_safe(items[items.len() - 1]));
        lemma_trim_line_safe(items.last());
        assert(rest.push(items.last()) == items);
    }
}

/// Writing hashes to a tokens file and reading the file gives the same hashes, in the
/// same order, for any hashes that are line-safe (as every stored hash is).
pub proof fn law_tokens_file_round_trip(hashes: Seq<Seq<char>>)
    requires
        forall|i: int| 0 <= i < hashes.len() ==> is_line_safe(#[trigger] hashes[i]),
    ensures
        file_entries(join_lines(hashes)) == hashes,
{
    assert forall|i: int| 0 <= i < hashes.len() implies !(#[trigger] hashes[i]).contains('\n') by {
        assert(is_line_safe(hashes[i]));
    }
    lemma_split_join(hashes);
    let sp = hashes.push(Seq::<char>::empty());
    assert(sp.drop_last() == hashes);
    assert(trim(Seq::<char>::empty()) == Seq::<char>::empty());
    lemma_trimmed_nonempty_safe(hashes);
}

/// The stored hashes after a run of calls none of which is `revoke_all`: each step is
/// `Some(h)` for a `generate` that stored `h`, or `None` for a call that left the store as
/// it was (`verify`, `write`, a `generate` that failed).
pub open spec fn after_calls(hashes: Set<Seq<char>>, steps: Seq<Option<Seq<char>>>) -> Set<Seq<char>>
    decreases steps.len(),
{
    if steps.len() == 0 {
        hashes
    } else {
        let before = after_calls(hashes, steps.drop_last());
        match steps.last() {
            Some(h) => before.insert(h),
            None => before,
        }
    }
}

/// A token that checks as valid keeps checking as valid through any run of calls that does
/// not revoke all tokens.
pub proof fn law_token_valid_until_revoked(
    hashes: Set<Seq<char>>,
    token: Seq<char>,
    steps: Seq<Option<Seq<char>>>,
)
    requires
        check_token(hashes, token) == Some(true),
    ensures
        check_token(after_calls(hashes, steps), token) == Some(true),
    decreases steps.len(),
{
    if steps.len() > 0 {
        law_token_valid_until_revoked(hashes, token, steps.drop_last());
    }
}

/// A token that was just generated and stored checks as valid.
pub proof fn law_generated_token_verifies(hashes: Set<Seq<char>>, token: Seq<char>)
    requires
        token_hash(token) is Some,
    ensures
        check_token(hashes.insert(token_hash(token)->Some_0), token) == Some(true),
{
}

/// After every token was revoked, no token checks as valid.
pub proof fn law_revoked_token_fails(token: Seq<char>)
    ensures
        check_token(Set::<Seq<char>>::empty(), token) != Some(true),
{
}

// ---------------------------------------------------------------------------------------
// Tokens scoped to one track
// ---------------------------------------------------------------------------------------

/// Seconds from `created` to `now` as an unsigned 64-bit subtraction that wraps when the
/// clock reads earlier than `created`.
pub open spec fn elapsed(now: u64, created: u64) -> int {
    if now >= created {
        now - created
    } else {
        now - created + 0x1_0000_0000_0000_0000
    }
}

/// Checking a scoped `token` at time `now`: the entries afterwards and the music id the
/// token grants. A token past its expiry is dropped and grants nothing.
pub open spec fn scoped_check(
    entries: Map<Seq<char>, (u64, Seq<char>)>,
    expiry: u64,
    token: Seq<char>,
    now: u64,
) -> (Map<Seq<char>, (u64, Seq<char>)>, Option<Seq<char>>) {
    if !entries.contains_key(token) {
        (entries, None)
    } else if elapsed(now, entries[token].0) > expiry {
        (entries.remove(token), None)
    } else {
        (entries, Some(entries[token].1))
    }
}

/// Recording a fresh scoped `token` for `music_id` at time `now`: a token already in use
/// keeps its old entry.
pub open spec fn scoped_record(
    entries: Map<Seq<char>, (u64, Seq<char>)>,
    token: Seq<char>,
    music_id: Seq<char>,
    now: u64,
) -> Map<Seq<char>, (u64, Seq<char>)> {
    if entries.contains_key(token) {
        entries
    } else {
        entries.insert(token, (now, music_id))
    }
}

/// The shape of a scoped token: 12 ASCII letters and digits.
pub open spec fn is_scoped_token_shape(t: Seq<char>) -> bool {
    t.len() == 12 && forall|i: int| 0 <= i < 12 ==> is_alnum_char(#[trigger] t[i])
}

/// What generating a scoped token for `music_id` does: on success the token has the scoped
/// shape, was not in use, and now grants `music_id` from the one clock reading taken; on
/// failure nothing changed.
pub open spec fn scoped_token_generated(
    before: MusicScopedTokens,
    after: MusicScopedTokens,
    music_id: Seq<char>,
    res: Option<Seq<char>>,
) -> bool {
    &&& after.expiry() == before.expiry()
    &&& match res {
        Some(token) => {
            &&& is_scoped_token_shape(token)
            &&& !before@.contains_key(token)
            &&& exists|now: u64|
                #![trigger before.readings().push(now)]
                after.readings() == before.readings().push(now) && after@ == before@.insert(
                    token,
                    (now, music_id),
                )
        },
        None => after@ == before@ && after.readings() == before.readings(),
    }
}

/// What checking scoped `token` against the clock does: either the clock could not be read,
/// nothing changed and nothing is granted, or exactly one reading `now` was taken and the
/// token was checked at it.
pub open spec fn scoped_token_checked(
    before: MusicScopedTokens,
    after: MusicScopedTokens,
    token: Seq<char>,
    res: Option<Seq<char>>,
) -> bool {
    &&& after.expiry() == before.expiry()
    &&& {
        ||| after@ == before@ && after.readings() == before.readings() && res is None
        ||| exists|now: u64|
            #![trigger before.readings().push(now)]
            after.readings() == before.readings().push(now) && scoped_check(
                before@,
                before.expiry(),
                token,
                now,
            ) == (after@, res)
    }
}

/// The music id that an optional exec string carries, as a sequence.
pub open spec fn opt_string_view(s: Option<String>) -> Option<Seq<char>> {
    match s {
        Some(id) => Some(id@),
        None => None,
    }
}

/// Tokens that each grant access to one track for a limited time.
pub struct MusicScopedTokens {
    map: ScopedMap,
    expiry_time: u64,
    clock: ClockLog,
}

impl View for MusicScopedTokens {
    type V = Map<Seq<char>, (u64, Seq<char>)>;

    closed spec fn view(&self) -> Map<Seq<char>, (u64, Seq<char>)> {
        scoped_entries(self.map)
    }
}

impl MusicScopedTokens {
    /// How many seconds a scoped token stays valid.
    pub closed spec fn expiry(&self) -> u64 {
        self.expiry_time
    }

    /// The clock readings that these tokens were recorded and checked against, oldest first.
    pub closed spec fn readings(&self) -> Seq<u64> {
        self.clock.readings()
    }

    /// No scoped tokens; each new one will stay valid for `expiry_time` seconds.
    pub fn new(expiry_time: u64) -> (res: MusicScopedTokens)
        ensures
            res@ == Map::<Seq<char>, (u64, Seq<char>)>::empty(),
            res.expiry() == expiry_time,
            res.readings() == Seq::<u64>::empty(),
    {
        MusicScopedTokens { map: scoped_map_new(), expiry_time, clock: ClockLog::new() }
    }

    /// Reads the clock, logging a successful reading; the tokens stay as they are.
    pub fn read_clock(&mut self) -> (res: Option<u64>)
        ensures
            final(self)@ == old(self)@,
            final(self).expiry() == old(self).expiry(),
            match res {
                Some(now) => final(self).readings() == old(self).readings().push(now),
                None => *final(self) == *old(self),
            },
    {
        self.clock.read()
    }

    /// A 12-character token that is not in use, drawn again while a drawn one is; `None`
    /// where the random source fails or gives only tokens in use for `DRAW_ATTEMPTS` draws.
    pub fn fresh_token(&self) -> (res: Option<String>)
        ensures
            res matches Some(t) ==> is_scoped_token_shape(t@) && !self@.contains_key(t@),
    {
        let mut attempt: usize = 0;
        while attempt < DRAW_ATTEMPTS
            invariant
                attempt <= DRAW_ATTEMPTS,
            decreases DRAW_ATTEMPTS - attempt,
        {
            let token = match generate_random_string(12) {
                None => return None,
                Some(token) => token,
            };
            if scoped_map_get(&self.map, token.as_str()).is_none() {
                return Some(token);
            }
            attempt = attempt + 1;
        }
        None
    }

    /// Draws a 12-character token not in use, records it as granting `music_id` from now on,
    /// at the clock reading taken, and returns it; `None` (with nothing recorded) where the
    /// random source fails or gives only tokens in use for `DRAW_ATTEMPTS` draws, or where the
    /// clock reads earlier than the Unix epoch.
    pub fn generate_for_id(&mut self, music_id: String) -> (res: Option<String>)
        ensures
            scoped_token_generated(*old(self), *final(self), music_id@, opt_string_view(res)),
            match res {
                Some(token) => {
                    &&& token@.len() == 12
                    &&& forall|i: int| 0 <= i < 12 ==> is_alnum_char(#[trigger] token@[i])
                    &&& exists|now: u64|
                        final(self)@ == #[trigger] scoped_record(old(self)@, token@, music_id@, now)
                },
                None => final(self)@ == old(self)@,
            },
    {
        let ghost before = *self;
        let ghost id = music_id@;
        let token = match self.fresh_token() {
            Some(token) => token,
            None => return None,
        };
        match self.read_clock() {
            Some(now) => {
                let res = self.generate_for_id_at(token, music_id, now);
                assert(self@ == scoped_record(before@, res@, id, now));
                assert(self.readings() == before.readings().push(now));
                Some(res)
            },
            None => None,
        }
    }

    /// Records `token` as granting `music_id` from time `now`, unless the token is in use
    /// already, and returns it.
    pub fn generate_for_id_at(&mut self, token: String, music_id: String, now: u64) -> (res: String)
        ensures
            res == token,
            final(self).expiry() == old(self).expiry(),
            final(self).readings() == old(self).readings(),
            final(self)@ == scoped_record(old(self)@, token@, music_id@, now),
    {
        let key = token.clone();
        let _ = scoped_map_insert(&mut self.map, key, now, music_id);
        token
    }

    /// The music id that `token` grants now; an expired token is dropped. `None` (with
    /// nothing changed) also where the clock reads earlier than the Unix epoch.
    pub fn verify(&mut self, token: &str) -> (res: Option<String>)
        ensures
            scoped_token_checked(*old(self), *final(self), token@, opt_string_view(res)),
            final(self).expiry() == old(self).expiry(),
            final(self)@ == old(self)@ && res is None || exists|now: u64|
                #[trigger] scoped_check(old(self)@, old(self).expiry(), token@, now) == (
                    final(self)@,
                    match res {
                        Some(id) => Some(id@),
                        None => None::<Seq<char>>,
                    },
                ),
    {
        let ghost before = *self;
        match self.read_clock() {
            Some(now) => {
                let res = self.verify_at(token, now);
                assert(scoped_check(before@, before.expiry(), token@, now) == (
                    self@,
                    opt_string_view(res),
                ));
                assert(self.readings() == before.readings().push(now));
                res
            },
            None => None,
        }
    }

    /// The music id that `token` grants at time `now`; a token past its expiry is dropped.
    pub fn verify_at(&mut self, token: &str, now: u64) -> (res: Option<String>)
        ensures
            final(self).expiry() == old(self).expiry(),
            final(self).readings() == old(self).readings(),
            scoped_check(old(self)@, old(self).expiry(), token@, now) == (final(self)@, match res {
                Some(id) => Some(id@),
                None => None::<Seq<char>>,
            }),
    {
        match scoped_map_get(&self.map, token) {
            None => None,
            Some((created, music_id)) => {
                let expired = if now >= created {
                    now - created > self.expiry_time
                } else {
                    created - now <= u64::MAX - self.expiry_time
                };
                if expired {
                    scoped_map_remove(&mut self.map, token);
                    None
                } else {
                    Some(music_id)
                }
            },
        }
    }
}

/// A scoped token grants its music id at every moment from its creation until its expiry
/// has passed.
pub proof fn law_scoped_token_valid_until_expiry(
    entries: Map<Seq<char>, (u64, Seq<char>)>,
    expiry: u64,
    token: Seq<char>,
    music_id: Seq<char>,
    created: u64,
    now: u64,
)
    requires
        !entries.contains_key(token),
        created <= now,
        now - created <= expiry,
    ensures
        scoped_check(scoped_record(entries, token, music_id, created), expiry, token, now) == (
            scoped_record(entries, token, music_id, created),
            Some(music_id),
        ),
{
}

/// Once a scoped token is found expired it is gone: it grants nothing at any later check.
pub proof fn law_expired_token_stays_gone(
    entries: Map<Seq<char>, (u64, Seq<char>)>,
    expiry: u64,
    token: Seq<char>,
    now: u64,
    later: u64,
)
    requires
        entries.contains_key(token),
        elapsed(now, entries[token].0) > expiry,
    ensures
        scoped_check(entries, expiry, token, now).1 is None,
        scoped_check(scoped_check(entries, expiry, token, now).0, expiry, token, later).1 is None,
{
}

/// A token that was never recorded grants nothing and changes nothing.
pub proof fn law_unknown_scoped_token(
    entries: Map<Seq<char>, (u64, Seq<char>)>,
    expiry: u64,
    token: Seq<char>,
    now: u64,
)
    requires
        !entries.contains_key(token),
    ensures
        scoped_check(entries, expiry, token, now) == (entries, None::<Seq<char>>),
{
}

/// Checking a scoped token against the clock uses the one reading it took: a token recorded
/// more than the expiry before that reading is refused and dropped, and one recorded at
/// most the expiry before it grants its music id, changing nothing.
pub proof fn law_scoped_token_checked_at_the_reading_taken(
    before: MusicScopedTokens,
    after: MusicScopedTokens,
    token: Seq<char>,
    res: Option<Seq<char>>,
)
    requires
        scoped_token_checked(before, after, token, res),
        after.readings().len() > before.readings().len(),
        before@.contains_key(token),
        before@[token].0 <= after.readings().last(),
    ensures
        after.readings().last() - before@[token].0 > before.expiry() ==> res is None
            && !after@.contains_key(token),
        after.readings().last() - before@[token].0 <= before.expiry() ==> res == Some(
            before@[token].1,
        ) && after@ == before@,
{
    let now = choose|now: u64|
        #![trigger before.readings().push(now)]
        after.readings() == before.readings().push(now) && scoped_check(
            before@,
            before.expiry(),
            token,
            now,
        ) == (after@, res);
    assert(after.readings().last() == now);
}

/// Two scoped tokens generated one after the other are different, and each grants the music
/// id it was generated for.
pub proof fn law_scoped_tokens_generated_in_turn_are_distinct(
    first: MusicScopedTokens,
    second: MusicScopedTokens,
    third: MusicScopedTokens,
    id1: Seq<char>,
    id2: Seq<char>,
    t1: Seq<char>,
    t2: Seq<char>,
)
    requires
        scoped_token_generated(first, second, id1, Some(t1)),
        scoped_token_generated(second, third, id2, Some(t2)),
    ensures
        t1 != t2,
        third@.contains_key(t1) && third@[t1].1 == id1,
        third@.contains_key(t2) && third@[t2].1 == id2,
{
    let n1 = choose|now: u64|
        #![trigger first.readings().push(now)]
        second.readings() == first.readings().push(now) && second@ == first@.insert(t1, (now, id1));
    let n2 = choose|now: u64|
        #![trigger second.readings().push(now)]
        third.readings() == second.readings().push(now) && third@ == second@.insert(t2, (now, id2));
    assert(second@.contains_key(t1));
}

/// A scoped token that was just generated grants its music id when checked at any reading
/// from its creation until its expiry has passed.
pub proof fn law_generated_scoped_token_grants_its_id(
    first: MusicScopedTokens,
    second: MusicScopedTokens,
    third: MusicScopedTokens,
    music_id: Seq<char>,
    token: Seq<char>,
    res: Option<Seq<char>>,
)
    requires
        scoped_token_generated(first, second, music_id, Some(token)),
        scoped_token_checked(second, third, token, res),
        third.readings().len() > second.readings().len(),
        second.readings().last() <= third.readings().last(),
        third.readings().last() - second.readings().last() <= first.expiry(),
    ensures
        res == Some(music_id),
        third@ == second@,
{
    let created = choose|now: u64|
        #![trigger first.readings().push(now)]
        second.readings() == first.readings().push(now) && second@ == first@.insert(
            token,
            (now, music_id),
        );
    assert(second.readings().last() == created);
    assert(second@[token] == (created, music_id));
    law_scoped_token_checked_at_the_reading_taken(second, third, token, res);
}

/// Two access tokens generated one after the other are different and both verify.
pub proof fn law_access_tokens_generated_in_turn_both_verify(
    first: Set<Seq<char>>,
    second: Set<Seq<char>>,
    third: Set<Seq<char>>,
    t1: String,
    t2: String,
)
    requires
        access_token_generated(first, second, Ok(t1)),
        access_token_generated(second, third, Ok(t2)),
    ensures
        t1@ != t2@,
        check_token(third, t1@) == Some(true),
        check_token(third, t2@) == Some(true),
{
}

/// Generating an access token, whether it succeeds or fails, keeps every stored token valid.
pub proof fn law_generation_keeps_valid_tokens(
    before: Set<Seq<char>>,
    after: Set<Seq<char>>,
    res: Result<String, AppError>,
    token: Seq<char>,
)
    requires
        access_token_generated(before, after, res),
        check_token(before, token) == Some(true),
    ensures
        check_token(after, token) == Some(true),
{
}

} // verus!
