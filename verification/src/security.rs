//! Security utilities: API-key validation, sensitive-data hashing,
//! token generation, rate limiting, and privacy-setting classification.

use std::collections::hash_map::DefaultHasher;
use std::hash::Hash;
use std::hash::Hasher;

use vstd::prelude::*;

use crate::clock::now_millis;
use crate::text::{spec_contains_seq, str_contains, str_eq};

verus! {

/// Whether one character may appear in an API key: alphanumeric, `'-'`
/// or `'_'`.
pub open spec fn spec_key_char(c: char) -> bool {
    alnum_char(c) || c == '-' || c == '_'
}

/// Whether `char::is_alphanumeric` accepts the character: a fixed
/// function of the character alone, left unspecified here.
pub uninterp spec fn alnum_char(c: char) -> bool;

/// Relies on `char::is_alphanumeric`: Unicode letter or digit, a
/// function of the character alone.
#[verifier::external_body]
fn is_alnum(c: char) -> (r: bool)
    ensures
        r == alnum_char(c),
{
    c.is_alphanumeric()
}

/// A well-formed API key: at least 32 characters, all of them
/// alphanumeric, `'-'` or `'_'`.
pub open spec fn spec_valid_api_key(s: Seq<char>) -> bool {
    s.len() >= 32 && forall|i: int| 0 <= i < s.len() ==> spec_key_char(#[trigger] s[i])
}

/// Validates an API key's shape: long enough and drawn from the key
/// alphabet. This is a format check, not a lookup against stored keys.
pub fn validate_api_key(api_key: &str) -> (r: bool)
    ensures
        r == spec_valid_api_key(api_key@),
{
    let n = api_key.unicode_len();
    if n < 32 {
        return false;
    }
    let mut i: usize = 0;
    while i < n
        invariant
            n == api_key@.len(),
            i <= n,
            forall|j: int| 0 <= j < i ==> spec_key_char(#[trigger] api_key@[j]),
        decreases n - i,
    {
        let c = api_key.get_char(i);
        if !(is_alnum(c) || c == '-' || c == '_') {
            return false;
        }
        i = i + 1;
    }
    true
}

/// The hex digest `hash_sensitive_data` renders for an input: a fixed
/// function of the characters alone, left unspecified here.
pub uninterp spec fn default_hash_hex(s: Seq<char>) -> Seq<char>;

/// Relies on std's `DefaultHasher` — a zero-keyed SipHash, identical
/// across instances created through `new` — and on `format!`'s `{:x}`
/// rendering of the 64-bit digest: the result depends on the input's
/// characters alone and is 1 to 16 hex digits long.
#[verifier::external_body]
pub fn hash_sensitive_data(data: &str) -> (r: String)
    ensures
        r@ == default_hash_hex(data@),
        1 <= r@.len() <= 16,
{
    let mut hasher = DefaultHasher::new();
    data.hash(&mut hasher);
    format!("{:x}", hasher.finish())
}

/// Relies on uuid's `Uuid::new_v4` and its hyphenated `Display` form: a
/// random version-4 UUID rendered as 36 characters. The value is
/// random, so nothing more is promised.
#[verifier::external_body]
pub fn generate_secure_token() -> (r: String)
    ensures
        r@.len() == 36,
{
    uuid::Uuid::new_v4().to_string()
}

/// The privacy-setting category a setting key falls under, read off its
/// dotted prefix.
pub open spec fn spec_setting_category(key: Seq<char>) -> Option<Seq<char>> {
    if spec_has_prefix(key, "data_collection."@) {
        Some("data_collection"@)
    } else if spec_has_prefix(key, "sharing."@) {
        Some("sharing"@)
    } else if spec_has_prefix(key, "analytics."@) {
        Some("analytics"@)
    } else if spec_has_prefix(key, "security."@) {
        Some("security"@)
    } else {
        None
    }
}

/// `p` is a prefix of `s`.
pub open spec fn spec_has_prefix(s: Seq<char>, p: Seq<char>) -> bool {
    s.len() >= p.len() && s.subrange(0, p.len() as int) == p
}

/// Whether `prefix` starts `s`, character by character.
pub fn str_starts_with(s: &str, prefix: &str) -> (r: bool)
    ensures
        r == spec_has_prefix(s@, prefix@),
{
    let n = s.unicode_len();
    let m = prefix.unicode_len();
    if n < m {
        proof {
            assert(!spec_has_prefix(s@, prefix@));
        }
        return false;
    }
    let mut i: usize = 0;
    while i < m
        invariant
            n == s@.len(),
            m == prefix@.len(),
            m <= n,
            i <= m,
            forall|j: int| 0 <= j < i ==> s@[j] == prefix@[j],
        decreases m - i,
    {
        if s.get_char(i) != prefix.get_char(i) {
            proof {
                assert(s@.subrange(0, m as int)[i as int] != prefix@[i as int]);
            }
            return false;
        }
        i = i + 1;
    }
    proof {
        assert(s@.subrange(0, m as int) =~= prefix@);
    }
    true
}

/// Sorts a privacy-setting key into its category by prefix:
/// `data_collection.`, `sharing.`, `analytics.` or `security.`; any
/// other key has no category.
pub fn extract_setting_category(key: &str) -> (r: Option<String>)
    ensures
        match r {
            Some(c) => spec_setting_category(key@) matches Some(v) && c@ == v,
            None => spec_setting_category(key@) is None,
        },
{
    if str_starts_with(key, "data_collection.") {
        Some("data_collection".to_owned())
    } else if str_starts_with(key, "sharing.") {
        Some("sharing".to_owned())
    } else if str_starts_with(key, "analytics.") {
        Some("analytics".to_owned())
    } else if str_starts_with(key, "security.") {
        Some("security".to_owned())
    } else {
        None
    }
}

/// The timestamps of `ts` still inside a window starting strictly
/// after `start`.
pub open spec fn spec_kept(ts: Seq<i64>, start: i64) -> Seq<i64> {
    ts.filter(|t: i64| t > start)
}

/// One step of scanning a history: extending the scanned prefix by one
/// timestamp keeps it exactly when it lies inside the window.
proof fn lemma_kept_step(ts: Seq<i64>, start: i64, j: int)
    requires
        0 <= j < ts.len(),
    ensures
        spec_kept(ts.subrange(0, j + 1), start) == if ts[j] > start {
            spec_kept(ts.subrange(0, j), start).push(ts[j])
        } else {
            spec_kept(ts.subrange(0, j), start)
        },
{
    reveal_with_fuel(Seq::filter, 2);
    assert(ts.subrange(0, j + 1).drop_last() =~= ts.subrange(0, j));
    assert(ts.subrange(0, j + 1).last() == ts[j]);
}

/// The audit category a request URI falls under, read off the API
/// prefix it mentions.
pub open spec fn spec_resource_type(uri: Seq<char>) -> Option<Seq<char>> {
    if spec_contains_seq(uri, "/api/ai/"@) {
        Some("ai_request"@)
    } else if spec_contains_seq(uri, "/api/proxy/"@) {
        Some("proxy_request"@)
    } else if spec_contains_seq(uri, "/api/files/"@) {
        Some("file_operation"@)
    } else if spec_contains_seq(uri, "/api/plugins/"@) {
        Some("plugin_operation"@)
    } else {
        None
    }
}

/// Sorts a request URI into the resource type an audit record names,
/// by the API prefix it mentions; URIs outside the known surfaces have
/// none.
pub fn extract_resource_type(uri: &str) -> (r: Option<String>)
    ensures
        match r {
            Some(t) => spec_resource_type(uri@) matches Some(v) && t@ == v,
            None => spec_resource_type(uri@) is None,
        },
{
    if str_contains(uri, "/api/ai/") {
        Some("ai_request".to_owned())
    } else if str_contains(uri, "/api/proxy/") {
        Some("proxy_request".to_owned())
    } else if str_contains(uri, "/api/files/") {
        Some("file_operation".to_owned())
    } else if str_contains(uri, "/api/plugins/") {
        Some("plugin_operation".to_owned())
    } else {
        None
    }
}

/// Index of the first `'/'` in `s`, or `s.len()` when there is none.
pub open spec fn spec_first_slash(s: Seq<char>) -> int
    decreases s.len(),
{
    if s.len() == 0 {
        0
    } else if s[0] == '/' {
        0
    } else {
        1 + spec_first_slash(s.skip(1))
    }
}

/// What `spec_first_slash` points at: an in-range position, a `'/'`
/// unless the string has none, and nothing slash-like before it.
pub proof fn lemma_first_slash(s: Seq<char>)
    ensures
        0 <= spec_first_slash(s) <= s.len(),
        spec_first_slash(s) < s.len() ==> s[spec_first_slash(s)] == '/',
        forall|j: int| 0 <= j < spec_first_slash(s) ==> s[j] != '/',
    decreases s.len(),
{
    if s.len() > 0 && s[0] != '/' {
        lemma_first_slash(s.skip(1));
        assert forall|j: int| 0 <= j < spec_first_slash(s) implies s[j] != '/' by {
            if j > 0 {
                assert(s.skip(1)[j - 1] == s[j]);
            }
        }
    }
}

/// A URI segment that reads like a canonical id: exactly 36 characters
/// with at least one hyphen.
pub open spec fn spec_uuid_like(seg: Seq<char>) -> bool {
    seg.len() == 36 && exists|i: int| 0 <= i < seg.len() && seg[i] == '-'
}

/// The first `'/'`-separated segment of `s` that reads like a
/// canonical id.
pub open spec fn spec_resource_id(s: Seq<char>) -> Option<Seq<char>>
    decreases s.len(),
    via spec_resource_id_decreases
{
    let i = spec_first_slash(s);
    let seg = s.subrange(0, i);
    if spec_uuid_like(seg) {
        Some(seg)
    } else if i == s.len() {
        None
    } else {
        spec_resource_id(s.skip(i + 1))
    }
}

#[via_fn]
proof fn spec_resource_id_decreases(s: Seq<char>) {
    lemma_first_slash(s);
}

/// Index of the first `'/'` of `uri`, or its length when it has none.
fn first_slash(uri: &str) -> (r: usize)
    ensures
        r as int == spec_first_slash(uri@),
{
    proof {
        lemma_first_slash(uri@);
    }
    let n = uri.unicode_len();
    let mut i: usize = 0;
    while i < n
        invariant
            n == uri@.len(),
            i <= n,
            forall|j: int| 0 <= j < i ==> uri@[j] != '/',
        decreases n - i,
    {
        if uri.get_char(i) == '/' {
            proof {
                lemma_first_slash(uri@);
                let fs = spec_first_slash(uri@);
                if fs < i {
                    assert(uri@[fs] != '/');
                }
                if fs > i {
                    assert(uri@[i as int] != '/');
                }
            }
            return i;
        }
        i = i + 1;
    }
    proof {
        lemma_first_slash(uri@);
        let fs = spec_first_slash(uri@);
        if fs < n {
            assert(uri@[fs] != '/');
        }
    }
    n
}

/// Whether a segment reads like a canonical id.
fn uuid_like(seg: &str) -> (r: bool)
    ensures
        r == spec_uuid_like(seg@),
{
    let n = seg.unicode_len();
    if n != 36 {
        return false;
    }
    let mut i: usize = 0;
    while i < n
        invariant
            n == seg@.len(),
            n == 36,
            i <= n,
            forall|j: int| 0 <= j < i ==> seg@[j] != '-',
        decreases n - i,
    {
        if seg.get_char(i) == '-' {
            proof {
                assert(seg@[i as int] == '-');
            }
            return true;
        }
        i = i + 1;
    }
    false
}

/// Picks the resource id out of a request URI for its audit record: the
/// first path segment shaped like a canonical id, if any.
pub fn extract_resource_id(uri: &str) -> (r: Option<String>)
    ensures
        match r {
            Some(id) => spec_resource_id(uri@) matches Some(v) && id@ == v,
            None => spec_resource_id(uri@) is None,
        },
    decreases uri@.len(),
{
    proof {
        lemma_first_slash(uri@);
    }
    let n = uri.unicode_len();
    let i = first_slash(uri);
    let seg = uri.substring_char(0, i);
    if uuid_like(seg) {
        return Some(seg.to_owned());
    }
    if i == n {
        return None;
    }
    let rest = uri.substring_char(i + 1, n);
    proof {
        assert(rest@ =~= uri@.skip(i as int + 1));
    }
    extract_resource_id(rest)
}

/// One client's request history inside the rate limiter.
#[derive(Debug)]
pub struct RateBucket {
    pub key: String,
    pub timestamps: Vec<i64>,
}

/// Index of the first bucket under this key, if any.
pub open spec fn spec_bucket_index(s: Seq<RateBucket>, key: Seq<char>) -> Option<int>
    decreases s.len(),
{
    if s.len() == 0 {
        None
    } else if s[0].key@ == key {
        Some(0)
    } else {
        match spec_bucket_index(s.skip(1), key) {
            Some(i) => Some(i + 1),
            None => None,
        }
    }
}

/// A sliding-window rate limiter: at most `max_requests` admitted per
/// key within the last `window_seconds`.
#[derive(Debug)]
pub struct RateLimiter {
    requests: Vec<RateBucket>,
    max_requests: usize,
    window_seconds: i64,
}

impl RateLimiter {
    /// The per-key request history.
    pub closed spec fn view(self) -> Seq<RateBucket> {
        self.requests@
    }

    /// The per-window admission bound.
    pub closed spec fn spec_max_requests(self) -> usize {
        self.max_requests
    }

    /// The window length in seconds.
    pub closed spec fn spec_window_seconds(self) -> i64 {
        self.window_seconds
    }

    /// The timestamps remembered for a key.
    pub open spec fn spec_timestamps(self, key: Seq<char>) -> Seq<i64> {
        match spec_bucket_index(self@, key) {
            Some(i) => self@[i].timestamps@,
            None => Seq::<i64>::empty(),
        }
    }

    /// An empty limiter admitting `max_requests` per key per
    /// `window_seconds`.
    pub fn new(max_requests: usize, window_seconds: i64) -> (r: RateLimiter)
        ensures
            r@ == Seq::<RateBucket>::empty(),
            r.spec_max_requests() == max_requests,
            r.spec_window_seconds() == window_seconds,
    {
        RateLimiter { requests: Vec::new(), max_requests, window_seconds }
    }

    /// Decides one request from `key` arriving at `now` (unix seconds):
    /// of the timestamps remembered for the key, those at or before the
    /// window's start are dropped; the request is admitted exactly when
    /// fewer than `max_requests` remain, and an admitted request's time
    /// is remembered.
    pub fn is_allowed_at(&mut self, key: &str, now: i64) -> (r: bool)
        ensures
            final(self).spec_max_requests() == old(self).spec_max_requests(),
            final(self).spec_window_seconds() == old(self).spec_window_seconds(),
            ({
                let start = spec_window_start(now, old(self).spec_window_seconds());
                let kept = spec_kept(old(self).spec_timestamps(key@), start);
                &&& r == (kept.len() < old(self).spec_max_requests())
                &&& final(self).spec_timestamps(key@) == if r {
                    kept.push(now)
                } else {
                    kept
                }
            }),
    {
        let window_start = match now.checked_sub(self.window_seconds) {
            Some(ws) => ws,
            None => if self.window_seconds >= 0 {
                i64::MIN
            } else {
                i64::MAX
            },
        };
        let idx = self.find_bucket(key);
        match idx {
            Some(i) => {
                let ghost pre = self.requests@;
                let bucket = &self.requests[i];
                let mut kept: Vec<i64> = Vec::new();
                let n = bucket.timestamps.len();
                let mut j: usize = 0;
                proof {
                    assert(spec_kept(bucket.timestamps@.subrange(0, 0), window_start)
                        =~= Seq::<i64>::empty());
                }
                while j < n
                    invariant
                        n == self.requests@[i as int].timestamps@.len(),
                        i < self.requests@.len(),
                        j <= n,
                        kept@ == spec_kept(
                            self.requests@[i as int].timestamps@.subrange(0, j as int),
                            window_start,
                        ),
                        window_start == spec_window_start(now, old(self).spec_window_seconds()),
                        *self == *old(self),
                    decreases n - j,
                {
                    let ghost ts = self.requests@[i as int].timestamps@;
                    proof {
                        lemma_kept_step(ts, window_start, j as int);
                    }
                    let t = self.requests[i].timestamps[j];
                    if t > window_start {
                        kept.push(t);
                    }
                    j = j + 1;
                }
                proof {
                    let ts = self.requests@[i as int].timestamps@;
                    assert(ts.subrange(0, n as int) =~= ts);
                }
                let allowed = kept.len() < self.max_requests;
                if allowed {
                    kept.push(now);
                }
                let key_copy = self.requests[i].key.clone();
                self.requests.set(i, RateBucket { key: key_copy, timestamps: kept });
                proof {
                    lemma_bucket_index_update(pre, i as int, self.requests@[i as int], key@);
                }
                allowed
            },
            None => {
                let allowed = 0 < self.max_requests;
                let ghost pre = self.requests@;
                if allowed {
                    let mut timestamps: Vec<i64> = Vec::new();
                    timestamps.push(now);
                    self.requests.push(RateBucket { key: key.to_owned(), timestamps });
                    proof {
                        lemma_bucket_index_push(pre, self.requests@.last(), key@);
                        lemma_bucket_index_none(pre, key@);
                        assert(spec_kept(
                            Seq::<i64>::empty(),
                            spec_window_start(now, old(self).spec_window_seconds()),
                        ) =~= Seq::<i64>::empty());
                        assert(self.requests@.last().timestamps@ =~= Seq::<i64>::empty().push(
                            now,
                        ));
                    }
                } else {
                    proof {
                        assert(spec_kept(
                            Seq::<i64>::empty(),
                            spec_window_start(now, old(self).spec_window_seconds()),
                        ) =~= Seq::<i64>::empty());
                    }
                }
                allowed
            },
        }
    }

    /// Decides one request from `key` arriving now, reading the wall
    /// clock: whatever time the clock reports, the decision is that of
    /// `is_allowed_at` at that time.
    pub fn is_allowed(&mut self, key: &str) -> (r: bool)
        ensures
            final(self).spec_max_requests() == old(self).spec_max_requests(),
            final(self).spec_window_seconds() == old(self).spec_window_seconds(),
            exists|now: i64| #[trigger] spec_allow_decision(*old(self), *final(self), key@, now, r),
    {
        let now_ms = now_millis();
        let now = now_ms / 1000;
        let r = self.is_allowed_at(key, now);
        proof {
            assert(spec_allow_decision(*old(self), *self, key@, now, r));
        }
        r
    }

    /// Index of the bucket for this key.
    fn find_bucket(&self, key: &str) -> (r: Option<usize>)
        ensures
            match r {
                Some(i) => spec_bucket_index(self@, key@) == Some(i as int) && i < self@.len()
                    && self@[i as int].key@ == key@,
                None => spec_bucket_index(self@, key@) is None,
            },
    {
        let n = self.requests.len();
        let mut i: usize = 0;
        proof {
            assert(self@.skip(0) =~= self@);
        }
        while i < n
            invariant
                n == self@.len(),
                i <= n,
                spec_bucket_index(self@, key@) == match spec_bucket_index(
                    self@.skip(i as int),
                    key@,
                ) {
                    Some(k) => Some(k + i),
                    None => None::<int>,
                },
            decreases n - i,
        {
            proof {
                assert(self@.skip(i as int)[0] == self@[i as int]);
                assert(self@.skip(i as int).skip(1) =~= self@.skip(i as int + 1));
            }
            if str_eq(self.requests[i].key.as_str(), key) {
                return Some(i);
            }
            i = i + 1;
        }
        proof {
            assert(self@.skip(n as int) =~= Seq::<RateBucket>::empty());
        }
        None
    }
}

/// A key no bucket carries maps to the empty history.
proof fn lemma_bucket_index_none(s: Seq<RateBucket>, key: Seq<char>)
    requires
        spec_bucket_index(s, key) is None,
    ensures
        forall|i: int| 0 <= i < s.len() ==> (#[trigger] s[i]).key@ != key,
    decreases s.len(),
{
    if s.len() > 0 {
        lemma_bucket_index_none(s.skip(1), key);
        assert forall|i: int| 0 <= i < s.len() implies (#[trigger] s[i]).key@ != key by {
            if i > 0 {
                assert(s.skip(1)[i - 1] == s[i]);
            }
        }
    }
}

/// Appending a bucket changes no existing lookup, and a key found
/// nowhere before is found at the end if the new bucket carries it.
proof fn lemma_bucket_index_push(s: Seq<RateBucket>, x: RateBucket, key: Seq<char>)
    ensures
        spec_bucket_index(s.push(x), key) == match spec_bucket_index(s, key) {
            Some(i) => Some(i),
            None => if x.key@ == key {
                Some(s.len() as int)
            } else {
                None
            },
        },
    decreases s.len(),
{
    if s.len() == 0 {
        assert(s.push(x)[0] == x);
        assert(s.push(x).skip(1) =~= Seq::<RateBucket>::empty());
        assert(spec_bucket_index(Seq::<RateBucket>::empty(), key) is None);
    } else {
        assert(s.push(x)[0] == s[0]);
        assert(s.push(x).skip(1) =~= s.skip(1).push(x));
        lemma_bucket_index_push(s.skip(1), x, key);
    }
}

/// Replacing a bucket with one under the same key changes no lookup.
proof fn lemma_bucket_index_update(s: Seq<RateBucket>, i: int, x: RateBucket, key: Seq<char>)
    requires
        0 <= i < s.len(),
        x.key@ == s[i].key@,
    ensures
        spec_bucket_index(s.update(i, x), key) == spec_bucket_index(s, key),
    decreases s.len(),
{
    if i == 0 {
        assert(s.update(i, x)[0] == x);
        if s[0].key@ != key {
            assert(s.update(i, x).skip(1) =~= s.skip(1));
        }
    } else {
        assert(s.update(i, x)[0] == s[0]);
        if s[0].key@ != key {
            assert(s.update(i, x).skip(1) =~= s.skip(1).update(i - 1, x));
            lemma_bucket_index_update(s.skip(1), i - 1, x, key);
        }
    }
}

/// The decision `is_allowed_at` makes at time `now`, stated as a
/// relation between the limiter before and after: the key's stale
/// timestamps are dropped, the request is admitted exactly when fewer
/// than the bound remain, and an admitted request's time is remembered.
pub open spec fn spec_allow_decision(
    pre: RateLimiter,
    post: RateLimiter,
    key: Seq<char>,
    now: i64,
    r: bool,
) -> bool {
    let start = spec_window_start(now, pre.spec_window_seconds());
    let kept = spec_kept(pre.spec_timestamps(key), start);
    &&& r == (kept.len() < pre.spec_max_requests())
    &&& post.spec_timestamps(key) == if r {
        kept.push(now)
    } else {
        kept
    }
}

/// Where a rate window beginning at `now` and reaching back `w` seconds
/// starts, clamped to the representable range.
pub open spec fn spec_window_start(now: i64, w: i64) -> i64 {
    if now - w < i64::MIN {
        i64::MIN
    } else if now - w > i64::MAX {
        i64::MAX
    } else {
        (now - w) as i64
    }
}

} // verus!
