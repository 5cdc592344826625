//! The answers of the cache server: which feed a request names, whether a
//! client's copy is still current, what a websocket session sends, and the
//! list of stored feeds.
use vstd::prelude::*;
use vstd::string::StringExecFns;
use rand::Rng;
use qstring::QString;
use crate::insert::{is_store_plan, StorePlan};
use crate::keys::{data_key_of, exists_prefix, feed_of_exists, feed_of_exists_key, lemma_exists_key_roundtrip, time_key_of};
use crate::text::{chars_of, lemma_parse_decimal, occurs_at, parse_u64, parsed_u64, same_text, sort_texts, texts_of, texts_sorted};

verus! {

broadcast use vstd::string::group_string_axioms;

// ---------------------------------------------------------------------------
// Trusted calls.

/// What the query string `query` gives for the parameter `name`: the value of
/// its first pair with that name (percent-decoded, empty when the pair has no
/// value), `None` when no pair has that name.
pub uninterp spec fn query_value(query: Seq<char>, name: Seq<char>) -> Option<Seq<char>>;

/// The reader of query strings looks at the first character of what is left
/// to read at index `i`: at the start, after a leading `?`, after each `&`,
/// and after an `=` that opens a pair without a name.
pub open spec fn slice_point(q: Seq<char>, i: int) -> bool
    decreases i,
{
    if i <= 0 {
        i == 0
    } else {
        (i == 1 && q[0] == '?') || q[i - 1] == '&' || (q[i - 1] == '=' && slice_point(q, i - 1))
    }
}

/// The query string can be read without failing: the characters at which the
/// reader slices it off one byte are ASCII.
pub open spec fn query_readable(q: Seq<char>) -> bool {
    forall|i: int| 0 <= i < q.len() && #[trigger] slice_point(q, i) ==> (q[i] as u32) < 128
}

/// Whether the query string can be read without failing.
pub fn query_is_readable(query: &str) -> (r: bool)
    ensures
        r == query_readable(query@),
{
    let q = chars_of(query);
    let mut i: usize = 0;
    let mut prev: bool = false;
    while i < q.len()
        invariant
            q@ == query@,
            i <= q@.len(),
            i > 0 ==> prev == slice_point(q@, i - 1),
            forall|j: int| 0 <= j < i && #[trigger] slice_point(q@, j) ==> (q@[j] as u32) < 128,
        decreases q.len() - i,
    {
        let here = i == 0 || (i == 1 && q[0] == '?') || q[i - 1] == '&' || (q[i - 1] == '=' && prev);
        assert(here == slice_point(q@, i as int));
        if here && (q[i] as u32) >= 128 {
            return false;
        }
        prev = here;
        i = i + 1;
    }
    true
}

/// The value of a query parameter.
///
/// Trusted: `QString::from` and `QString::get` of `qstring`. The result is a
/// function of the query and the name, named `query_value`. The reader cuts
/// one byte off what is left to read at each `slice_point`, and fails
/// where that byte begins a wider character, so the query must be readable.
#[verifier::external_body]
fn query_get(query: &str, name: &str) -> (r: Option<String>)
    requires
        query_readable(query@),
    ensures
        r matches Some(v) ==> query_value(query@, name@) == Some(v@),
        r is None ==> query_value(query@, name@) is None,
{
    match QString::from(query).get(name) {
        Some(v) => Some(v.to_string()),
        None => None,
    }
}

/// The 64-bit MetroHash of some bytes.
pub uninterp spec fn metro_hash64(data: Seq<u8>) -> u64;

/// The 64-bit MetroHash of the bytes.
///
/// Trusted: `fasthash::metro::hash64`, unseeded, a function of the bytes
/// named `metro_hash64` (which of the two MetroHash variants is used is
/// fixed when the crate is compiled).
#[verifier::external_body]
fn metro_hash(data: &[u8]) -> (r: u64)
    ensures
        r == metro_hash64(data@),
{
    fasthash::metro::hash64(data)
}

/// A random 64-bit number.
///
/// Trusted: `Rng::gen::<u64>` of `rand` with the thread-local generator.
/// Nothing is stated of the number.
#[verifier::external_body]
fn random_u64() -> (r: u64) {
    rand::thread_rng().gen::<u64>()
}

// ---------------------------------------------------------------------------
// Answers.

/// What the server answers, besides the stored feed bytes.
pub enum Reply {
    /// A text answer with its status; `plain` marks a `text/plain` body.
    Text { status: u16, plain: bool, body: String },
    /// 204: the client's copy is current.
    NoContent,
    /// 200 with the stored feed as `application/x-google-protobuf`, and the
    /// content hash in a `hash` header when there is one.
    Feed { hash: Option<u64> },
}

/// The reply is the given text answer.
pub open spec fn is_text(r: Reply, status: u16, plain: bool, body: Seq<char>) -> bool {
    r matches Reply::Text { status: s, plain: p, body: b } && s == status && p == plain && b@ == body
}

/// What the cache holds as the storing time of a feed's category.
pub enum StoredTime {
    /// The time, in milliseconds since the epoch.
    Found(u64),
    /// The cache has no time for this feed and category.
    Missing,
    /// The cache could not be read.
    Unreachable,
}

/// The feed and category that a request names.
pub struct Target {
    pub feed: String,
    pub category: String,
}

/// A request must name a feed and a category; otherwise it is answered 404.
pub open spec fn target_of(q: Seq<char>, r: Result<Target, Reply>) -> bool {
    match query_value(q, "feed"@) {
        None => r matches Err(e) && is_text(e, 404, true, "Error: No feed specified\n"@),
        Some(f) => match query_value(q, "category"@) {
            None => r matches Err(e) && is_text(e, 404, true, "Error: No category specified\n"@),
            Some(c) => r matches Ok(t) && t.feed@ == f && t.category@ == c,
        },
    }
}

/// The feed and category that a request names.
pub fn request_target(query: &str) -> (r: Result<Target, Reply>)
    requires
        query_readable(query@),
    ensures
        target_of(query@, r),
{
    let feed = match query_get(query, "feed") {
        Some(f) => f,
        None => {
            return Err(
                Reply::Text { status: 404, plain: true, body: String::from_str("Error: No feed specified\n") },
            )
        },
    };
    let category = match query_get(query, "category") {
        Some(c) => c,
        None => {
            return Err(
                Reply::Text {
                    status: 404,
                    plain: true,
                    body: String::from_str("Error: No category specified\n"),
                },
            )
        },
    };
    Ok(Target { feed, category })
}

/// A feed whose category the cache does not hold is answered 404; a cache
/// that cannot be read, 500.
pub open spec fn stored_time_reply(stored: StoredTime, r: Option<Reply>) -> bool {
    match stored {
        StoredTime::Found(_) => r is None,
        StoredTime::Missing => r matches Some(e) && is_text(e, 404, true, "Error in connecting to redis\n"@),
        StoredTime::Unreachable => r matches Some(e) && is_text(e, 500, true, "Error in connecting to redis\n"@),
    }
}

/// The answer for a feed's category whose storing time could not be had.
pub fn check_stored_time(stored: &StoredTime) -> (r: Option<Reply>)
    ensures
        stored_time_reply(*stored, r),
{
    match stored {
        StoredTime::Found(_) => None,
        StoredTime::Missing => Some(
            Reply::Text { status: 404, plain: true, body: String::from_str("Error in connecting to redis\n") },
        ),
        StoredTime::Unreachable => Some(
            Reply::Text { status: 500, plain: true, body: String::from_str("Error in connecting to redis\n") },
        ),
    }
}

/// The query parameter holds exactly `v`.
pub open spec fn param_is(q: Seq<char>, name: Seq<char>, v: Seq<char>) -> bool {
    query_value(q, name) == Some(v)
}

/// How a request for a stored feed is settled, once the raw-download switch
/// is off: the client's copy is current, the stored feed cannot be decoded,
/// or the feed is sent.
pub enum Verdict {
    Current,
    Undecodable,
    Send,
}

/// How a request is settled, given the storing time `t`, the reading of the
/// stored feed (`None` when it does not decode, else its header time stamp)
/// and its content hash.
///
/// A client that sends `timeofcache` (a number) has a current copy when that
/// time is not before the storing time, or, for a decodable feed, not
/// before the feed's header time stamp; when the feed does not decode, the
/// request fails unless `skipfailure=true`. A client that also sends
/// `bodyhash` has a current copy when, for a decodable feed, that number is
/// the content hash.
pub open spec fn verdict_of(q: Seq<char>, t: u64, reading: Option<Option<u64>>, hash: u64) -> Verdict {
    match query_value(q, "timeofcache"@) {
        None => Verdict::Send,
        Some(tc) => {
            let time_verdict = match parsed_u64(tc) {
                None => None,
                Some(c) => if c >= t {
                    Some(Verdict::Current)
                } else {
                    match reading {
                        Some(Some(ts)) => if c >= ts { Some(Verdict::Current) } else { None },
                        Some(None) => None,
                        None => if param_is(q, "skipfailure"@, "true"@) { None } else { Some(Verdict::Undecodable) },
                    }
                },
            };
            match time_verdict {
                Some(v) => v,
                None => match query_value(q, "bodyhash"@) {
                    Some(b) => if reading is Some && parsed_u64(b) == Some(hash) { Verdict::Current } else { Verdict::Send },
                    None => Verdict::Send,
                },
            }
        },
    }
}

/// The answer to a request for a stored feed whose storing time is known:
/// with `suicidebutton=true` the raw feed; otherwise by the verdict, 204 for a
/// current copy, 500 for an undecodable feed, or the feed with its hash.
pub open spec fn feed_reply(q: Seq<char>, t: u64, reading: Option<Option<u64>>, hash: u64, r: Reply) -> bool {
    if param_is(q, "suicidebutton"@, "true"@) {
        r == Reply::Feed { hash: None }
    } else {
        match verdict_of(q, t, reading, hash) {
            Verdict::Current => r == Reply::NoContent,
            Verdict::Undecodable => is_text(r, 500, false, "protobuf failed to parse"@),
            Verdict::Send => r == Reply::Feed { hash: Some(hash) },
        }
    }
}

/// Whether the query parameter holds exactly `v`.
fn param_equals(query: &str, name: &str, v: &str) -> (r: bool)
    requires
        query_readable(query@),
    ensures
        r == param_is(query@, name@, v@),
{
    match query_get(query, name) {
        Some(x) => same_text(x.as_str(), v),
        None => false,
    }
}

/// How a request for a stored feed is settled.
pub fn decide_verdict(query: &str, t: u64, reading: Option<Option<u64>>, hash: u64) -> (r: Verdict)
    requires
        query_readable(query@),
    ensures
        r == verdict_of(query@, t, reading, hash),
{
    let tc = match query_get(query, "timeofcache") {
        Some(tc) => tc,
        None => return Verdict::Send,
    };
    match parse_u64(tc.as_str()) {
        Some(c) => {
            if c >= t {
                return Verdict::Current;
            }
            match reading {
                Some(Some(ts)) => {
                    if c >= ts {
                        return Verdict::Current;
                    }
                },
                Some(None) => {},
                None => {
                    if !param_equals(query, "skipfailure", "true") {
                        return Verdict::Undecodable;
                    }
                },
            }
        },
        None => {},
    }
    match query_get(query, "bodyhash") {
        Some(b) => {
            if reading.is_some() {
                match parse_u64(b.as_str()) {
                    Some(h) => if h == hash { Verdict::Current } else { Verdict::Send },
                    None => Verdict::Send,
                }
            } else {
                Verdict::Send
            }
        },
        None => Verdict::Send,
    }
}

/// The answer to a request for a stored feed whose storing time is known.
pub fn decide_feed_reply(query: &str, t: u64, reading: Option<Option<u64>>, hash: u64) -> (r: Reply)
    requires
        query_readable(query@),
    ensures
        feed_reply(query@, t, reading, hash, r),
{
    if param_equals(query, "suicidebutton", "true") {
        return Reply::Feed { hash: None };
    }
    match decide_verdict(query, t, reading, hash) {
        Verdict::Current => Reply::NoContent,
        Verdict::Undecodable => Reply::Text {
            status: 500,
            plain: false,
            body: String::from_str("protobuf failed to parse"),
        },
        Verdict::Send => Reply::Feed { hash: Some(hash) },
    }
}

/// The content hash sent with a feed: the MetroHash of the stored bytes when
/// they decode, a random number otherwise.
pub fn feed_hash(data: &[u8], decodes: bool) -> (r: u64)
    ensures
        decodes ==> r == metro_hash64(data@),
{
    if decodes {
        metro_hash(data)
    } else {
        random_u64()
    }
}

/// The answer to a request for a feed, given what the cache holds for the
/// feed and category it names: a request that names no feed or no category
/// is answered 404; a category whose storing time could not be had, as
/// `stored_time_reply` says; otherwise as `feed_reply` says, with the
/// MetroHash of the stored bytes as content hash when they decode.
pub open spec fn gtfsrt_answer(
    q: Seq<char>,
    stored: StoredTime,
    data: Seq<u8>,
    reading: Option<Option<u64>>,
    r: Reply,
) -> bool {
    match query_value(q, "feed"@) {
        None => is_text(r, 404, true, "Error: No feed specified\n"@),
        Some(_) => match query_value(q, "category"@) {
            None => is_text(r, 404, true, "Error: No category specified\n"@),
            Some(_) => match stored {
                StoredTime::Found(t) => exists|h: u64|
                    (reading is Some ==> h == metro_hash64(data)) && feed_reply(q, t, reading, h, r),
                _ => stored_time_reply(stored, Some(r)),
            },
        },
    }
}

/// The answer to a request for a feed, given what the cache holds for the
/// feed and category it names (see `request_target`): the storing time, the
/// stored bytes and their reading (`None` when they do not decode, else the
/// header time stamp). When the request names no feed or category, what is
/// passed for the cache is not looked at.
pub fn gtfsrt(query: &str, stored: &StoredTime, data: &[u8], reading: Option<Option<u64>>) -> (r: Reply)
    requires
        query_readable(query@),
    ensures
        gtfsrt_answer(query@, *stored, data@, reading, r),
{
    match request_target(query) {
        Err(e) => e,
        Ok(_) => match check_stored_time(stored) {
            Some(e) => e,
            None => {
                let t = match stored {
                    StoredTime::Found(t) => *t,
                    _ => 0,
                };
                if param_equals(query, "suicidebutton", "true") {
                    let r = Reply::Feed { hash: None };
                    assert(feed_reply(query@, t, reading, metro_hash64(data@), r));
                    return r;
                }
                let h: u64 = feed_hash(data, reading.is_some());
                decide_feed_reply(query, t, reading, h)
            },
        },
    }
}

/// The request's target is the feed and category whose keys the plan wrote.
pub open spec fn targets_plan(target: Result<Target, Reply>, p: StorePlan) -> bool {
    target matches Ok(tg) && data_key_of(tg.feed@, tg.category@) == p.data_key@ && time_key_of(
        tg.feed@,
        tg.category@,
    ) == p.time_key@
}

/// The reply sends the stored bytes: raw with `suicidebutton=true`, else with
/// a content hash that is their MetroHash when they decode.
pub open spec fn sends_stored_feed(q: Seq<char>, data: Seq<u8>, reading: Option<Option<u64>>, r: Reply) -> bool {
    if param_is(q, "suicidebutton"@, "true"@) {
        r == Reply::Feed { hash: None }
    } else {
        r matches Reply::Feed { hash: Some(h) } && (reading is Some ==> h == metro_hash64(data))
    }
}

/// What the ingest stores is what the cache serves: a request that names the
/// stored feed and category reads the keys that the store wrote, finds the
/// storing time, and, when it sends no `timeofcache`, gets the stored bytes
/// back.
pub proof fn lemma_store_then_serve(
    p: StorePlan,
    feed: Seq<char>,
    category: Seq<char>,
    now_ms: u64,
    q: Seq<char>,
    target: Result<Target, Reply>,
    t: u64,
    data: Seq<u8>,
    reading: Option<Option<u64>>,
    r: Reply,
)
    requires
        is_store_plan(p, feed, category, now_ms as nat),
        query_value(q, "feed"@) == Some(feed),
        query_value(q, "category"@) == Some(category),
        !(query_value(q, "timeofcache"@) is Some),
        target_of(q, target),
        parsed_u64(p.stored_at@) == Some(t),
        gtfsrt_answer(q, StoredTime::Found(t), data, reading, r),
    ensures
        targets_plan(target, p),
        t == now_ms,
        sends_stored_feed(q, data, reading, r),
{
    lemma_parse_decimal(now_ms);
}

/// A client whose cached copy is at least as recent as the stored feed gets
/// 204 and no body, whatever else it sends, unless it asks for the raw feed.
pub proof fn lemma_current_copy_not_resent(
    q: Seq<char>,
    t: u64,
    reading: Option<Option<u64>>,
    hash: u64,
    c: u64,
    r: Reply,
)
    requires
        query_value(q, "timeofcache"@) matches Some(tc) && parsed_u64(tc) == Some(c),
        c >= t,
        !param_is(q, "suicidebutton"@, "true"@),
        feed_reply(q, t, reading, hash, r),
    ensures
        r == Reply::NoContent,
{
}

/// A decodable feed is re-sent only when the client's copy is older than both
/// the storing time and the feed's header time stamp, and the client's hash
/// (if any) differs from the content hash.
pub proof fn lemma_resend_only_when_stale(
    q: Seq<char>,
    t: u64,
    ts: Option<u64>,
    hash: u64,
    r: Reply,
)
    requires
        !param_is(q, "suicidebutton"@, "true"@),
        feed_reply(q, t, Some(ts), hash, r),
        r is Feed,
    ensures
        query_value(q, "timeofcache"@) matches Some(tc) ==> (parsed_u64(tc) matches Some(c) ==> c < t
            && (ts matches Some(s) ==> c < s)),
        query_value(q, "timeofcache"@) matches Some(tc) ==> (query_value(q, "bodyhash"@) matches Some(b)
            ==> parsed_u64(b) != Some(hash)),
{
}

/// The client's hash settles only a stale copy of a decodable feed, and only
/// when it is the content hash: a client whose `timeofcache` is older than
/// both the storing time and the header time stamp gets the feed with its
/// hash when the number it sends as `bodyhash` differs from the content hash,
/// and 204 when it is the content hash.
pub proof fn lemma_stale_copy_settled_by_hash(
    q: Seq<char>,
    t: u64,
    ts: Option<u64>,
    hash: u64,
    c: u64,
    h: u64,
    r: Reply,
)
    requires
        query_value(q, "timeofcache"@) matches Some(tc) && parsed_u64(tc) == Some(c),
        c < t,
        ts matches Some(s) ==> c < s,
        query_value(q, "bodyhash"@) matches Some(b) && parsed_u64(b) == Some(h),
        !param_is(q, "suicidebutton"@, "true"@),
        feed_reply(q, t, Some(ts), hash, r),
    ensures
        h != hash ==> r == (Reply::Feed { hash: Some(hash) }),
        h == hash ==> r == Reply::NoContent,
{
}

/// A client whose `timeofcache` is older than the storing time: its copy is
/// current when the feed decodes with a header time stamp it is not older
/// than; when the feed does not decode, the request fails with 500 unless it
/// sends `skipfailure=true`, in which case it gets the feed with its hash.
pub proof fn lemma_cache_time_before_storing(
    q: Seq<char>,
    t: u64,
    reading: Option<Option<u64>>,
    hash: u64,
    c: u64,
    r: Reply,
)
    requires
        query_value(q, "timeofcache"@) matches Some(tc) && parsed_u64(tc) == Some(c),
        c < t,
        !param_is(q, "suicidebutton"@, "true"@),
        feed_reply(q, t, reading, hash, r),
    ensures
        reading matches Some(Some(s)) && c >= s ==> r == Reply::NoContent,
        reading is None && !param_is(q, "skipfailure"@, "true"@) ==> is_text(r, 500, false, "protobuf failed to parse"@),
        reading is None && param_is(q, "skipfailure"@, "true"@) ==> r == (Reply::Feed { hash: Some(hash) }),
{
}

/// A client that sends no usable `timeofcache` and whose copy is therefore
/// not known to be current gets the feed with its content hash, whatever
/// `bodyhash` it sends.
pub proof fn lemma_no_cache_time_gets_feed(q: Seq<char>, t: u64, reading: Option<Option<u64>>, hash: u64, r: Reply)
    requires
        !(query_value(q, "timeofcache"@) is Some),
        !param_is(q, "suicidebutton"@, "true"@),
        feed_reply(q, t, reading, hash, r),
    ensures
        r == (Reply::Feed { hash: Some(hash) }),
{
}

/// Whether the as-JSON view is asked for: unless `raw=true`.
pub open spec fn wants_json(q: Seq<char>) -> bool {
    !param_is(q, "raw"@, "true"@)
}

/// Whether a request for the decoded feed asks for JSON (otherwise the
/// debugging text).
pub fn json_requested(query: &str) -> (r: bool)
    requires
        query_readable(query@),
    ensures
        r == wants_json(query@),
{
    !param_equals(query, "raw", "true")
}

// ---------------------------------------------------------------------------
// Websocket sessions.

/// A websocket session streaming one feed's category.
pub struct GtfsWs {
    pub feed: String,
    pub category: String,
    /// The client asked for the raw feed.
    pub suicidebutton: bool,
}

/// The session a websocket request opens: the request must name a feed and a
/// category, and asks for the raw feed when it has any `suicidebutton`.
pub fn open_session(query: &str) -> (r: Result<GtfsWs, Reply>)
    requires
        query_readable(query@),
    ensures
        r matches Ok(s) ==> (query_value(query@, "feed"@) == Some(s.feed@)
            && query_value(query@, "category"@) == Some(s.category@)
            && s.suicidebutton == (query_value(query@, "suicidebutton"@) is Some)),
        r matches Err(e) ==> target_of(query@, Err(e)),
        r is Ok <==> (query_value(query@, "feed"@) is Some && query_value(query@, "category"@) is Some),
{
    match request_target(query) {
        Ok(t) => {
            let suicidebutton = match query_get(query, "suicidebutton") {
                Some(_) => true,
                None => false,
            };
            Ok(GtfsWs { feed: t.feed, category: t.category, suicidebutton })
        },
        Err(e) => Err(e),
    }
}

/// What a websocket session does when it starts.
pub enum WsAction {
    /// Sends the stored feed as one binary message.
    SendFeed,
    /// Tells the client that the cache could not be read, then closes.
    ReportUnreachable,
    /// Tells the client the error of the failed read, then closes.
    ReportReadError,
}

impl GtfsWs {
    /// What the session does when it starts, given whether the storing time
    /// and the stored bytes could be read: the feed is sent only when both
    /// could.
    pub fn started(&self, stored_time_read: bool, data_read: bool) -> (r: WsAction)
        ensures
            !stored_time_read ==> r == WsAction::ReportUnreachable,
            stored_time_read && !data_read ==> r == WsAction::ReportReadError,
            stored_time_read && data_read ==> r == WsAction::SendFeed,
    {
        if !stored_time_read {
            WsAction::ReportUnreachable
        } else if !data_read {
            WsAction::ReportReadError
        } else {
            WsAction::SendFeed
        }
    }
}

// ---------------------------------------------------------------------------
// The list of stored feeds.

/// The storing times of one feed's categories.
pub struct FeedTimes {
    pub feed: String,
    pub vehicles: Option<u64>,
    pub trips: Option<u64>,
    pub alerts: Option<u64>,
}

/// `feeds` are the feeds named by the marker keys `keys`, in the order of
/// the sorted keys.
pub open spec fn listed_feeds(keys: Seq<Seq<char>>, feeds: Seq<Seq<char>>) -> bool {
    exists|sorted: Seq<Seq<char>>|
        sorted.to_multiset() == keys.to_multiset() && texts_sorted(sorted) && feeds.len() == sorted.len()
            && forall|i: int| 0 <= i < sorted.len() ==> #[trigger] feeds[i] == feed_of_exists_key(sorted[i])
}

/// The feeds named by the marker keys, in the order of the sorted keys.
pub fn feeds_from_exists_keys(keys: Vec<String>) -> (r: Vec<String>)
    ensures
        listed_feeds(texts_of(keys@), texts_of(r@)),
{
    let sorted = sort_texts(keys);
    let mut out: Vec<String> = Vec::new();
    let mut i: usize = 0;
    while i < sorted.len()
        invariant
            i <= sorted@.len(),
            out@.len() == i,
            forall|k: int| 0 <= k < i ==> #[trigger] out@[k]@ == feed_of_exists_key(sorted@[k]@),
        decreases sorted.len() - i,
    {
        out.push(feed_of_exists(sorted[i].as_str()));
        i = i + 1;
    }
    proof {
        let s = texts_of(sorted@);
        let f = texts_of(out@);
        assert forall|k: int| 0 <= k < s.len() implies #[trigger] f[k] == feed_of_exists_key(s[k]) by {
            assert(s[k] == sorted@[k]@);
            assert(f[k] == out@[k]@);
        }
    }
    out
}

/// The list of stored feeds names each stored feed once: when a feed was
/// stored, its marker key is among the keys listed (each key once), and no
/// other listed key names that feed, the feed appears exactly once in the
/// list, and the times endpoint reads its storing time under the key that
/// the store wrote, where it finds the time of the store.
pub proof fn lemma_store_then_times(
    p: StorePlan,
    feed: Seq<char>,
    category: Seq<char>,
    now_ms: u64,
    keys: Seq<Seq<char>>,
    feeds: Seq<Seq<char>>,
    t: u64,
)
    requires
        is_store_plan(p, feed, category, now_ms as nat),
        forall|i: int| !occurs_at(feed, exists_prefix(), i),
        keys.contains(p.exists_key@),
        keys.no_duplicates(),
        forall|k: Seq<char>| keys.contains(k) && feed_of_exists_key(k) == feed ==> k == p.exists_key@,
        listed_feeds(keys, feeds),
        parsed_u64(p.stored_at@) == Some(t),
    ensures
        exists|i: int| 0 <= i < feeds.len() && feeds[i] == feed,
        forall|i: int, j: int| 0 <= i < feeds.len() && 0 <= j < feeds.len() && feeds[i] == feed && feeds[j] == feed
            ==> i == j,
        time_key_of(feed, category) == p.time_key@,
        t == now_ms,
{
    broadcast use vstd::seq_lib::group_to_multiset_ensures;

    lemma_parse_decimal(now_ms);
    lemma_exists_key_roundtrip(feed);
    let sorted = choose|sorted: Seq<Seq<char>>|
        sorted.to_multiset() == keys.to_multiset() && texts_sorted(sorted) && feeds.len() == sorted.len()
            && forall|i: int| 0 <= i < sorted.len() ==> #[trigger] feeds[i] == feed_of_exists_key(sorted[i]);
    let e = p.exists_key@;
    keys.lemma_multiset_has_no_duplicates();
    sorted.lemma_multiset_has_no_duplicates_conv();
    assert(keys.to_multiset().count(e) > 0);
    assert(sorted.to_multiset().count(e) > 0);
    assert(sorted.contains(e));
    let i = choose|i: int| 0 <= i < sorted.len() && sorted[i] == e;
    assert(feeds[i] == feed);
    assert forall|a: int, b: int|
        0 <= a < feeds.len() && 0 <= b < feeds.len() && feeds[a] == feed && feeds[b] == feed implies a == b by {
        assert(feeds[a] == feed_of_exists_key(sorted[a]));
        assert(feeds[b] == feed_of_exists_key(sorted[b]));
        assert(sorted.contains(sorted[a]));
        assert(sorted.contains(sorted[b]));
        assert(sorted.to_multiset().count(sorted[a]) > 0);
        assert(sorted.to_multiset().count(sorted[b]) > 0);
        assert(keys.to_multiset().count(sorted[a]) > 0);
        assert(keys.to_multiset().count(sorted[b]) > 0);
        assert(keys.contains(sorted[a]));
        assert(keys.contains(sorted[b]));
    }
}

/// The storing times of a feed's categories.
pub fn feed_times(feed: String, vehicles: Option<u64>, trips: Option<u64>, alerts: Option<u64>) -> (r: FeedTimes)
    ensures
        r.feed@ == feed@,
        r.vehicles == vehicles,
        r.trips == trips,
        r.alerts == alerts,
{
    FeedTimes { feed, vehicles, trips, alerts }
}

} // verus!
