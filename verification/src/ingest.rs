//! The decisions of the ingest loop: whether a feed is due, which key a
//! fetch uses and how it is sent, and whether a fetched feed is stored.
use vstd::prelude::*;
use vstd::string::StringExecFns;
use rand::seq::SliceRandom;
use crate::config::{opt_texts, AgencyInfo, Reqquery};
use crate::text::{replace, replaced, same_text, texts_of};

verus! {

broadcast use vstd::string::group_string_axioms;

/// A category is due when it was never stored, or when at least the fetch
/// interval has passed since it was last stored.
pub open spec fn is_due(last_stored_ms: Option<u64>, now_ms: u64, interval_ms: u64) -> bool {
    match last_stored_ms {
        Some(t) => now_ms - t >= interval_ms,
        None => true,
    }
}

/// Whether a category is due for fetching, given when it was last stored
/// (`None` when the cache has no time for it).
pub fn should_fetch(last_stored_ms: Option<u64>, now_ms: u64, interval_ms: u64) -> (r: bool)
    requires
        last_stored_ms matches Some(t) ==> t <= now_ms,
    ensures
        r == is_due(last_stored_ms, now_ms, interval_ms),
{
    match last_stored_ms {
        Some(t) => !(now_ms - t < interval_ms),
        None => true,
    }
}

/// One of the keys, picked at random.
///
/// Trusted: `SliceRandom::choose` of `rand` with the thread-local generator,
/// which gives `None` for an empty list and otherwise one of its elements.
/// Which element comes back is left open.
#[verifier::external_body]
fn choose_key(keys: &Vec<String>) -> (r: Option<String>)
    ensures
        r is None <==> keys@.len() == 0,
        r matches Some(k) ==> exists|i: int| 0 <= i < keys@.len() && k@ == #[trigger] keys@[i]@,
{
    keys.as_slice().choose(&mut rand::thread_rng()).cloned()
}

/// How a fetch is sent: its URL, and the header that carries the key, if
/// any.
pub struct RequestPlan {
    pub url: String,
    /// Header name and value.
    pub header: Option<(String, String)>,
}

/// The key a fetch may use: one of its several keys when it has them, else
/// its single key.
pub open spec fn key_candidate(multiauth: Option<Seq<Seq<char>>>, password: Seq<char>, k: Seq<char>) -> bool {
    match multiauth {
        Some(ks) => one_of(ks, k),
        None => k == password,
    }
}

/// `k` is one of the texts `ks`.
pub open spec fn one_of(ks: Seq<Seq<char>>, k: Seq<char>) -> bool {
    exists|i: int| 0 <= i < ks.len() && k == #[trigger] ks[i]
}

/// The URL of a fetch sent with key `key`: when the authentication type is
/// `url`, every `PASSWORD` in it is replaced by the key (an empty key too);
/// otherwise it is sent as configured.
pub open spec fn url_with_key(url: Seq<char>, auth_type: Seq<char>, key: Seq<char>) -> Seq<char> {
    if auth_type == "url"@ {
        replaced(url, "PASSWORD"@, key)
    } else {
        url
    }
}

/// How a fetch is sent with key `key`: the URL as above, and when the
/// authentication type is `header`, the key in the configured header.
pub open spec fn plan_for_key(q: Reqquery, key: Seq<char>, p: RequestPlan) -> bool {
    &&& p.url@ == url_with_key(q.url@, q.auth_type@, key)
    &&& (q.auth_type@ == "header"@ <==> p.header is Some)
    &&& (p.header matches Some(h) ==> h.0@ == q.auth_header@ && h.1@ == key)
}

/// How a fetch is sent with the given key.
pub fn plan_with_key(q: &Reqquery, key: &String) -> (p: RequestPlan)
    ensures
        plan_for_key(*q, key@, p),
{
    proof {
        reveal_strlit("PASSWORD");
    }
    let url = if same_text(q.auth_type.as_str(), "url") {
        replace(q.url.as_str(), "PASSWORD", key.as_str())
    } else {
        q.url.clone()
    };
    let header = if same_text(q.auth_type.as_str(), "header") {
        Some((q.auth_header.clone(), key.clone()))
    } else {
        None
    };
    RequestPlan { url, header }
}

/// With the `url` authentication type and a single key, every `PASSWORD` in
/// the URL is replaced by that key; with several keys, by the one picked.
pub proof fn lemma_url_auth_replaces_password(q: Reqquery, k: Seq<char>, p: RequestPlan)
    requires
        q.auth_type@ == "url"@,
        key_candidate(opt_texts(q.multiauth), q.auth_password@, k),
        plan_for_key(q, k, p),
    ensures
        q.multiauth is None ==> p.url@ == replaced(q.url@, "PASSWORD"@, q.auth_password@),
        q.multiauth matches Some(ks) ==> one_of(texts_of(ks@), k),
        p.url@ == replaced(q.url@, "PASSWORD"@, k),
        p.header is None,
{
    reveal_strlit("url");
    reveal_strlit("header");
    assert("url"@.len() == 3);
    assert("header"@.len() == 6);
}

/// How a fetch is sent: with one of its several keys picked at random, or
/// with its single key.
pub fn plan_request(q: &Reqquery) -> (p: RequestPlan)
    requires
        q.multiauth matches Some(ks) ==> ks@.len() > 0,
    ensures
        exists|k: Seq<char>| key_candidate(opt_texts(q.multiauth), q.auth_password@, k) && plan_for_key(*q, k, p),
{
    let key = match &q.multiauth {
        Some(keys) => match choose_key(keys) {
            Some(k) => k,
            None => q.auth_password.clone(),
        },
        None => q.auth_password.clone(),
    };
    let p = plan_with_key(q, &key);
    proof {
        if q.multiauth is Some {
            let ks = q.multiauth.unwrap();
            let i = choose|i: int| 0 <= i < ks@.len() && key@ == #[trigger] ks@[i]@;
            assert(texts_of(ks@).len() == ks@.len());
            assert(texts_of(ks@)[i] == key@);
            assert(opt_texts(q.multiauth) == Some(texts_of(ks@)));
            assert(0 <= i < texts_of(ks@).len() && key@ == texts_of(ks@)[i]);
            assert(key_candidate(Some(texts_of(ks@)), q.auth_password@, key@));
        }
        assert(key_candidate(opt_texts(q.multiauth), q.auth_password@, key@));
    }
    p
}

/// How the per-agency ingest sends a fetch of `url`: when the
/// authentication type is `url`, every `PASSWORD` in it is replaced by a key
/// (picked at random among several keys, if any); when it is `header`, a key
/// picked independently goes into the configured header.
pub fn make_reqwest_to_agency(
    url: &String,
    has_auth: bool,
    auth_type: &String,
    auth_header: &String,
    auth_password: &String,
    multiauth: &Option<Vec<String>>,
) -> (p: RequestPlan)
    requires
        multiauth matches Some(ks) ==> ks@.len() > 0,
    ensures
        auth_type@ == "url"@ ==> exists|k: Seq<char>|
            key_candidate(opt_texts(*multiauth), auth_password@, k) && p.url@ == replaced(url@, "PASSWORD"@, k),
        auth_type@ != "url"@ ==> p.url@ == url@,
        auth_type@ == "header"@ <==> p.header is Some,
        p.header matches Some(h) ==> h.0@ == auth_header@ && key_candidate(opt_texts(*multiauth), auth_password@, h.1@),
{
    proof {
        reveal_strlit("PASSWORD");
    }
    let url_out = if same_text(auth_type.as_str(), "url") {
        let k = pick_key(multiauth, auth_password);
        replace(url.as_str(), "PASSWORD", k.as_str())
    } else {
        url.clone()
    };
    let header = if same_text(auth_type.as_str(), "header") {
        let k = pick_key(multiauth, auth_password);
        Some((auth_header.clone(), k))
    } else {
        None
    };
    RequestPlan { url: url_out, header }
}

/// One of the several keys picked at random, or the single key.
fn pick_key(multiauth: &Option<Vec<String>>, auth_password: &String) -> (k: String)
    requires
        multiauth matches Some(ks) ==> ks@.len() > 0,
    ensures
        key_candidate(opt_texts(*multiauth), auth_password@, k@),
{
    match multiauth {
        Some(keys) => match choose_key(keys) {
            Some(k) => {
                proof {
                    let i = choose|i: int| 0 <= i < keys@.len() && k@ == #[trigger] keys@[i]@;
                    assert(texts_of(keys@).len() == keys@.len());
                    assert(texts_of(keys@)[i] == k@);
                    assert(opt_texts(*multiauth) == Some(texts_of(keys@)));
                }
                k
            },
            None => auth_password.clone(),
        },
        None => auth_password.clone(),
    }
}

/// A category name that the per-agency ingest does not know.
pub struct InvalidCategory;

/// The URL of a category of an agency, for the per-agency ingest, which
/// names its categories `vehicles`, `trip_updates` and `alerts`.
pub fn url_for_category(category: &String, agency_info: &AgencyInfo) -> (r: Result<String, InvalidCategory>)
    ensures
        category@ == "vehicles"@ ==> (r matches Ok(u) && u@ == agency_info.realtime_vehicle_positions@),
        category@ == "trip_updates"@ ==> (r matches Ok(u) && u@ == agency_info.realtime_trip_updates@),
        category@ == "alerts"@ ==> (r matches Ok(u) && u@ == agency_info.realtime_alerts@),
        !(category@ == "vehicles"@ || category@ == "trip_updates"@ || category@ == "alerts"@) <==> r is Err,
{
    proof {
        reveal_strlit("vehicles");
        reveal_strlit("trip_updates");
        reveal_strlit("alerts");
        assert("vehicles"@.len() == 8);
        assert("trip_updates"@.len() == 12);
        assert("alerts"@.len() == 6);
    }
    if same_text(category.as_str(), "vehicles") {
        Ok(agency_info.realtime_vehicle_positions.clone())
    } else if same_text(category.as_str(), "trip_updates") {
        Ok(agency_info.realtime_trip_updates.clone())
    } else if same_text(category.as_str(), "alerts") {
        Ok(agency_info.realtime_alerts.clone())
    } else {
        Err(InvalidCategory)
    }
}

/// What the per-agency ingest does for an agency in one round.
pub struct AgencyRound {
    /// The categories fetched, in order.
    pub categories: Vec<String>,
    /// Whether the agency's fetch time is recorded afterwards.
    pub record_time: bool,
}

/// The per-agency ingest fetches an agency when it is due and its key is
/// not the placeholder `EXAMPLEKEY`.
pub open spec fn agency_runs(a: AgencyInfo, last_updated_ms: Option<u64>, now_ms: u64) -> bool {
    is_due(last_updated_ms, now_ms, a.fetch_interval_ms) && a.auth_password@ != "EXAMPLEKEY"@
}

/// The categories fetched for a running agency: those with a URL, in the
/// order vehicles, trip updates, alerts.
pub open spec fn round_categories(a: AgencyInfo) -> Seq<Seq<char>> {
    (if a.realtime_vehicle_positions@.len() > 0 { seq!["vehicles"@] } else { Seq::empty() })
        + (if a.realtime_trip_updates@.len() > 0 { seq!["trip_updates"@] } else { Seq::empty() })
        + (if a.realtime_alerts@.len() > 0 { seq!["alerts"@] } else { Seq::empty() })
}

/// What the per-agency ingest does for an agency in one round, given when
/// the agency was last fetched.
pub fn agency_round(agency_info: &AgencyInfo, last_updated_ms: Option<u64>, now_ms: u64) -> (r: AgencyRound)
    requires
        last_updated_ms matches Some(t) ==> t <= now_ms,
    ensures
        r.record_time == agency_runs(*agency_info, last_updated_ms, now_ms),
        texts_of(r.categories@) == if r.record_time { round_categories(*agency_info) } else { Seq::empty() },
{
    let canrun = should_fetch(last_updated_ms, now_ms, agency_info.fetch_interval_ms)
        && !same_text(agency_info.auth_password.as_str(), "EXAMPLEKEY");
    let mut categories: Vec<String> = Vec::new();
    if canrun {
        if !agency_info.realtime_vehicle_positions.as_str().is_empty() {
            categories.push(String::from_str("vehicles"));
        }
        if !agency_info.realtime_trip_updates.as_str().is_empty() {
            categories.push(String::from_str("trip_updates"));
        }
        if !agency_info.realtime_alerts.as_str().is_empty() {
            categories.push(String::from_str("alerts"));
        }
    }
    let r = AgencyRound { categories, record_time: canrun };
    assert(texts_of(r.categories@) =~= if r.record_time { round_categories(*agency_info) } else { Seq::empty() });
    r
}

/// The feed category whose content is compared with the stored one before it
/// is stored: the OCTA vehicle positions.
pub open spec fn compared_before_store(onetrip: Seq<char>, category: Seq<char>) -> bool {
    onetrip == "f-octa~rt"@ && category == "vehicles"@
}

/// Whether a fetched feed category is compared with the stored one before it
/// is stored.
pub fn is_compared_before_store(onetrip: &str, category: &str) -> (r: bool)
    ensures
        r == compared_before_store(onetrip@, category@),
{
    same_text(onetrip, "f-octa~rt") && same_text(category, "vehicles")
}

/// A fetched feed is stored unless it is compared with the stored one and
/// its content hash equals that of the stored one (both having been read).
pub open spec fn keeps_fetch(onetrip: Seq<char>, category: Seq<char>, new_hash: Option<u64>, old_hash: Option<u64>) -> bool {
    !(compared_before_store(onetrip, category) && new_hash is Some && new_hash == old_hash)
}

/// Whether a fetched feed is stored, given the content hashes of the fetched
/// and the stored feed (`None` where one could not be read).
pub fn should_store(onetrip: &str, category: &str, new_hash: Option<u64>, old_hash: Option<u64>) -> (r: bool)
    ensures
        r == keeps_fetch(onetrip@, category@, new_hash, old_hash),
{
    if is_compared_before_store(onetrip, category) {
        match (new_hash, old_hash) {
            (Some(a), Some(b)) => a != b,
            _ => true,
        }
    } else {
        true
    }
}

/// A fetched feed is skipped only when it is OCTA's vehicle positions, the
/// stored copy was read, and both have the same content hash: whenever no
/// stored hash could be had, or the hashes differ, or the feed is another
/// one, the fetch is stored.
pub proof fn lemma_store_unless_unchanged(
    onetrip: Seq<char>,
    category: Seq<char>,
    new_hash: Option<u64>,
    old_hash: Option<u64>,
)
    ensures
        old_hash is None ==> keeps_fetch(onetrip, category, new_hash, old_hash),
        new_hash is None ==> keeps_fetch(onetrip, category, new_hash, old_hash),
        new_hash != old_hash ==> keeps_fetch(onetrip, category, new_hash, old_hash),
        !(onetrip == "f-octa~rt"@ && category == "vehicles"@) ==> keeps_fetch(onetrip, category, new_hash, old_hash),
        onetrip == "f-octa~rt"@ && category == "vehicles"@ && new_hash is Some && new_hash == old_hash
            ==> !keeps_fetch(onetrip, category, new_hash, old_hash),
{
}

/// The settings of the ingest program.
pub struct IngestOptions {
    /// The configuration file.
    pub urls: String,
    /// Time limit of one fetch, in milliseconds.
    pub timeout_ms: u64,
    /// How many fetches run at once.
    pub threads: usize,
}

/// The ingest settings from the command line: the configuration file
/// defaults to `urls.csv`, the fetch time limit to 15000 ms and the number
/// of concurrent fetches to 50.
pub fn ingest_options(urls: Option<String>, timeout: Option<u64>, threads: Option<usize>) -> (r: IngestOptions)
    ensures
        r.urls@ == match urls { Some(u) => u@, None => "urls.csv"@ },
        r.timeout_ms == match timeout { Some(t) => t, None => 15_000 },
        r.threads == match threads { Some(n) => n, None => 50 },
{
    IngestOptions {
        urls: match urls {
            Some(u) => u,
            None => String::from_str("urls.csv"),
        },
        timeout_ms: match timeout {
            Some(t) => t,
            None => 15_000,
        },
        threads: match threads {
            Some(n) => n,
            None => 50,
        },
    }
}

/// How long the ingest loop sleeps after a round that took `elapsed_ms`: the
/// rest of the second when the round took less than a second, read as a
/// 32-bit signed count of milliseconds.
pub fn loop_sleep_ms(elapsed_ms: u128) -> (r: Option<u128>)
    requires
        (elapsed_ms as i32) < 1000 ==> elapsed_ms <= 1000,
    ensures
        r == if (elapsed_ms as i32) < 1000 { Some((1000 - elapsed_ms) as u128) } else { None::<u128> },
{
    #[verifier::truncate]
    let short = (elapsed_ms as i32) < 1000;
    if short {
        Some(1000 - elapsed_ms)
    } else {
        None
    }
}

} // verus!
