//! What storing a fetched feed writes to the cache, and the hand-off of a
//! freshly stored agency to the downstream processor.
use vstd::prelude::*;
use crate::keys::{
    data_key, data_key_of, exists_key, exists_key_of, exists_prefix, feed_of_exists_key,
    lemma_exists_key_roundtrip, stream_key, stream_key_of, time_key, time_key_of,
};
use crate::text::{decimal, decimal_string, lemma_parse_decimal, occurs_at, parsed_u64, same_text};

verus! {

/// The writes that store one fetched category of a feed.
pub struct StorePlan {
    /// Key under which the feed bytes are stored.
    pub data_key: String,
    /// Stream to which the bytes are appended, keyed by `data_key`, if any.
    pub stream_key: Option<String>,
    /// Key under which the storing time is written.
    pub time_key: String,
    /// Key of the marker that the feed exists; it holds the storing time too.
    pub exists_key: String,
    /// The storing time in milliseconds since the epoch, in decimal.
    pub stored_at: String,
}

/// The plan stores the feed's category at the given time.
pub open spec fn is_store_plan(p: StorePlan, feed: Seq<char>, category: Seq<char>, now_ms: nat) -> bool {
    &&& p.data_key@ == data_key_of(feed, category)
    &&& p.time_key@ == time_key_of(feed, category)
    &&& p.exists_key@ == exists_key_of(feed)
    &&& p.stored_at@ == decimal(now_ms)
}

/// The writes that store raw feed bytes: the bytes under the data key, the
/// bytes appended to the feed's stream, and the storing time under the time
/// key and the feed marker.
pub fn insert_gtfs_rt_bytes(onetrip: &str, category: &str, now_ms: u128) -> (r: StorePlan)
    ensures
        is_store_plan(r, onetrip@, category@, now_ms as nat),
        r.stream_key matches Some(k) && k@ == stream_key_of(onetrip@, category@),
{
    StorePlan {
        data_key: data_key(onetrip, category),
        stream_key: Some(stream_key(onetrip, category)),
        time_key: time_key(onetrip, category),
        exists_key: exists_key(onetrip),
        stored_at: decimal_string(now_ms),
    }
}

/// The writes that store an encoded feed message: the bytes under the data
/// key, and the storing time under the time key and the feed marker.
pub fn insert_gtfs_rt(onetrip: &str, category: &str, now_ms: u128) -> (r: StorePlan)
    ensures
        is_store_plan(r, onetrip@, category@, now_ms as nat),
        r.stream_key is None,
{
    StorePlan {
        data_key: data_key(onetrip, category),
        stream_key: None,
        time_key: time_key(onetrip, category),
        exists_key: exists_key(onetrip),
        stored_at: decimal_string(now_ms),
    }
}

/// What a store leaves for the readers: the storing time written under the
/// time key reads back as that time, and the feed marker names the feed
/// again (for a feed whose name does not contain the marker prefix).
pub proof fn lemma_store_read_back(p: StorePlan, feed: Seq<char>, category: Seq<char>, now_ms: u64)
    requires
        is_store_plan(p, feed, category, now_ms as nat),
        forall|i: int| !occurs_at(feed, exists_prefix(), i),
    ensures
        parsed_u64(p.stored_at@) == Some(now_ms),
        feed_of_exists_key(p.exists_key@) == feed,
{
    lemma_parse_decimal(now_ms);
    lemma_exists_key_roundtrip(feed);
}

/// The feeds for which vehicle positions are produced downstream even when
/// the agency publishes none.
pub open spec fn generates_vehicles(agency: Seq<char>) -> bool {
    ||| agency == "f-mta~nyc~rt~mnr"@
    ||| agency == "f-mta~nyc~rt~lirr"@
    ||| agency == "f-roamtransit~rt"@
    ||| agency == "f-bart~rt"@
}

/// Hands a stored agency to the downstream processor and tells whether the
/// agency counts as having vehicle positions: it does when it published
/// them or when its positions are generated downstream.
pub fn send_to_aspen(
    agency: &str,
    vehicles_result: &Option<Vec<u8>>,
    trips_result: &Option<Vec<u8>>,
    alerts_result: &Option<Vec<u8>>,
    vehicles_exist: bool,
    trips_exist: bool,
    alerts_exist: bool,
    useexistingdata: bool,
) -> (r: bool)
    ensures
        r == (generates_vehicles(agency@) || vehicles_exist),
{
    let generated = same_text(agency, "f-mta~nyc~rt~mnr") || same_text(agency, "f-mta~nyc~rt~lirr")
        || same_text(agency, "f-roamtransit~rt") || same_text(agency, "f-bart~rt");
    generated || vehicles_exist
}

} // verus!
