//! The keys under which the cache stores each feed: its bytes, the time it
//! was stored, a marker that the feed exists, and the stream of its updates.
use vstd::prelude::*;
use vstd::string::StringExecFns;
use crate::text::{lemma_replace_absent, lemma_replace_leading, occurs_at, replace, replaced};

verus! {

broadcast use vstd::string::group_string_axioms;

/// Key of the stored bytes of a feed's category: `gtfsrt|{feed}|{category}`.
pub open spec fn data_key_of(feed: Seq<char>, category: Seq<char>) -> Seq<char> {
    "gtfsrt|"@ + feed + "|"@ + category
}

/// Key of the time (milliseconds since the epoch) at which a feed's category
/// was last stored: `gtfsrttime|{feed}|{category}`.
pub open spec fn time_key_of(feed: Seq<char>, category: Seq<char>) -> Seq<char> {
    "gtfsrttime|"@ + feed + "|"@ + category
}

/// Key of the marker that a feed exists: `gtfsrtexists|{feed}`.
pub open spec fn exists_key_of(feed: Seq<char>) -> Seq<char> {
    exists_prefix() + feed
}

/// The text that begins every feed marker key.
pub open spec fn exists_prefix() -> Seq<char> {
    "gtfsrtexists|"@
}

/// Key of the stream of a feed's category updates: `{feed}-{category}`.
pub open spec fn stream_key_of(feed: Seq<char>, category: Seq<char>) -> Seq<char> {
    feed + "-"@ + category
}

/// Key of the flag that a category fetch gave a valid answer:
/// `gtfsrtvalid|{feed}|{category}`.
pub open spec fn valid_key_of(feed: Seq<char>, category: Seq<char>) -> Seq<char> {
    "gtfsrtvalid|"@ + feed + "|"@ + category
}

/// Key of the time at which an agency was last fetched:
/// `metagtfsrt|{feed}|last_updated`.
pub open spec fn agency_updated_key_of(feed: Seq<char>) -> Seq<char> {
    "metagtfsrt|"@ + feed + "|last_updated"@
}

/// The feed named by a marker key: the key with every `gtfsrtexists|` removed.
pub open spec fn feed_of_exists_key(key: Seq<char>) -> Seq<char> {
    replaced(key, exists_prefix(), Seq::<char>::empty())
}

/// `a`, then `b`.
fn concat2(a: &str, b: &str) -> (r: String)
    ensures
        r@ == a@ + b@,
{
    let mut s = String::new();
    s.append(a);
    s.append(b);
    s
}

/// `a`, then `b`, then `c`.
fn concat3(a: &str, b: &str, c: &str) -> (r: String)
    ensures
        r@ == a@ + b@ + c@,
{
    let mut s = String::new();
    s.append(a);
    s.append(b);
    s.append(c);
    s
}

/// `a`, then `b`, then `c`, then `d`.
fn concat4(a: &str, b: &str, c: &str, d: &str) -> (r: String)
    ensures
        r@ == a@ + b@ + c@ + d@,
{
    let mut s = String::new();
    s.append(a);
    s.append(b);
    s.append(c);
    s.append(d);
    s
}

/// Key of the stored bytes of a feed's category.
pub fn data_key(feed: &str, category: &str) -> (r: String)
    ensures
        r@ == data_key_of(feed@, category@),
{
    concat4("gtfsrt|", feed, "|", category)
}

/// Key of the time at which a feed's category was last stored.
pub fn time_key(feed: &str, category: &str) -> (r: String)
    ensures
        r@ == time_key_of(feed@, category@),
{
    concat4("gtfsrttime|", feed, "|", category)
}

/// Key of the marker that a feed exists.
pub fn exists_key(feed: &str) -> (r: String)
    ensures
        r@ == exists_key_of(feed@),
{
    concat2("gtfsrtexists|", feed)
}

/// The pattern that lists every feed marker key.
pub fn exists_key_pattern() -> (r: String)
    ensures
        r@ == exists_prefix() + "*"@,
{
    concat2("gtfsrtexists|", "*")
}

/// Key of the stream of a feed's category updates.
pub fn stream_key(feed: &str, category: &str) -> (r: String)
    ensures
        r@ == stream_key_of(feed@, category@),
{
    concat3(feed, "-", category)
}

/// Key of the flag that a category fetch gave a valid answer.
pub fn valid_key(feed: &str, category: &str) -> (r: String)
    ensures
        r@ == valid_key_of(feed@, category@),
{
    concat4("gtfsrtvalid|", feed, "|", category)
}

/// Key of the time at which an agency was last fetched.
pub fn agency_updated_key(feed: &str) -> (r: String)
    ensures
        r@ == agency_updated_key_of(feed@),
{
    concat3("metagtfsrt|", feed, "|last_updated")
}

/// The feed named by a marker key.
pub fn feed_of_exists(key: &str) -> (r: String)
    ensures
        r@ == feed_of_exists_key(key@),
{
    proof {
        reveal_strlit("gtfsrtexists|");
        reveal_strlit("");
        assert(""@ =~= Seq::<char>::empty());
    }
    replace(key, "gtfsrtexists|", "")
}

/// A feed whose name does not contain the marker prefix is named back by its
/// marker key: listing the markers gives the feeds that were stored.
pub proof fn lemma_exists_key_roundtrip(feed: Seq<char>)
    requires
        forall|i: int| !occurs_at(feed, exists_prefix(), i),
    ensures
        feed_of_exists_key(exists_key_of(feed)) == feed,
{
    reveal_strlit("gtfsrtexists|");
    lemma_replace_leading(exists_prefix(), feed, Seq::<char>::empty());
    lemma_replace_absent(feed, exists_prefix(), Seq::<char>::empty());
    assert(Seq::<char>::empty() + feed =~= feed);
}

} // verus!
