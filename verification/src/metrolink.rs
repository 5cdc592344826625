//! The Metrolink ingest: when each of its two feeds is due, how a fetch is
//! judged, how long the loop rests, and how the service advisories on the
//! Metrolink status page become alert entities.
use vstd::prelude::*;
use vstd::string::StringExecFns;
use regex::Regex;
use crate::text::{replace, replaced, same_text, signed_decimal, signed_decimal_string, trim, trimmed};

verus! {

broadcast use vstd::string::group_string_axioms;

/// The route id of a Metrolink line abbreviation, empty for an unknown one.
pub open spec fn route_of_abbrev(x: Seq<char>) -> Seq<char> {
    if x == "AV"@ {
        "Antelope Valley Line"@
    } else if x == "IEOC"@ {
        "Inland Emp.-Orange Co. Line"@
    } else if x == "OC"@ {
        "Orange County Line"@
    } else if x == "SB"@ {
        "San Bernardino Line"@
    } else if x == "VC"@ {
        "Ventura County Line"@
    } else if x == "RIV"@ {
        "Riverside Line"@
    } else if x == "91/PV"@ {
        "91 Line"@
    } else {
        ""@
    }
}

/// The route id of a Metrolink line abbreviation.
pub fn metrolink_alert_line_abbrv_to_route_id(x: &str) -> (r: &'static str)
    ensures
        r@ == route_of_abbrev(x@),
{
    if same_text(x, "AV") {
        "Antelope Valley Line"
    } else if same_text(x, "IEOC") {
        "Inland Emp.-Orange Co. Line"
    } else if same_text(x, "OC") {
        "Orange County Line"
    } else if same_text(x, "SB") {
        "San Bernardino Line"
    } else if same_text(x, "VC") {
        "Ventura County Line"
    } else if same_text(x, "RIV") {
        "Riverside Line"
    } else if same_text(x, "91/PV") {
        "91 Line"
    } else {
        ""
    }
}

/// The routes of the Metrolink lines: each of the seven line abbreviations
/// names its own line, and any other text names no route.
pub proof fn lemma_line_routes(x: Seq<char>)
    ensures
        x == "AV"@ ==> route_of_abbrev(x) == "Antelope Valley Line"@,
        x == "IEOC"@ ==> route_of_abbrev(x) == "Inland Emp.-Orange Co. Line"@,
        x == "OC"@ ==> route_of_abbrev(x) == "Orange County Line"@,
        x == "SB"@ ==> route_of_abbrev(x) == "San Bernardino Line"@,
        x == "VC"@ ==> route_of_abbrev(x) == "Ventura County Line"@,
        x == "RIV"@ ==> route_of_abbrev(x) == "Riverside Line"@,
        x == "91/PV"@ ==> route_of_abbrev(x) == "91 Line"@,
        x != "AV"@ && x != "IEOC"@ && x != "OC"@ && x != "SB"@ && x != "VC"@ && x != "RIV"@ && x != "91/PV"@
            ==> route_of_abbrev(x) == Seq::<char>::empty(),
{
    reveal_strlit("AV");
    reveal_strlit("IEOC");
    reveal_strlit("OC");
    reveal_strlit("SB");
    reveal_strlit("VC");
    reveal_strlit("RIV");
    reveal_strlit("91/PV");
    reveal_strlit("");
    assert("AV"@[0] != "IEOC"@[0] && "AV"@[0] != "OC"@[0] && "AV"@[0] != "SB"@[0] && "AV"@[0] != "VC"@[0] && "AV"@[0] != "RIV"@[0] && "AV"@[0] != "91/PV"@[0]);
    assert("IEOC"@[0] != "OC"@[0] && "IEOC"@[0] != "SB"@[0] && "IEOC"@[0] != "VC"@[0] && "IEOC"@[0] != "RIV"@[0] && "IEOC"@[0] != "91/PV"@[0]);
    assert("OC"@[0] != "SB"@[0] && "OC"@[0] != "VC"@[0] && "OC"@[0] != "RIV"@[0] && "OC"@[0] != "91/PV"@[0]);
    assert("SB"@[0] != "VC"@[0] && "SB"@[0] != "RIV"@[0] && "SB"@[0] != "91/PV"@[0]);
    assert("VC"@[0] != "RIV"@[0] && "VC"@[0] != "91/PV"@[0]);
    assert("RIV"@[0] != "91/PV"@[0]);
    assert(""@ =~= Seq::<char>::empty());
}

/// The URL of a Metrolink feed: trip updates for `trips`, vehicle positions
/// otherwise.
pub fn metrolink_feed_url(category: &str) -> (r: &'static str)
    ensures
        category@ == "trips"@ ==> r@ == "https://metrolink-gtfsrt.gbsdigital.us/feed/gtfsrt-trips"@,
        category@ != "trips"@ ==> r@ == "https://metrolink-gtfsrt.gbsdigital.us/feed/gtfsrt-vehicles"@,
{
    if same_text(category, "trips") {
        "https://metrolink-gtfsrt.gbsdigital.us/feed/gtfsrt-trips"
    } else {
        "https://metrolink-gtfsrt.gbsdigital.us/feed/gtfsrt-vehicles"
    }
}

/// The spacing between two requests for one Metrolink feed, in milliseconds:
/// the server answers 429 to clients that ask more often.
pub const REQUEST_SPACING_MS: u128 = 30_000;

/// A feed is due when it was never requested, or when its last request went
/// out at least 30 s ago.
pub open spec fn category_due(last_attempt_elapsed_ms: Option<u128>) -> bool {
    match last_attempt_elapsed_ms {
        None => true,
        Some(e) => e >= REQUEST_SPACING_MS,
    }
}

/// Whether a Metrolink feed is due, given the time since its last request.
pub fn determine_if_category_should_run(last_attempt_elapsed_ms: Option<u128>) -> (r: bool)
    ensures
        r == category_due(last_attempt_elapsed_ms),
{
    match last_attempt_elapsed_ms {
        None => true,
        Some(e) => e >= REQUEST_SPACING_MS,
    }
}

/// What a fetch of a Metrolink feed leads to.
pub struct CategoryOutcome {
    /// How long the ingest pauses, in milliseconds: 30 s when the server
    /// refused the request with a client error.
    pub freeze_ms: Option<u64>,
    /// The feed is stored and its header time stamp remembered.
    pub accepted_timestamp: Option<u64>,
}

/// A fetch is judged by its status (a client error pauses the ingest for
/// 30 s) and,
/// on success, by the feed: it is kept when it decodes and its header
/// carries a time stamp.
pub fn runcategory_outcome(client_error: bool, success: bool, reading: Option<Option<u64>>) -> (r: CategoryOutcome)
    ensures
        r.freeze_ms == if client_error { Some(30_000u64) } else { None::<u64> },
        r.accepted_timestamp == if success {
            match reading {
                Some(Some(t)) => Some(t),
                _ => None::<u64>,
            }
        } else {
            None::<u64>
        },
{
    let accepted_timestamp = if success {
        match reading {
            Some(Some(t)) => Some(t),
            _ => None,
        }
    } else {
        None
    };
    let freeze_ms = if client_error {
        Some(30_000)
    } else {
        None
    };
    CategoryOutcome { freeze_ms, accepted_timestamp }
}

/// How long the Metrolink loop rests, in milliseconds: when both feeds were
/// requested and neither is due yet, until the first of them is due, if that
/// is more than a second away.
pub open spec fn rest_ms(veh_elapsed: Option<u128>, trip_elapsed: Option<u128>) -> Option<int> {
    match (veh_elapsed, trip_elapsed) {
        (Some(v), Some(t)) => {
            if v < REQUEST_SPACING_MS && t < REQUEST_SPACING_MS {
                let latest: u128 = if v < t { t } else { v };
                let wait: int = REQUEST_SPACING_MS - latest;
                if wait > 1000 {
                    Some(wait)
                } else {
                    None
                }
            } else {
                None
            }
        },
        _ => None,
    }
}

/// How long the Metrolink loop rests, in milliseconds, given the time since
/// each feed was last requested.
pub fn metrolink_rest_ms(veh_elapsed: Option<u128>, trip_elapsed: Option<u128>) -> (r: Option<u128>)
    ensures
        r matches Some(w) ==> rest_ms(veh_elapsed, trip_elapsed) == Some(w as int),
        r is None ==> rest_ms(veh_elapsed, trip_elapsed) is None,
{
    match (veh_elapsed, trip_elapsed) {
        (Some(v), Some(t)) => {
            if v < REQUEST_SPACING_MS && t < REQUEST_SPACING_MS {
                let latest: u128 = if v < t { t } else { v };
                let wait: u128 = REQUEST_SPACING_MS - latest;
                if wait > 1000 {
                    Some(wait)
                } else {
                    None
                }
            } else {
                None
            }
        },
        _ => None,
    }
}

/// Once the loop has rested as long as `rest_ms` says, the first of the two
/// feeds is due again; while it rests, neither is.
pub proof fn lemma_rest_ends_when_a_feed_is_due(v: u128, t: u128, wait: int, slept: u128)
    requires
        rest_ms(Some(v), Some(t)) == Some(wait),
    ensures
        !category_due(Some(v)) && !category_due(Some(t)),
        slept >= wait && v + slept <= u128::MAX && t + slept <= u128::MAX
            ==> category_due(Some((v + slept) as u128)) || category_due(Some((t + slept) as u128)),
{
}

// ---------------------------------------------------------------------------
// The service advisories of the status page.

/// What a regular expression's first match in `text` is, `None` when the
/// pattern is invalid or does not match.
pub uninterp spec fn regex_capture(pattern: Seq<char>, text: Seq<char>) -> Option<Seq<char>>;

/// What replacing the first match of a regular expression in `text` gives,
/// `None` when the pattern is invalid.
pub uninterp spec fn regex_replace_first(pattern: Seq<char>, text: Seq<char>, replacement: Seq<char>) -> Option<Seq<char>>;

/// The whole first match of `pattern` in `text`.
///
/// Trusted: `Regex::new` and `Regex::captures` of `regex`, group 0 of the
/// captures being the whole match; the result is a function of the pattern
/// and the text, named `regex_capture`, and is `None` when the pattern does
/// not compile.
#[verifier::external_body]
fn regex_first_capture(pattern: &str, text: &str) -> (r: Option<String>)
    ensures
        r matches Some(m) ==> regex_capture(pattern@, text@) == Some(m@),
        r is None ==> regex_capture(pattern@, text@) is None,
{
    match Regex::new(pattern) {
        Ok(re) => match re.captures(text) {
            Some(caps) => match caps.get(0) {
                Some(m) => Some(m.as_str().to_string()),
                None => None,
            },
            None => None,
        },
        Err(_) => None,
    }
}

/// `text` with the first match of `pattern` replaced.
///
/// Trusted: `Regex::new` and `Regex::replace` of `regex` (which replaces the
/// first match only, expanding `$` references in the replacement); the result
/// is a function of its arguments, named `regex_replace_first`, and is `None`
/// when the pattern does not compile.
#[verifier::external_body]
fn regex_replace(pattern: &str, text: &str, replacement: &str) -> (r: Option<String>)
    ensures
        r matches Some(s) ==> regex_replace_first(pattern@, text@, replacement@) == Some(s@),
        r is None ==> regex_replace_first(pattern@, text@, replacement@) is None,
{
    match Regex::new(pattern) {
        Ok(re) => Some(re.replace(text, replacement).into_owned()),
        Err(_) => None,
    }
}

/// The script block of the status page that holds the advisories.
pub open spec fn script_pattern() -> Seq<char> {
    "<script\\b[^>]*>\\s+window.ml([\\s\\S]*?)<\\/script>"@
}

/// The assignment that opens the advisories script.
pub open spec fn script_head_pattern() -> Seq<char> {
    "<script type=\\\"text/javascript\\\">\\s+window.ml = window.ml\\s+\\|\\|\\s+\\{\\};(\\s)+window.ml ="@
}

/// The script's object literal with its bare keys quoted.
pub open spec fn quote_keys(s: Seq<char>) -> Seq<char> {
    let a = replaced(s, "results"@, "\"results\""@);
    let b = replaced(a, "timeLimit"@, "\"timeLimit\""@);
    let c = replaced(b, "minified"@, "\"minified\""@);
    replaced(c, "isHomepage"@, "\"isHomepage\""@)
}

/// The advisories of the status page as JSON text: the advisories script,
/// without its opening assignment and its closing tag, trimmed, with its
/// keys quoted; `None` when the page holds no such script.
pub open spec fn alerts_json_of(page: Seq<char>) -> Option<Seq<char>> {
    match regex_capture(script_pattern(), page) {
        None => None,
        Some(script) => match regex_replace_first(script_head_pattern(), script, ""@) {
            None => None,
            Some(body) => match regex_replace_first("</script>"@, body, ""@) {
                None => None,
                Some(object) => Some(quote_keys(trimmed(object))),
            },
        },
    }
}

/// The advisories of the status page as JSON text.
pub fn extract_alerts_json(page: &str) -> (r: Option<String>)
    ensures
        r matches Some(s) ==> alerts_json_of(page@) == Some(s@),
        r is None ==> alerts_json_of(page@) is None,
{
    let script = match regex_first_capture(r"<script\b[^>]*>\s+window.ml([\s\S]*?)<\/script>", page) {
        Some(s) => s,
        None => return None,
    };
    let body = match regex_replace(
        "<script type=\\\"text/javascript\\\">\\s+window.ml = window.ml\\s+\\|\\|\\s+\\{\\};(\\s)+window.ml =",
        script.as_str(),
        "",
    ) {
        Some(s) => s,
        None => return None,
    };
    let object = match regex_replace("</script>", body.as_str(), "") {
        Some(s) => s,
        None => return None,
    };
    proof {
        reveal_strlit("results");
        reveal_strlit("timeLimit");
        reveal_strlit("minified");
        reveal_strlit("isHomepage");
    }
    let t = trim(object.as_str());
    let a = replace(t.as_str(), "results", "\"results\"");
    let b = replace(a.as_str(), "timeLimit", "\"timeLimit\"");
    let c = replace(b.as_str(), "minified", "\"minified\"");
    let d = replace(c.as_str(), "isHomepage", "\"isHomepage\"");
    Some(d)
}

/// A service advisory of the status page.
pub struct ServiceAdvisory {
    pub id: i32,
    pub message: String,
    /// The advisory's `Line` field as the status page gives it; the route
    /// id of the alert is looked up with it as a line abbreviation.
    pub line: String,
    /// Path of the advisory's page on the Metrolink site.
    pub details_page: String,
    /// Present when the advisory has a details page of its own.
    pub alert_details_page: Option<String>,
}

/// A text in one language.
pub struct Translation {
    pub text: String,
    pub language: Option<String>,
}

/// A text with its translations.
pub struct TranslatedString {
    pub translation: Vec<Translation>,
}

/// What an alert is about. The alerts name routes only; an alert selector
/// names no trip.
pub struct EntitySelector {
    pub agency_id: Option<String>,
    pub route_id: Option<String>,
    pub direction_id: Option<u32>,
    pub route_type: Option<i32>,
    pub stop_id: Option<String>,
}

/// A span of time, in seconds since the epoch; an open end is absent.
pub struct TimeRange {
    pub start: Option<u64>,
    pub end: Option<u64>,
}

/// An alert entity of the Metrolink alerts feed. It carries an alert only
/// (no trip update, vehicle or shape), and its alert has no cause, effect,
/// description, text-to-speech text, image or severity.
pub struct AlertEntity {
    pub id: String,
    pub is_deleted: Option<bool>,
    pub header_text: Option<TranslatedString>,
    pub informed_entity: Vec<EntitySelector>,
    pub active_period: Vec<TimeRange>,
    pub url: Option<TranslatedString>,
}

/// Whether a feed holds every entity or changes since the last one.
pub enum Incrementality {
    FullDataset,
    Differential,
}

/// The header of a GTFS-realtime feed.
pub struct FeedHeader {
    pub gtfs_realtime_version: String,
    pub incrementality: Option<Incrementality>,
    pub timestamp: Option<u64>,
}

/// The Metrolink alerts feed.
pub struct AlertsFeed {
    pub header: FeedHeader,
    pub entity: Vec<AlertEntity>,
}

/// The text is `text` alone, in English.
pub open spec fn english(t: TranslatedString, text: Seq<char>) -> bool {
    &&& t.translation@.len() == 1
    &&& t.translation@[0].text@ == text
    &&& t.translation@[0].language matches Some(l) && l@ == "en"@
}

/// The selector names the route `route_id` and nothing else.
pub open spec fn selects_route(s: EntitySelector, route_id: Seq<char>) -> bool {
    &&& s.agency_id is None
    &&& s.route_id matches Some(r) && r@ == route_id
    &&& s.direction_id is None
    &&& s.route_type is None
    &&& s.stop_id is None
}

/// The alert entity of an advisory: its id in decimal, not deleted; the
/// message, in English, as the header; one selector naming its line's route;
/// one time range open at both ends; and, when it has a details page, the
/// link to its page on the Metrolink site, in English.
pub open spec fn alert_of(a: ServiceAdvisory, e: AlertEntity) -> bool {
    &&& e.id@ == signed_decimal(a.id as int)
    &&& e.is_deleted == Some(false)
    &&& e.header_text matches Some(h) && english(h, a.message@)
    &&& e.informed_entity@.len() == 1
    &&& selects_route(e.informed_entity@[0], route_of_abbrev(a.line@))
    &&& e.active_period@.len() == 1
    &&& e.active_period@[0].start is None && e.active_period@[0].end is None
    &&& (a.alert_details_page is Some <==> e.url is Some)
    &&& (e.url matches Some(u) ==> english(u, "https://metrolinktrains.com"@ + a.details_page@))
}

/// The route that an alert names, empty when it names none.
pub open spec fn informed_route(e: AlertEntity) -> Seq<char> {
    if e.informed_entity@.len() > 0 && e.informed_entity@[0].route_id is Some {
        e.informed_entity@[0].route_id->0@
    } else {
        Seq::<char>::empty()
    }
}

/// Riders of each Metrolink line get its advisories: the alert of an
/// advisory names exactly one route, that of the advisory's line, and no
/// route (an empty route id) for a line that is not one of the seven.
pub proof fn lemma_alert_routes(a: ServiceAdvisory, e: AlertEntity)
    requires
        alert_of(a, e),
    ensures
        e.informed_entity@.len() == 1,
        a.line@ == "AV"@ ==> informed_route(e) == "Antelope Valley Line"@,
        a.line@ == "IEOC"@ ==> informed_route(e) == "Inland Emp.-Orange Co. Line"@,
        a.line@ == "OC"@ ==> informed_route(e) == "Orange County Line"@,
        a.line@ == "SB"@ ==> informed_route(e) == "San Bernardino Line"@,
        a.line@ == "VC"@ ==> informed_route(e) == "Ventura County Line"@,
        a.line@ == "RIV"@ ==> informed_route(e) == "Riverside Line"@,
        a.line@ == "91/PV"@ ==> informed_route(e) == "91 Line"@,
        route_of_abbrev(a.line@) == Seq::<char>::empty() ==> informed_route(e) == Seq::<char>::empty(),
{
    lemma_line_routes(a.line@);
}

/// The text alone, in English.
fn in_english(text: String) -> (t: TranslatedString)
    ensures
        english(t, text@),
{
    proof {
        reveal_strlit("en");
    }
    let mut translation: Vec<Translation> = Vec::new();
    translation.push(Translation { text, language: Some(String::from_str("en")) });
    TranslatedString { translation }
}

/// The alert entity of an advisory.
pub fn alert_entity(a: &ServiceAdvisory) -> (e: AlertEntity)
    ensures
        alert_of(*a, e),
{
    let url = match &a.alert_details_page {
        Some(_) => {
            let mut link = String::from_str("https://metrolinktrains.com");
            link.append(a.details_page.as_str());
            Some(in_english(link))
        },
        None => None,
    };
    let mut informed_entity: Vec<EntitySelector> = Vec::new();
    informed_entity.push(
        EntitySelector {
            agency_id: None,
            route_id: Some(String::from_str(metrolink_alert_line_abbrv_to_route_id(a.line.as_str()))),
            direction_id: None,
            route_type: None,
            stop_id: None,
        },
    );
    let mut active_period: Vec<TimeRange> = Vec::new();
    active_period.push(TimeRange { start: None, end: None });
    AlertEntity {
        id: signed_decimal_string(a.id as i64),
        is_deleted: Some(false),
        header_text: Some(in_english(a.message.clone())),
        informed_entity,
        active_period,
        url,
    }
}

/// The advisories of all lines, line after line.
pub open spec fn all_advisories(lines: Seq<Vec<ServiceAdvisory>>) -> Seq<ServiceAdvisory>
    decreases lines.len(),
{
    if lines.len() == 0 {
        Seq::empty()
    } else {
        all_advisories(lines.drop_last()) + lines.last()@
    }
}

/// The alert entities of the advisories of all lines, in order.
pub fn alert_entities(lines: &Vec<Vec<ServiceAdvisory>>) -> (r: Vec<AlertEntity>)
    ensures
        r@.len() == all_advisories(lines@).len(),
        forall|i: int| 0 <= i < r@.len() ==> alert_of(#[trigger] all_advisories(lines@)[i], r@[i]),
{
    let mut out: Vec<AlertEntity> = Vec::new();
    let mut i: usize = 0;
    assert(lines@.take(0) =~= Seq::<Vec<ServiceAdvisory>>::empty());
    while i < lines.len()
        invariant
            i <= lines@.len(),
            out@.len() == all_advisories(lines@.take(i as int)).len(),
            forall|m: int| 0 <= m < out@.len() ==> alert_of(#[trigger] all_advisories(lines@.take(i as int))[m], out@[m]),
        decreases lines.len() - i,
    {
        let group = &lines[i];
        let ghost before = all_advisories(lines@.take(i as int));
        let ghost out0 = out@;
        let mut j: usize = 0;
        while j < group.len()
            invariant
                j <= group@.len(),
                out@.len() == out0.len() + j,
                forall|m: int| 0 <= m < out0.len() ==> out@[m] == out0[m],
                forall|m: int| 0 <= m < j ==> alert_of(group@[m], #[trigger] out@[out0.len() + m]),
            decreases group.len() - j,
        {
            out.push(alert_entity(&group[j]));
            j = j + 1;
        }
        proof {
            assert(lines@.take(i + 1).drop_last() =~= lines@.take(i as int));
            let now = all_advisories(lines@.take(i + 1));
            assert(now == before + group@);
            assert forall|m: int| 0 <= m < out@.len() implies alert_of(
                #[trigger] all_advisories(lines@.take(i + 1))[m],
                out@[m],
            ) by {
                if m >= out0.len() {
                    assert(now[m] == group@[m - out0.len()]);
                    assert(out@[out0.len() + (m - out0.len())] == out@[m]);
                }
            }
        }
        i = i + 1;
    }
    assert(lines@.take(lines@.len() as int) =~= lines@);
    out
}

/// The Metrolink alerts feed of the advisories of all lines, made at
/// `now_ms` (milliseconds since the epoch): a full dataset of GTFS-realtime
/// version 2.0, stamped with that time (as a 64-bit number), whose entities
/// are the alerts of the advisories in order.
pub fn alerts_feed(lines: &Vec<Vec<ServiceAdvisory>>, now_ms: u128) -> (r: AlertsFeed)
    ensures
        r.header.gtfs_realtime_version@ == "2.0"@,
        r.header.incrementality == Some(Incrementality::FullDataset),
        r.header.timestamp == Some(now_ms as u64),
        r.entity@.len() == all_advisories(lines@).len(),
        forall|i: int| 0 <= i < r.entity@.len() ==> alert_of(#[trigger] all_advisories(lines@)[i], r.entity@[i]),
{
    #[verifier::truncate]
    let stamp: u64 = now_ms as u64;
    AlertsFeed {
        header: FeedHeader {
            gtfs_realtime_version: String::from_str("2.0"),
            incrementality: Some(Incrementality::FullDataset),
            timestamp: Some(stamp),
        },
        entity: alert_entities(lines),
    }
}

} // verus!
