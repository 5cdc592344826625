//! The configuration of the agencies whose feeds are fetched, one CSV record
//! each, and the list of fetches it asks for.
use vstd::prelude::*;
use vstd::string::StringExecFns;
use crate::text::{join_with, lemma_join_split, lemma_split_shape, same_text, split_chars, split_on, texts_of};

verus! {

broadcast use vstd::string::group_string_axioms;

/// One agency of the configuration file.
pub struct AgencyInfo {
    /// The feed's Onestop id.
    pub onetrip: String,
    /// URL of the vehicle positions feed, or empty.
    pub realtime_vehicle_positions: String,
    /// URL of the trip updates feed, or empty.
    pub realtime_trip_updates: String,
    /// URL of the alerts feed, or empty.
    pub realtime_alerts: String,
    /// Whether the agency needs authentication.
    pub has_auth: bool,
    /// `url` (the key goes into the URL), `header`, or something else.
    pub auth_type: String,
    /// Name of the header that carries the key.
    pub auth_header: String,
    /// The key.
    pub auth_password: String,
    /// Least time between two fetches, in milliseconds.
    pub fetch_interval_ms: u64,
    /// Several keys, one picked at random for each fetch.
    pub multiauth: Option<Vec<String>>,
}

/// Why a configuration record cannot be read.
pub enum RecordError {
    /// The record has fewer than ten fields.
    MissingField,
    /// The authentication flag is neither `true` nor `false`.
    BadAuthFlag,
}

/// The views of an optional list of texts.
pub open spec fn opt_texts(o: Option<Vec<String>>) -> Option<Seq<Seq<char>>> {
    match o {
        Some(v) => Some(texts_of(v@)),
        None => None,
    }
}

/// The keys listed in the multi-key field: `None` when it is empty, else
/// the pieces between its commas.
pub open spec fn multiauth_of(s: Seq<char>) -> Option<Seq<Seq<char>>> {
    if s.len() == 0 {
        None
    } else {
        Some(split_on(s, ','))
    }
}

/// The keys listed in the multi-key field of a record.
pub fn convert_multiauth_to_vec(inputstring: &String) -> (r: Option<Vec<String>>)
    ensures
        opt_texts(r) == multiauth_of(inputstring@),
{
    if !inputstring.as_str().is_empty() {
        let v = split_chars(inputstring.as_str(), ',');
        assert(texts_of(v@) =~= split_on(inputstring@, ','));
        Some(v)
    } else {
        None
    }
}

/// The keys of a non-empty multi-key field are the pieces between its
/// commas: none holds a comma, and joined with commas they give the field
/// back.
pub proof fn lemma_multiauth_round_trip(s: Seq<char>)
    requires
        s.len() > 0,
    ensures
        multiauth_of(s) matches Some(ks) && join_with(ks, ',') == s
            && forall|i: int, j: int| 0 <= i < ks.len() && 0 <= j < ks[i].len() ==> ks[i][j] != ',',
{
    lemma_join_split(s, ',');
    lemma_split_shape(s, ',');
}

/// A copy of a list of texts.
pub fn copy_texts(v: &Vec<String>) -> (r: Vec<String>)
    ensures
        r@ == v@,
{
    let mut out: Vec<String> = Vec::new();
    let mut i: usize = 0;
    while i < v.len()
        invariant
            i <= v@.len(),
            out@ == v@.take(i as int),
        decreases v.len() - i,
    {
        out.push(v[i].clone());
        assert(out@ =~= v@.take(i + 1));
        i = i + 1;
    }
    assert(v@.take(v@.len() as int) =~= v@);
    out
}

/// A copy of an optional list of texts.
pub fn copy_opt_texts(o: &Option<Vec<String>>) -> (r: Option<Vec<String>>)
    ensures
        r matches Some(v) ==> o matches Some(w) && v@ == w@,
        r is None <==> o is None,
{
    match o {
        Some(v) => Some(copy_texts(v)),
        None => None,
    }
}

/// The agency a record describes, given the fetch interval in milliseconds
/// that its ninth field (counted from zero) holds.
pub open spec fn agency_of_record(r: Seq<Seq<char>>, a: AgencyInfo, fetch_interval_ms: u64) -> bool {
    &&& a.onetrip@ == r[0]
    &&& a.realtime_vehicle_positions@ == r[1]
    &&& a.realtime_trip_updates@ == r[2]
    &&& a.realtime_alerts@ == r[3]
    &&& a.has_auth == (r[4] == "true"@)
    &&& a.auth_type@ == r[5]
    &&& a.auth_header@ == r[6]
    &&& a.auth_password@ == r[7]
    &&& a.fetch_interval_ms == fetch_interval_ms
    &&& opt_texts(a.multiauth) == multiauth_of(r[9])
}

/// The columns of a configuration record: the feed id, the vehicle
/// positions, trip updates and alerts URLs, the authentication flag
/// (`true` or `false`), type, header and password, the fetch interval and
/// the comma-separated keys. The agency read from a record takes each
/// setting from its own column.
pub proof fn lemma_record_columns(r: Seq<Seq<char>>, a: AgencyInfo, fetch_interval_ms: u64)
    requires
        r.len() >= 10,
        agency_of_record(r, a, fetch_interval_ms),
    ensures
        a.onetrip@ == r[0],
        a.realtime_vehicle_positions@ == r[1],
        a.realtime_trip_updates@ == r[2],
        a.realtime_alerts@ == r[3],
        r[4] == "true"@ ==> a.has_auth,
        r[4] == "false"@ ==> !a.has_auth,
        a.auth_type@ == r[5],
        a.auth_header@ == r[6],
        a.auth_password@ == r[7],
        a.fetch_interval_ms == fetch_interval_ms,
{
    reveal_strlit("true");
    reveal_strlit("false");
    assert("true"@.len() != "false"@.len());
}

/// Reads an agency from a configuration record; the fetch interval, written
/// in seconds in the record, is given already converted to milliseconds.
pub fn agency_from_record(record: &Vec<String>, fetch_interval_ms: u64) -> (r: Result<AgencyInfo, RecordError>)
    ensures
        record@.len() < 10 <==> r matches Err(RecordError::MissingField),
        record@.len() >= 10 && !(record@[4]@ == "true"@ || record@[4]@ == "false"@)
            <==> r matches Err(RecordError::BadAuthFlag),
        r matches Ok(a) ==> agency_of_record(texts_of(record@), a, fetch_interval_ms),
        r matches Ok(a) ==> a.onetrip@ == record@[0]@ && a.realtime_vehicle_positions@ == record@[1]@
            && a.realtime_trip_updates@ == record@[2]@ && a.realtime_alerts@ == record@[3]@
            && a.auth_type@ == record@[5]@ && a.auth_header@ == record@[6]@ && a.auth_password@ == record@[7]@,
{
    if record.len() < 10 {
        return Err(RecordError::MissingField);
    }
    let has_auth = if same_text(record[4].as_str(), "true") {
        true
    } else if same_text(record[4].as_str(), "false") {
        false
    } else {
        return Err(RecordError::BadAuthFlag);
    };
    let a = AgencyInfo {
        onetrip: record[0].clone(),
        realtime_vehicle_positions: record[1].clone(),
        realtime_trip_updates: record[2].clone(),
        realtime_alerts: record[3].clone(),
        has_auth,
        auth_type: record[5].clone(),
        auth_header: record[6].clone(),
        auth_password: record[7].clone(),
        fetch_interval_ms,
        multiauth: convert_multiauth_to_vec(&record[9]),
    };
    Ok(a)
}


/// One fetch: a category of an agency's feed.
pub struct Reqquery {
    pub url: String,
    pub has_auth: bool,
    pub auth_type: String,
    pub auth_header: String,
    pub auth_password: String,
    /// `vehicles`, `trips` or `alerts`.
    pub category: String,
    pub multiauth: Option<Vec<String>>,
    pub onetrip: String,
    pub fetch_interval_ms: u64,
}

/// The name of category `c`: 0 is `vehicles`, 1 `trips`, 2 `alerts`.
pub open spec fn category_name(c: int) -> Seq<char> {
    if c == 0 {
        "vehicles"@
    } else if c == 1 {
        "trips"@
    } else {
        "alerts"@
    }
}

/// The URL of category `c` of an agency.
pub open spec fn category_url(a: AgencyInfo, c: int) -> Seq<char> {
    if c == 0 {
        a.realtime_vehicle_positions@
    } else if c == 1 {
        a.realtime_trip_updates@
    } else {
        a.realtime_alerts@
    }
}

/// An agency whose key is the placeholder `EXAMPLEKEY` is never fetched.
pub open spec fn agency_enabled(a: AgencyInfo) -> bool {
    a.auth_password@ != "EXAMPLEKEY"@
}

/// The categories fetched for an agency, in the order vehicles, trips,
/// alerts: those with a URL, and none for a disabled agency.
pub open spec fn agency_categories(a: AgencyInfo) -> Seq<int> {
    if !agency_enabled(a) {
        Seq::empty()
    } else {
        (if category_url(a, 0).len() > 0 { seq![0int] } else { Seq::empty() })
            + (if category_url(a, 1).len() > 0 { seq![1int] } else { Seq::empty() })
            + (if category_url(a, 2).len() > 0 { seq![2int] } else { Seq::empty() })
    }
}

/// The fetches asked for by a list of agencies: pairs of an agency's
/// position in the list and a category, agency by agency.
pub open spec fn planned_fetches(agencies: Seq<AgencyInfo>) -> Seq<(int, int)>
    decreases agencies.len(),
{
    if agencies.len() == 0 {
        Seq::empty()
    } else {
        let n: int = agencies.len() - 1;
        planned_fetches(agencies.drop_last()) + agency_categories(agencies.last()).map_values(
            |c: int| (n, c),
        )
    }
}

/// The fetch describes category `c` of agency `a`.
pub open spec fn fetch_of(q: Reqquery, a: AgencyInfo, c: int) -> bool {
    &&& q.url@ == category_url(a, c)
    &&& q.has_auth == a.has_auth
    &&& q.auth_type@ == a.auth_type@
    &&& q.auth_header@ == a.auth_header@
    &&& q.auth_password@ == a.auth_password@
    &&& q.category@ == category_name(c)
    &&& opt_texts(q.multiauth) == opt_texts(a.multiauth)
    &&& q.onetrip@ == a.onetrip@
    &&& q.fetch_interval_ms == a.fetch_interval_ms
}

/// The fetch of category `c` of an agency.
fn make_fetch(a: &AgencyInfo, c: u8) -> (q: Reqquery)
    requires
        c < 3,
    ensures
        fetch_of(q, *a, c as int),
{
    let url = if c == 0 {
        a.realtime_vehicle_positions.clone()
    } else if c == 1 {
        a.realtime_trip_updates.clone()
    } else {
        a.realtime_alerts.clone()
    };
    let category = if c == 0 {
        String::from_str("vehicles")
    } else if c == 1 {
        String::from_str("trips")
    } else {
        String::from_str("alerts")
    };
    let multiauth = copy_opt_texts(&a.multiauth);
    proof {
        if multiauth is Some {
            assert(texts_of(multiauth.unwrap()@) =~= texts_of(a.multiauth.unwrap()@));
        }
    }
    Reqquery {
        url,
        has_auth: a.has_auth,
        auth_type: a.auth_type.clone(),
        auth_header: a.auth_header.clone(),
        auth_password: a.auth_password.clone(),
        category,
        multiauth,
        onetrip: a.onetrip.clone(),
        fetch_interval_ms: a.fetch_interval_ms,
    }
}

/// The fetches of one agency.
fn agency_fetches(a: &AgencyInfo) -> (r: Vec<Reqquery>)
    ensures
        r@.len() == agency_categories(*a).len(),
        forall|j: int| 0 <= j < r@.len() ==> fetch_of(#[trigger] r@[j], *a, agency_categories(*a)[j]),
{
    let mut out: Vec<Reqquery> = Vec::new();
    let ghost mut cats: Seq<int> = Seq::empty();
    if !same_text(a.auth_password.as_str(), "EXAMPLEKEY") {
        if !a.realtime_vehicle_positions.as_str().is_empty() {
            out.push(make_fetch(a, 0));
            proof { cats = cats.push(0); }
        }
        if !a.realtime_trip_updates.as_str().is_empty() {
            out.push(make_fetch(a, 1));
            proof { cats = cats.push(1); }
        }
        if !a.realtime_alerts.as_str().is_empty() {
            out.push(make_fetch(a, 2));
            proof { cats = cats.push(2); }
        }
    }
    assert(cats =~= agency_categories(*a));
    out
}

/// The fetches asked for by the configured agencies: for each agency in
/// turn, unless its key is the placeholder `EXAMPLEKEY`, one fetch for each
/// of its vehicle positions, trip updates and alerts URLs that is not empty.
pub fn requests_for_agencies(agencies: &Vec<AgencyInfo>) -> (r: Vec<Reqquery>)
    ensures
        r@.len() == planned_fetches(agencies@).len(),
        forall|i: int| 0 <= i < r@.len() ==> {
            let (k, c) = #[trigger] planned_fetches(agencies@)[i];
            0 <= k < agencies@.len() && fetch_of(r@[i], agencies@[k], c)
        },
{
    let mut out: Vec<Reqquery> = Vec::new();
    let mut i: usize = 0;
    assert(agencies@.take(0) =~= Seq::<AgencyInfo>::empty());
    while i < agencies.len()
        invariant
            i <= agencies@.len(),
            out@.len() == planned_fetches(agencies@.take(i as int)).len(),
            forall|m: int| 0 <= m < out@.len() ==> {
                let (k, c) = #[trigger] planned_fetches(agencies@.take(i as int))[m];
                0 <= k < i && fetch_of(out@[m], agencies@[k], c)
            },
        decreases agencies.len() - i,
    {
        let more = agency_fetches(&agencies[i]);
        let ghost before = planned_fetches(agencies@.take(i as int));
        let ghost out0 = out@;
        let mut j: usize = 0;
        while j < more.len()
            invariant
                j <= more@.len(),
                out@.len() == out0.len() + j,
                forall|m: int| 0 <= m < out0.len() ==> out@[m] == out0[m],
                forall|m: int| 0 <= m < j ==> same_fetch(#[trigger] out@[out0.len() + m], more@[m]),
            decreases more.len() - j,
        {
            let ghost prev = out@;
            // Moving the fetch out of `more` is not possible from a shared
            // borrow; rebuild it field by field.
            let q = copy_fetch(&more[j]);
            out.push(q);
            j = j + 1;
        }
        proof {
            let a = agencies@[i as int];
            assert(agencies@.take(i + 1).drop_last() =~= agencies@.take(i as int));
            assert(agencies@.take(i + 1).last() == a);
            let now = planned_fetches(agencies@.take(i + 1));
            assert(now == before + agency_categories(a).map_values(|c: int| (i as int, c)));
            assert forall|m: int| 0 <= m < out@.len() implies {
                let (k, c) = #[trigger] planned_fetches(agencies@.take(i + 1))[m];
                0 <= k < i + 1 && fetch_of(out@[m], agencies@[k], c)
            } by {
                if m < out0.len() {
                    assert(now[m] == before[m]);
                } else {
                    let t: int = m - out0.len();
                    assert(now[m] == (i as int, agency_categories(a)[t]));
                    assert(same_fetch(out@[out0.len() + t], more@[t]));
                }
            }
        }
        i = i + 1;
    }
    assert(agencies@.take(agencies@.len() as int) =~= agencies@);
    out
}

/// The two fetches hold the same values.
pub open spec fn same_fetch(r: Reqquery, q: Reqquery) -> bool {
    &&& r.url@ == q.url@
    &&& r.has_auth == q.has_auth
    &&& r.auth_type@ == q.auth_type@
    &&& r.auth_header@ == q.auth_header@
    &&& r.auth_password@ == q.auth_password@
    &&& r.category@ == q.category@
    &&& opt_texts(r.multiauth) == opt_texts(q.multiauth)
    &&& r.onetrip@ == q.onetrip@
    &&& r.fetch_interval_ms == q.fetch_interval_ms
}

/// A copy of a fetch.
fn copy_fetch(q: &Reqquery) -> (r: Reqquery)
    ensures
        same_fetch(r, *q),
{
    let multiauth = copy_opt_texts(&q.multiauth);
    proof {
        if multiauth is Some {
            assert(texts_of(multiauth.unwrap()@) =~= texts_of(q.multiauth.unwrap()@));
        }
    }
    Reqquery {
        url: q.url.clone(),
        has_auth: q.has_auth,
        auth_type: q.auth_type.clone(),
        auth_header: q.auth_header.clone(),
        auth_password: q.auth_password.clone(),
        category: q.category.clone(),
        multiauth,
        onetrip: q.onetrip.clone(),
        fetch_interval_ms: q.fetch_interval_ms,
    }
}


/// Every planned fetch names an agency of the list.
pub proof fn lemma_planned_fetches_in_range(agencies: Seq<AgencyInfo>, m: int)
    requires
        0 <= m < planned_fetches(agencies).len(),
    ensures
        0 <= planned_fetches(agencies)[m].0 < agencies.len(),
        agency_categories(agencies[planned_fetches(agencies)[m].0]).contains(planned_fetches(agencies)[m].1),
    decreases agencies.len(),
{
    let init = agencies.drop_last();
    let before = planned_fetches(init);
    let n: int = agencies.len() - 1;
    let cats = agency_categories(agencies.last());
    if m < before.len() {
        lemma_planned_fetches_in_range(init, m);
        assert(planned_fetches(agencies)[m] == before[m]);
        assert(agencies[before[m].0] == init[before[m].0]);
    } else {
        let t: int = m - before.len();
        assert(planned_fetches(agencies)[m] == (n, cats[t]));
        assert(cats[t] == cats[t]);
    }
}

/// An agency whose key is the placeholder `EXAMPLEKEY` is never fetched.
pub proof fn lemma_placeholder_agency_not_fetched(agencies: Seq<AgencyInfo>, m: int)
    requires
        0 <= m < planned_fetches(agencies).len(),
    ensures
        agency_enabled(agencies[planned_fetches(agencies)[m].0]),
        category_url(agencies[planned_fetches(agencies)[m].0], planned_fetches(agencies)[m].1).len() > 0,
{
    lemma_planned_fetches_in_range(agencies, m);
    let (k, c) = planned_fetches(agencies)[m];
    let a = agencies[k];
    let cats = agency_categories(a);
    let i = choose|i: int| 0 <= i < cats.len() && cats[i] == c;
    if !agency_enabled(a) {
        assert(cats.len() == 0);
    }
    let c0: Seq<int> = if category_url(a, 0).len() > 0 { seq![0int] } else { Seq::empty() };
    let c1: Seq<int> = if category_url(a, 1).len() > 0 { seq![1int] } else { Seq::empty() };
    let c2: Seq<int> = if category_url(a, 2).len() > 0 { seq![2int] } else { Seq::empty() };
    assert(cats == c0 + c1 + c2);
    if i < c0.len() {
        assert(cats[i] == c0[i]);
    } else if i < c0.len() + c1.len() {
        assert(cats[i] == c1[i - c0.len()]);
    } else {
        assert(cats[i] == c2[i - c0.len() - c1.len()]);
    }
}

} // verus!
