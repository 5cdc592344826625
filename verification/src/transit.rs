//! Reshaping the feeds of particular agencies: dropping the Capitol Corridor
//! from Amtrak's feeds, pairing MTA trains with the GTFS-realtime entities
//! that support them, and naming the routes of DoubleMap and Swiftly feeds.
use vstd::prelude::*;
use vstd::string::StringExecFns;
use crate::text::{same_text, split_chars, split_on};

verus! {

broadcast use vstd::string::group_string_axioms;

// ---------------------------------------------------------------------------
// Amtrak.

/// The route ids an Amtrak feed entity carries: that of its vehicle's trip
/// and that of its trip update's trip.
pub struct EntityRoutes {
    pub vehicle_trip_route_id: Option<String>,
    pub trip_update_route_id: Option<String>,
}

/// The route id is that of the Capitol Corridor, `84`.
pub open spec fn is_capitol_corridor_route(r: Option<String>) -> bool {
    r matches Some(id) && id@ == "84"@
}

/// An entity is kept unless its vehicle's trip or its trip update's trip is
/// on the Capitol Corridor.
pub open spec fn keeps_entity(e: EntityRoutes) -> bool {
    !is_capitol_corridor_route(e.vehicle_trip_route_id) && !is_capitol_corridor_route(e.trip_update_route_id)
}

/// The entities, each with its route ids, whose route ids are kept, in order.
pub open spec fn kept_entities<T>(items: Seq<(T, EntityRoutes)>) -> Seq<(T, EntityRoutes)>
    decreases items.len(),
{
    if items.len() == 0 {
        Seq::empty()
    } else {
        let init = kept_entities(items.drop_last());
        if keeps_entity(items.last().1) {
            init.push(items.last())
        } else {
            init
        }
    }
}

/// Whether a route id is that of the Capitol Corridor.
fn capitol_corridor_route(r: &Option<String>) -> (b: bool)
    ensures
        b == is_capitol_corridor_route(*r),
{
    match r {
        Some(id) => same_text(id.as_str(), "84"),
        None => false,
    }
}

/// The feed entities without those on the Capitol Corridor; each entity
/// comes with the route ids it carries.
pub fn filter_capital_corridor<T>(entities: Vec<(T, EntityRoutes)>) -> (r: Vec<(T, EntityRoutes)>)
    ensures
        r@ == kept_entities(entities@),
{
    let n: usize = entities.len();
    let mut rest = entities;
    let mut out: Vec<(T, EntityRoutes)> = Vec::new();
    let ghost all = rest@;
    let mut i: usize = 0;
    assert(all.take(0) =~= Seq::<(T, EntityRoutes)>::empty());
    while rest.len() > 0
        invariant
            all.len() == n,
            i + rest@.len() == all.len(),
            rest@ == all.skip(i as int),
            out@ == kept_entities(all.take(i as int)),
        decreases rest.len(),
    {
        let x = rest.remove(0);
        proof {
            let t = all.take(i + 1);
            assert(t.drop_last() =~= all.take(i as int));
            assert(t.last() == x);
            assert(rest@ =~= all.skip(i + 1));
        }
        if !capitol_corridor_route(&x.1.vehicle_trip_route_id) && !capitol_corridor_route(&x.1.trip_update_route_id) {
            out.push(x);
        }
        i = i + 1;
    }
    assert(all.take(i as int) =~= all);
    out
}

/// Only the Capitol Corridor is dropped: the entities kept are, in order,
/// exactly those neither of whose route ids is `84`.
pub proof fn lemma_filter_drops_only_route_84<T>(items: Seq<(T, EntityRoutes)>)
    ensures
        kept_entities(items) == items.filter(
            (|p: (T, EntityRoutes)|
                !(p.1.vehicle_trip_route_id matches Some(id) && id@ == "84"@) && !(p.1.trip_update_route_id matches Some(
                    id,
                ) && id@ == "84"@)),
        ),
    decreases items.len(),
{
    reveal(Seq::filter);
    if items.len() > 0 {
        lemma_filter_drops_only_route_84(items.drop_last());
    }
}

/// Filtering twice gives what filtering once gives.
pub proof fn lemma_filter_idempotent<T>(items: Seq<(T, EntityRoutes)>)
    ensures
        kept_entities(kept_entities(items)) == kept_entities(items),
    decreases items.len(),
{
    if items.len() > 0 {
        lemma_filter_idempotent(items.drop_last());
        let a = kept_entities(items.drop_last());
        if keeps_entity(items.last().1) {
            let ap = a.push(items.last());
            assert(ap.drop_last() =~= a);
        }
    }
}

// ---------------------------------------------------------------------------
// MTA commuter railroads.

/// The train number of a Long Island Rail Road entity: the last part of its
/// vehicle's trip id, split at `_`, or empty when it has none.
pub open spec fn lirr_train_id_of(trip_id: Option<Seq<char>>) -> Seq<char> {
    match trip_id {
        Some(t) => split_on(t, '_').last(),
        None => Seq::<char>::empty(),
    }
}

/// The train number of a Long Island Rail Road entity, given its vehicle's
/// trip id.
pub fn get_lirr_train_id(trip_id: Option<&str>) -> (r: String)
    ensures
        r@ == lirr_train_id_of(match trip_id { Some(t) => Some(t@), None => None }),
{
    match trip_id {
        Some(t) => {
            let parts = split_chars(t, '_');
            let n: usize = parts.len();
            assert(n > 0) by {
                crate::text::lemma_split_shape(t@, '_');
            }
            parts[n - 1].clone()
        },
        None => String::new(),
    }
}

/// A train of the MTA train-location feed.
pub struct TrainKey {
    /// The train's id, which names its vehicle position entity.
    pub train_id: String,
    /// `MNR` or `LIRR`.
    pub railroad: String,
    pub train_num: String,
    /// The time stamp of the train's location.
    pub location_timestamp: i32,
}

/// The vehicle position of a GTFS-realtime entity, as a train's entity takes
/// it over: its vehicle descriptor, its trip, and where the vehicle stands.
pub struct SupportingVehicle<V, T> {
    pub vehicle: Option<V>,
    pub trip: Option<T>,
    pub current_stop_sequence: Option<u32>,
    pub stop_id: Option<String>,
    pub current_status: Option<i32>,
}

/// A GTFS-realtime entity of an MTA railroad's own feed.
pub struct EntityKey<V, T> {
    pub id: String,
    /// The trip id of the entity's vehicle, when it has a vehicle with a trip
    /// that has an id.
    pub vehicle_trip_id: Option<String>,
    /// The entity's vehicle position, if any.
    pub vehicle: Option<SupportingVehicle<V, T>>,
    /// `Some` with the route id of the trip of the entity's trip update, when
    /// it has a trip update.
    pub trip_update_route_id: Option<Option<String>>,
}

/// The vehicle position entity of a train: it carries a vehicle position
/// only (it is not marked deleted and has no trip update, alert or shape),
/// and its position comes from the train-location feed as it stands.
pub struct TrainVehicle<V, T> {
    /// The entity id: the train id of the location feed.
    pub id: String,
    pub vehicle: Option<V>,
    pub trip: Option<T>,
    /// `Some(r)` when the trip's route id is replaced by `r`.
    pub trip_route_id: Option<Option<String>>,
    pub current_stop_sequence: Option<u32>,
    pub stop_id: Option<String>,
    pub current_status: Option<i32>,
    /// The time stamp of the train's location.
    pub timestamp: u64,
}

/// The entity is about the train: for Metro-North its id is the train
/// number; for the Long Island Rail Road its vehicle's trip id ends in it.
pub open spec fn supports<V, T>(t: TrainKey, e: EntityKey<V, T>) -> bool {
    if t.railroad@ == "MNR"@ {
        t.train_num@ == e.id@
    } else if t.railroad@ == "LIRR"@ {
        t.train_num@ == lirr_train_id_of(match e.vehicle_trip_id { Some(x) => Some(x@), None => None })
    } else {
        false
    }
}

/// The first entity from position `j` on that supports the train (and has a
/// vehicle position, when `need_vehicle`).
pub open spec fn first_support<V, T>(t: TrainKey, es: Seq<EntityKey<V, T>>, j: int, need_vehicle: bool) -> Option<int>
    decreases es.len() - j,
{
    if j < 0 || j >= es.len() {
        None
    } else if supports(t, es[j]) && (!need_vehicle || es[j].vehicle is Some) {
        Some(j)
    } else {
        first_support(t, es, j + 1, need_vehicle)
    }
}

/// The entity that supports a train: for the Long Island Rail Road the first
/// supporting entity with a vehicle position, if any; otherwise the first
/// supporting entity.
pub open spec fn supporting_entity<V, T>(t: TrainKey, es: Seq<EntityKey<V, T>>) -> Option<int> {
    if t.railroad@ == "LIRR"@ && first_support(t, es, 0, true) is Some {
        first_support(t, es, 0, true)
    } else {
        first_support(t, es, 0, false)
    }
}

/// The positions of the trains of the railroad, in order.
pub open spec fn railroad_trains(trains: Seq<TrainKey>, railroad: Seq<char>) -> Seq<int>
    decreases trains.len(),
{
    if trains.len() == 0 {
        Seq::empty()
    } else {
        let init = railroad_trains(trains.drop_last(), railroad);
        if trains.last().railroad@ == railroad {
            init.push(trains.len() - 1)
        } else {
            init
        }
    }
}

/// `b` is a clone of `a`, or both are absent.
pub open spec fn opt_cloned<X: Clone>(a: Option<X>, b: Option<X>) -> bool {
    match a {
        Some(x) => b matches Some(y) && cloned(x, y),
        None => b is None,
    }
}

/// The route id that a Metro-North train's trip takes: that of the
/// supporting entity's trip update, none when it has no trip update.
pub open spec fn mnr_route_id(s: Option<Option<String>>) -> Option<String> {
    match s {
        Some(r) => r,
        None => None,
    }
}

/// `r` is the vehicle position entity of the train `t` of `railroad`, given
/// the entity that supports it, if any: the entity id is the train id and
/// the time stamp that of the train's location; the vehicle descriptor, trip,
/// stop sequence, stop and status are those of the supporting entity's
/// vehicle position (which it must have); for Metro-North a trip takes the
/// route id of the supporting entity's trip update.
pub open spec fn is_train_vehicle<V: Clone, T: Clone>(
    t: TrainKey,
    railroad: Seq<char>,
    e: Option<EntityKey<V, T>>,
    r: TrainVehicle<V, T>,
) -> bool {
    &&& r.id@ == t.train_id@
    &&& r.timestamp == t.location_timestamp as u64
    &&& match e {
        Some(e) => e.vehicle matches Some(s) && {
            &&& opt_cloned(s.vehicle, r.vehicle)
            &&& opt_cloned(s.trip, r.trip)
            &&& r.current_stop_sequence == s.current_stop_sequence
            &&& r.stop_id == s.stop_id
            &&& r.current_status == s.current_status
            &&& r.trip_route_id == if railroad == "MNR"@ && s.trip is Some {
                Some(mnr_route_id(e.trip_update_route_id))
            } else {
                None::<Option<String>>
            }
        },
        None => {
            &&& r.vehicle is None
            &&& r.trip is None
            &&& r.trip_route_id is None
            &&& r.current_stop_sequence is None
            &&& r.stop_id is None
            &&& r.current_status is None
        },
    }
}

/// Whether the entity supports the train.
fn entity_supports<V, T>(t: &TrainKey, e: &EntityKey<V, T>) -> (b: bool)
    ensures
        b == supports(*t, *e),
{
    if same_text(t.railroad.as_str(), "MNR") {
        same_text(t.train_num.as_str(), e.id.as_str())
    } else if same_text(t.railroad.as_str(), "LIRR") {
        let id = match &e.vehicle_trip_id {
            Some(x) => get_lirr_train_id(Some(x.as_str())),
            None => get_lirr_train_id(None),
        };
        same_text(t.train_num.as_str(), id.as_str())
    } else {
        false
    }
}

/// The first entity that supports the train (and has a vehicle position,
/// when `need_vehicle`).
fn find_support<V, T>(t: &TrainKey, es: &Vec<EntityKey<V, T>>, need_vehicle: bool) -> (r: Option<usize>)
    ensures
        match r {
            Some(j) => first_support(*t, es@, 0, need_vehicle) == Some(j as int) && j < es@.len(),
            None => first_support(*t, es@, 0, need_vehicle) is None,
        },
{
    let mut j: usize = 0;
    while j < es.len()
        invariant
            j <= es@.len(),
            first_support(*t, es@, 0, need_vehicle) == first_support(*t, es@, j as int, need_vehicle),
        decreases es.len() - j,
    {
        if entity_supports(t, &es[j]) && (!need_vehicle || es[j].vehicle.is_some()) {
            return Some(j);
        }
        j = j + 1;
    }
    None
}

/// A copy of an optional text.
fn copy_opt_text(o: &Option<String>) -> (r: Option<String>)
    ensures
        r == *o,
{
    match o {
        Some(x) => Some(x.clone()),
        None => None,
    }
}

/// The vehicle position entity of the train `t` of `railroad`, given the
/// entity that supports it, if any.
fn train_vehicle<V: Clone, T: Clone>(t: &TrainKey, railroad: &str, e: Option<&EntityKey<V, T>>) -> (r: TrainVehicle<V, T>)
    requires
        e matches Some(e) ==> e.vehicle is Some,
    ensures
        is_train_vehicle(*t, railroad@, match e { Some(e) => Some(*e), None => None }, r),
{
    #[verifier::truncate]
    let timestamp: u64 = t.location_timestamp as u64;
    match e {
        Some(e) => {
            let s = match &e.vehicle {
                Some(s) => s,
                None => {
                    assert(false);
                    return TrainVehicle {
                        id: t.train_id.clone(),
                        vehicle: None,
                        trip: None,
                        trip_route_id: None,
                        current_stop_sequence: None,
                        stop_id: None,
                        current_status: None,
                        timestamp,
                    };
                },
            };
            let trip_route_id = if same_text(railroad, "MNR") && s.trip.is_some() {
                Some(
                    match &e.trip_update_route_id {
                        Some(r) => copy_opt_text(r),
                        None => None,
                    },
                )
            } else {
                None
            };
            TrainVehicle {
                id: t.train_id.clone(),
                vehicle: s.vehicle.clone(),
                trip: s.trip.clone(),
                trip_route_id,
                current_stop_sequence: s.current_stop_sequence,
                stop_id: copy_opt_text(&s.stop_id),
                current_status: s.current_status,
                timestamp,
            }
        },
        None => TrainVehicle {
            id: t.train_id.clone(),
            vehicle: None,
            trip: None,
            trip_route_id: None,
            current_stop_sequence: None,
            stop_id: None,
            current_status: None,
            timestamp,
        },
    }
}

/// The railroad's trains of a prefix of the location feed come first among
/// those of the whole feed.
proof fn lemma_trains_prefix(trains: Seq<TrainKey>, railroad: Seq<char>, m: int)
    requires
        0 <= m <= trains.len(),
    ensures
        railroad_trains(trains.take(m), railroad).len() <= railroad_trains(trains, railroad).len(),
        forall|k: int|
            0 <= k < railroad_trains(trains.take(m), railroad).len() ==> railroad_trains(trains, railroad)[k]
                == #[trigger] railroad_trains(trains.take(m), railroad)[k],
    decreases trains.len(),
{
    if m == trains.len() {
        assert(trains.take(m) =~= trains);
    } else {
        assert(trains.drop_last().take(m) =~= trains.take(m));
        lemma_trains_prefix(trains.drop_last(), railroad, m);
    }
}

/// A train of the railroad whose supporting entity has no vehicle position.
pub open spec fn lacks_vehicle<V, T>(mta: Seq<TrainKey>, railroad: Seq<char>, es: Seq<EntityKey<V, T>>) -> bool {
    exists|k: int|
        0 <= k < railroad_trains(mta, railroad).len() && (supporting_entity(
            mta[#[trigger] railroad_trains(mta, railroad)[k]],
            es,
        ) matches Some(j) && es[j].vehicle is None)
}

/// The vehicle position entities of the trains of a railroad, in the order
/// of the location feed, each built from the entity of the railroad's own
/// feed that supports it. `None` when the entity that supports a train has
/// no vehicle position, which the entity cannot be built from. Each entity
/// comes with the position of its train in the location feed, whose
/// location it takes.
pub fn convert<V: Clone, T: Clone>(
    mta: &Vec<TrainKey>,
    railroad: &str,
    input_gtfs_trips: &Vec<EntityKey<V, T>>,
) -> (r: Option<Vec<(usize, TrainVehicle<V, T>)>>)
    ensures
        r is None <==> lacks_vehicle(mta@, railroad@, input_gtfs_trips@),
        r matches Some(v) ==> v@.len() == railroad_trains(mta@, railroad@).len() && forall|k: int|
            0 <= k < v@.len() ==> {
                let i = #[trigger] railroad_trains(mta@, railroad@)[k];
                &&& v@[k].0 == i
                &&& is_train_vehicle(
                    mta@[i],
                    railroad@,
                    match supporting_entity(mta@[i], input_gtfs_trips@) {
                        Some(j) => Some(input_gtfs_trips@[j]),
                        None => None,
                    },
                    v@[k].1,
                )
            },
{
    let mut out: Vec<(usize, TrainVehicle<V, T>)> = Vec::new();
    let mut i: usize = 0;
    assert(mta@.take(0) =~= Seq::<TrainKey>::empty());
    while i < mta.len()
        invariant
            i <= mta@.len(),
            out@.len() == railroad_trains(mta@.take(i as int), railroad@).len(),
            forall|k: int| 0 <= k < out@.len() ==> {
                let m = #[trigger] railroad_trains(mta@.take(i as int), railroad@)[k];
                &&& 0 <= m < i
                &&& out@[k].0 == m
                &&& is_train_vehicle(
                    mta@[m],
                    railroad@,
                    match supporting_entity(mta@[m], input_gtfs_trips@) {
                        Some(j) => Some(input_gtfs_trips@[j]),
                        None => None,
                    },
                    out@[k].1,
                )
            },
        decreases mta.len() - i,
    {
        let t = &mta[i];
        let ghost before = railroad_trains(mta@.take(i as int), railroad@);
        proof {
            assert(mta@.take(i + 1).drop_last() =~= mta@.take(i as int));
            assert(mta@.take(i + 1).last() == mta@[i as int]);
        }
        if same_text(t.railroad.as_str(), railroad) {
            let first = find_support(t, input_gtfs_trips, false);
            let chosen = if same_text(t.railroad.as_str(), "LIRR") {
                match find_support(t, input_gtfs_trips, true) {
                    Some(j) => Some(j),
                    None => first,
                }
            } else {
                first
            };
            let e = match chosen {
                Some(j) => {
                    if input_gtfs_trips[j].vehicle.is_none() {
                        proof {
                            let now = railroad_trains(mta@.take(i + 1), railroad@);
                            assert(now == before.push(i as int));
                            lemma_trains_prefix(mta@, railroad@, i + 1);
                            let k = before.len() as int;
                            assert(railroad_trains(mta@, railroad@)[k] == now[k]);
                        }
                        return None;
                    }
                    Some(&input_gtfs_trips[j])
                },
                None => None,
            };
            let v = train_vehicle(t, railroad, e);
            out.push((i, v));
            proof {
                let now = railroad_trains(mta@.take(i + 1), railroad@);
                assert(now == before.push(i as int));
                assert forall|k: int| 0 <= k < out@.len() implies {
                    let m = #[trigger] railroad_trains(mta@.take(i + 1), railroad@)[k];
                    &&& 0 <= m < i + 1
                    &&& out@[k].0 == m
                    &&& is_train_vehicle(
                        mta@[m],
                        railroad@,
                        match supporting_entity(mta@[m], input_gtfs_trips@) {
                            Some(j) => Some(input_gtfs_trips@[j]),
                            None => None,
                        },
                        out@[k].1,
                    )
                } by {
                    if k < before.len() {
                        assert(now[k] == before[k]);
                    }
                }
            }
        } else {
            proof {
                let now = railroad_trains(mta@.take(i + 1), railroad@);
                assert(now == before);
            }
        }
        i = i + 1;
    }
    assert(mta@.take(mta@.len() as int) =~= mta@);
    Some(out)
}

/// How long the railroad loop rests after a round that took `elapsed_ms`:
/// until half a second has passed since the round began.
pub fn railroad_rest_ms(elapsed_ms: u64) -> (r: Option<u64>)
    ensures
        r == if elapsed_ms < 500 { Some((500 - elapsed_ms) as u64) } else { None::<u64> },
{
    if elapsed_ms < 500 {
        Some(500 - elapsed_ms)
    } else {
        None
    }
}

// ---------------------------------------------------------------------------
// DoubleMap.

/// A route of the DoubleMap feed.
pub struct RouteKey {
    pub id: i32,
    pub short_name: Option<String>,
}

/// A route of the agency's static schedule.
pub struct StaticRoute {
    pub short_name: String,
    pub route_id: String,
}

/// The first static route from position `j` on with the given short name.
pub open spec fn first_static_route(statics: Seq<StaticRoute>, name: Seq<char>, j: int) -> Option<int>
    decreases statics.len() - j,
{
    if j < 0 || j >= statics.len() {
        None
    } else if statics[j].short_name@ == name {
        Some(j)
    } else {
        first_static_route(statics, name, j + 1)
    }
}

/// Each DoubleMap route with the id of the first static route of the same
/// short name, if any.
pub fn doublemap_routes_to_static(routes: &Vec<RouteKey>, statics: &Vec<StaticRoute>) -> (r: Vec<(i32, Option<String>)>)
    requires
        forall|i: int| 0 <= i < routes@.len() ==> (#[trigger] routes@[i]).short_name is Some,
    ensures
        r@.len() == routes@.len(),
        forall|i: int| 0 <= i < r@.len() ==> {
            let name = routes@[i].short_name->0@;
            &&& (#[trigger] r@[i]).0 == routes@[i].id
            &&& match first_static_route(statics@, name, 0) {
                Some(j) => r@[i].1 matches Some(id) && id@ == statics@[j].route_id@,
                None => r@[i].1 is None,
            }
        },
{
    let mut out: Vec<(i32, Option<String>)> = Vec::new();
    let mut i: usize = 0;
    while i < routes.len()
        invariant
            forall|i: int| 0 <= i < routes@.len() ==> (#[trigger] routes@[i]).short_name is Some,
            i <= routes@.len(),
            out@.len() == i,
            forall|k: int| 0 <= k < i ==> {
                let name = routes@[k].short_name->0@;
                &&& (#[trigger] out@[k]).0 == routes@[k].id
                &&& match first_static_route(statics@, name, 0) {
                    Some(j) => out@[k].1 matches Some(id) && id@ == statics@[j].route_id@,
                    None => out@[k].1 is None,
                }
            },
        decreases routes.len() - i,
    {
        let route = &routes[i];
        assert(routes@[i as int].short_name is Some);
        let name = match &route.short_name {
            Some(n) => n,
            None => {
                assert(false);
                return out;
            },
        };
        let mut j: usize = 0;
        let mut found: Option<String> = None;
        while j < statics.len()
            invariant_except_break
                found is None,
            invariant
                j <= statics@.len(),
                first_static_route(statics@, name@, 0) == first_static_route(statics@, name@, j as int),
            ensures
                match first_static_route(statics@, name@, 0) {
                    Some(m) => found matches Some(id) && id@ == statics@[m].route_id@,
                    None => found is None,
                },
            decreases statics.len() - j,
        {
            if same_text(statics[j].short_name.as_str(), name.as_str()) {
                found = Some(statics[j].route_id.clone());
                break;
            }
            j = j + 1;
        }
        out.push((route.id, found));
        i = i + 1;
    }
    out
}

// ---------------------------------------------------------------------------
// Swiftly.

/// The URL of the Swiftly routes-details file of an agency.
pub fn get_routes_url(swiftly_id: &String) -> (r: String)
    ensures
        r@ == "https://transitime-api.goswift.ly/api/v1/key/81YENWXv/agency/"@ + swiftly_id@
            + "/command/routesDetails"@,
{
    let mut s = String::from_str("https://transitime-api.goswift.ly/api/v1/key/81YENWXv/agency/");
    s.append(swiftly_id.as_str());
    s.append("/command/routesDetails");
    s
}

/// The URL of the Swiftly vehicles-details file of a route of an agency.
pub fn vehicles_details_url(swiftly_id: &String, route_id: &String) -> (r: String)
    ensures
        r@ == "https://transitime-api.goswift.ly/api/v1/key/81YENWXv/agency/"@ + swiftly_id@
            + "/command/vehiclesDetails?r="@ + route_id@,
{
    let mut s = String::from_str("https://transitime-api.goswift.ly/api/v1/key/81YENWXv/agency/");
    s.append(swiftly_id.as_str());
    s.append("/command/vehiclesDetails?r=");
    s.append(route_id.as_str());
    s
}

// ---------------------------------------------------------------------------
// The list of configured agencies.

/// The first fields of the records that have at least one, in order.
pub open spec fn first_fields(records: Seq<Vec<String>>) -> Seq<Seq<char>>
    decreases records.len(),
{
    if records.len() == 0 {
        Seq::empty()
    } else {
        let init = first_fields(records.drop_last());
        if records.last()@.len() > 0 {
            init.push(records.last()@[0]@)
        } else {
            init
        }
    }
}

/// The agencies of the configuration file: the first field of each record
/// that has one.
pub fn agency_names(records: &Vec<Vec<String>>) -> (r: Vec<String>)
    ensures
        r@.len() == first_fields(records@).len(),
        forall|i: int| 0 <= i < r@.len() ==> #[trigger] r@[i]@ == first_fields(records@)[i],
{
    let mut out: Vec<String> = Vec::new();
    let mut i: usize = 0;
    assert(records@.take(0) =~= Seq::<Vec<String>>::empty());
    while i < records.len()
        invariant
            i <= records@.len(),
            out@.len() == first_fields(records@.take(i as int)).len(),
            forall|k: int| 0 <= k < out@.len() ==> #[trigger] out@[k]@ == first_fields(records@.take(i as int))[k],
        decreases records.len() - i,
    {
        proof {
            assert(records@.take(i + 1).drop_last() =~= records@.take(i as int));
            assert(records@.take(i + 1).last() == records@[i as int]);
        }
        if records[i].len() > 0 {
            out.push(records[i][0].clone());
        }
        i = i + 1;
    }
    assert(records@.take(records@.len() as int) =~= records@);
    out
}

} // verus!
