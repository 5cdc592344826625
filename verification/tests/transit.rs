use kactus::ops::{fallback_action, fallback_units, ServiceAction};
use kactus::transit::{
    agency_names, convert, railroad_rest_ms, doublemap_routes_to_static, filter_capital_corridor, get_lirr_train_id, EntityKey,
    EntityRoutes, RouteKey, StaticRoute, SupportingVehicle, TrainKey, TrainVehicle,
};

fn routes(v: Option<&str>, t: Option<&str>) -> EntityRoutes {
    EntityRoutes { vehicle_trip_route_id: v.map(|s| s.to_string()), trip_update_route_id: t.map(|s| s.to_string()) }
}

#[test]
fn capitol_corridor_is_dropped() {
    let items = vec![
        ("a", routes(Some("84"), None)),
        ("b", routes(None, None)),
        ("c", routes(None, Some("84"))),
        ("d", routes(Some("40"), Some("40"))),
        ("e", routes(Some("840"), None)),
    ];
    let kept: Vec<&str> = filter_capital_corridor(items).into_iter().map(|(x, _)| x).collect();
    assert_eq!(kept, vec!["b", "d", "e"]);
}

#[test]
fn lirr_train_ids() {
    assert_eq!(get_lirr_train_id(Some("GO103_23_1234")), "1234");
    assert_eq!(get_lirr_train_id(Some("1234")), "1234");
    assert_eq!(get_lirr_train_id(Some("a_")), "");
    assert_eq!(get_lirr_train_id(None), "");
}

fn train(id: &str, railroad: &str, num: &str, ts: i32) -> TrainKey {
    TrainKey {
        train_id: id.to_string(),
        railroad: railroad.to_string(),
        train_num: num.to_string(),
        location_timestamp: ts,
    }
}

fn position(vehicle: &str, trip: Option<&str>) -> SupportingVehicle<String, String> {
    SupportingVehicle {
        vehicle: Some(vehicle.to_string()),
        trip: trip.map(|t| t.to_string()),
        current_stop_sequence: Some(4),
        stop_id: Some("GCT".to_string()),
        current_status: Some(2),
    }
}

fn entity(
    id: &str,
    trip_id: Option<&str>,
    vehicle: Option<SupportingVehicle<String, String>>,
    trip_update_route: Option<Option<&str>>,
) -> EntityKey<String, String> {
    EntityKey {
        id: id.to_string(),
        vehicle_trip_id: trip_id.map(|s| s.to_string()),
        vehicle,
        trip_update_route_id: trip_update_route.map(|r| r.map(|r| r.to_string())),
    }
}

fn unsupported(v: &TrainVehicle<String, String>) -> bool {
    v.vehicle.is_none()
        && v.trip.is_none()
        && v.trip_route_id.is_none()
        && v.current_stop_sequence.is_none()
        && v.stop_id.is_none()
        && v.current_status.is_none()
}

fn trains() -> Vec<TrainKey> {
    vec![
        train("M101", "MNR", "101", 10),
        train("L55", "LIRR", "55", 11),
        train("M102", "MNR", "102", 12),
        train("L56", "LIRR", "56", -1),
    ]
}

#[test]
fn metro_north_trains_take_their_entities() {
    let mnr = vec![
        entity("100", None, Some(position("v100", Some("t100"))), None),
        entity("101", None, Some(position("v101", Some("t101"))), Some(Some("3"))),
        entity("101", None, Some(position("v999", None)), None),
    ];
    let r = convert(&trains(), "MNR", &mnr).unwrap();
    assert_eq!(r.len(), 2);
    assert_eq!(r[0].0, 0);
    let v = &r[0].1;
    assert_eq!(v.id, "M101");
    assert_eq!(v.vehicle.as_deref(), Some("v101"));
    assert_eq!(v.trip.as_deref(), Some("t101"));
    assert_eq!(v.trip_route_id, Some(Some("3".to_string())));
    assert_eq!(v.current_stop_sequence, Some(4));
    assert_eq!(v.stop_id.as_deref(), Some("GCT"));
    assert_eq!(v.current_status, Some(2));
    assert_eq!(v.timestamp, 10);
    assert_eq!(r[1].0, 2);
    assert_eq!(r[1].1.id, "M102");
    assert!(unsupported(&r[1].1));
    // Without a trip update the trip's route id is cleared.
    let mnr = vec![entity("101", None, Some(position("v101", Some("t101"))), None)];
    assert_eq!(convert(&trains(), "MNR", &mnr).unwrap()[0].1.trip_route_id, Some(None));
    // A supporting entity without a vehicle position gives no entities.
    let mnr = vec![entity("101", None, None, None), entity("101", None, Some(position("v", None)), None)];
    assert!(convert(&trains(), "MNR", &mnr).is_none());
}

#[test]
fn long_island_trains_prefer_entities_with_vehicles() {
    let lirr = vec![
        entity("x", Some("GO_55"), None, None),
        entity("y", Some("GO_55"), Some(position("v9", Some("GO103_22_55"))), Some(Some("1"))),
        entity("z", Some("GO_56"), Some(position("v8", None)), None),
    ];
    let r = convert(&trains(), "LIRR", &lirr).unwrap();
    assert_eq!(r.len(), 2);
    assert_eq!(r[0].0, 1);
    assert_eq!(r[0].1.id, "L55");
    assert_eq!(r[0].1.vehicle.as_deref(), Some("v9"));
    assert_eq!(r[0].1.trip.as_deref(), Some("GO103_22_55"));
    assert_eq!(r[0].1.trip_route_id, None);
    assert_eq!(r[1].0, 3);
    assert_eq!(r[1].1.vehicle.as_deref(), Some("v8"));
    assert_eq!(r[1].1.timestamp, u64::MAX);
    // The only supporting entity has no vehicle position.
    let lirr = vec![entity("z", Some("GO_56"), None, None)];
    assert!(convert(&trains(), "LIRR", &lirr).is_none());
    assert!(convert(&trains(), "NJT", &lirr).unwrap().is_empty());
}

#[test]
fn doublemap_routes_find_static_ids() {
    let routes = vec![
        RouteKey { id: 1, short_name: Some("A".to_string()) },
        RouteKey { id: 2, short_name: Some("Z".to_string()) },
    ];
    let statics = vec![
        StaticRoute { short_name: "B".to_string(), route_id: "rb".to_string() },
        StaticRoute { short_name: "A".to_string(), route_id: "ra1".to_string() },
        StaticRoute { short_name: "A".to_string(), route_id: "ra2".to_string() },
    ];
    assert_eq!(doublemap_routes_to_static(&routes, &statics), vec![(1, Some("ra1".to_string())), (2, None)]);
}

#[test]
fn agency_list_takes_first_fields() {
    let records = vec![vec!["f-a".to_string(), "x".to_string()], vec![], vec!["f-b".to_string()]];
    assert_eq!(agency_names(&records), vec!["f-a", "f-b"]);
}

#[test]
fn fallback_watchdog() {
    assert!(matches!(fallback_action(Some(200)), ServiceAction::StopLocal));
    assert!(matches!(fallback_action(Some(502)), ServiceAction::StartLocal));
    assert!(matches!(fallback_action(None), ServiceAction::StartLocal));
    assert_eq!(fallback_units().len(), 4);
    assert_eq!(fallback_units()[0], "kactusserver.service");
}

#[test]
fn railroad_loop_rests_until_half_a_second() {
    assert_eq!(railroad_rest_ms(120), Some(380));
    assert_eq!(railroad_rest_ms(500), None);
    assert_eq!(railroad_rest_ms(9000), None);
}

#[test]
fn filtering_twice_is_filtering_once() {
    let items = vec![
        (1, routes(Some("84"), None)),
        (2, routes(None, None)),
        (3, routes(Some("1"), Some("84"))),
        (4, routes(Some("2"), None)),
    ];
    let once = filter_capital_corridor(items);
    let ids: Vec<i32> = once.iter().map(|(x, _)| *x).collect();
    assert_eq!(ids, vec![2, 4]);
    let again_input: Vec<(i32, EntityRoutes)> = once
        .iter()
        .map(|(x, r)| (*x, routes(r.vehicle_trip_route_id.as_deref(), r.trip_update_route_id.as_deref())))
        .collect();
    let twice: Vec<i32> = filter_capital_corridor(again_input).into_iter().map(|(x, _)| x).collect();
    assert_eq!(twice, ids);
}

