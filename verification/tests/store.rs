use kactus::insert::{insert_gtfs_rt, insert_gtfs_rt_bytes, send_to_aspen};
use kactus::keys::{
    agency_updated_key, data_key, exists_key, exists_key_pattern, feed_of_exists, stream_key, time_key,
    valid_key,
};
use kactus::text::parse_u64;

#[test]
fn keys_have_the_documented_shapes() {
    assert_eq!(data_key("f-metro~losangeles~bus~rt", "vehicles"), "gtfsrt|f-metro~losangeles~bus~rt|vehicles");
    assert_eq!(time_key("f-x", "trips"), "gtfsrttime|f-x|trips");
    assert_eq!(exists_key("f-x"), "gtfsrtexists|f-x");
    assert_eq!(exists_key_pattern(), "gtfsrtexists|*");
    assert_eq!(stream_key("f-x", "alerts"), "f-x-alerts");
    assert_eq!(valid_key("f-x", "alerts"), "gtfsrtvalid|f-x|alerts");
    assert_eq!(agency_updated_key("f-x"), "metagtfsrt|f-x|last_updated");
}

#[test]
fn exists_key_names_the_feed_back() {
    for feed in ["f-octa~rt", "", "a|b"] {
        assert_eq!(feed_of_exists(&exists_key(feed)), feed);
    }
    // A feed name holding the marker prefix is not given back unchanged.
    assert_eq!(feed_of_exists(&exists_key("gtfsrtexists|x")), "x");
}

#[test]
fn storing_bytes_writes_data_stream_time_and_marker() {
    let p = insert_gtfs_rt_bytes("f-amtrak~rt", "vehicles", 1700000000123);
    assert_eq!(p.data_key, "gtfsrt|f-amtrak~rt|vehicles");
    assert_eq!(p.stream_key.as_deref(), Some("f-amtrak~rt-vehicles"));
    assert_eq!(p.time_key, "gtfsrttime|f-amtrak~rt|vehicles");
    assert_eq!(p.exists_key, "gtfsrtexists|f-amtrak~rt");
    assert_eq!(p.stored_at, "1700000000123");
    assert_eq!(parse_u64(&p.stored_at), Some(1700000000123));
    assert_eq!(feed_of_exists(&p.exists_key), "f-amtrak~rt");
}

#[test]
fn storing_a_message_writes_no_stream() {
    let p = insert_gtfs_rt("f-mta~nyc~rt~lirr", "vehicles", 5);
    assert!(p.stream_key.is_none());
    assert_eq!(p.stored_at, "5");
    assert_eq!(p.data_key, "gtfsrt|f-mta~nyc~rt~lirr|vehicles");
}

#[test]
fn aspen_counts_generated_vehicle_feeds() {
    assert!(send_to_aspen("f-bart~rt", &None, &None, &None, false, false, false, false));
    assert!(send_to_aspen("f-mta~nyc~rt~mnr", &None, &None, &None, false, true, true, false));
    assert!(!send_to_aspen("f-metrolinktrains~rt", &None, &None, &None, false, true, true, false));
    assert!(send_to_aspen("f-amtrak~rt", &Some(vec![1]), &None, &None, true, true, false, false));
}
