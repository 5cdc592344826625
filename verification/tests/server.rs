use kactus::server::{
    check_stored_time, feed_hash, feed_times, feeds_from_exists_keys, gtfsrt, json_requested, open_session,
    query_is_readable, request_target, GtfsWs, Reply, StoredTime, WsAction,
};
use kactus::insert::insert_gtfs_rt_bytes;
use kactus::keys::{data_key, exists_key, time_key};
use kactus::text::parse_u64;

fn text(r: &Reply) -> (u16, bool, String) {
    match r {
        Reply::Text { status, plain, body } => (*status, *plain, body.clone()),
        _ => panic!("not a text reply"),
    }
}

#[test]
fn requests_must_name_feed_and_category() {
    let e = request_target("category=vehicles").err().unwrap();
    assert_eq!(text(&e), (404, true, "Error: No feed specified\n".to_string()));
    let e = request_target("feed=f-x").err().unwrap();
    assert_eq!(text(&e), (404, true, "Error: No category specified\n".to_string()));
    let t = request_target("?feed=f-metro~losangeles~bus~rt&category=vehicles").ok().unwrap();
    assert_eq!(t.feed, "f-metro~losangeles~bus~rt");
    assert_eq!(t.category, "vehicles");
}

#[test]
fn missing_category_is_not_found() {
    let e = check_stored_time(&StoredTime::Missing).unwrap();
    assert_eq!(text(&e), (404, true, "Error in connecting to redis\n".to_string()));
    let e = check_stored_time(&StoredTime::Unreachable).unwrap();
    assert_eq!(text(&e), (500, true, "Error in connecting to redis\n".to_string()));
    assert!(check_stored_time(&StoredTime::Found(1)).is_none());
    let r = gtfsrt("feed=f&category=c", &StoredTime::Missing, b"x", None);
    assert_eq!(text(&r).0, 404);
}

#[test]
fn metro_hash_of_decodable_feeds() {
    assert_eq!(feed_hash(b"hello", true), fasthash::metro::hash64(b"hello"));
    assert_eq!(feed_hash(b"hello", true), feed_hash(b"hello", true));
    assert_ne!(feed_hash(b"hello", true), feed_hash(b"helloworld", true));
}

#[test]
fn feeds_are_sent_with_their_hash() {
    let data = b"hello";
    let r = gtfsrt("feed=f&category=c", &StoredTime::Found(100), data, Some(Some(50)));
    let expected = fasthash::metro::hash64(b"hello");
    assert!(matches!(r, Reply::Feed { hash: Some(h) } if h == expected));
}

#[test]
fn raw_download_has_no_hash() {
    let r = gtfsrt("feed=f&category=c&suicidebutton=true&timeofcache=999", &StoredTime::Found(100), b"x", None);
    assert!(matches!(r, Reply::Feed { hash: None }));
    let r = gtfsrt("feed=f&category=c&suicidebutton=yes", &StoredTime::Found(100), b"hello", Some(None));
    assert!(matches!(r, Reply::Feed { hash: Some(_) }));
}

#[test]
fn current_copies_are_not_resent() {
    let q = "feed=f&category=c&timeofcache=100";
    assert!(matches!(gtfsrt(q, &StoredTime::Found(100), b"hello", Some(None)), Reply::NoContent));
    assert!(matches!(gtfsrt(q, &StoredTime::Found(200), b"hello", Some(Some(90))), Reply::NoContent));
    assert!(matches!(gtfsrt(q, &StoredTime::Found(200), b"hello", Some(Some(150))), Reply::Feed { .. }));
    let q = &format!("feed=f&category=c&timeofcache=1&bodyhash={}", fasthash::metro::hash64(b"hello"));
    assert!(matches!(gtfsrt(q, &StoredTime::Found(200), b"hello", Some(Some(150))), Reply::NoContent));
    let q = &format!("feed=f&category=c&bodyhash={}", fasthash::metro::hash64(b"hello"));
    assert!(matches!(gtfsrt(q, &StoredTime::Found(200), b"hello", Some(Some(150))), Reply::Feed { .. }));
    let q = &format!("feed=f&category=c&timeofcache=notanumber&bodyhash={}", fasthash::metro::hash64(b"hello"));
    assert!(matches!(gtfsrt(q, &StoredTime::Found(200), b"hello", Some(Some(150))), Reply::NoContent));
}

#[test]
fn undecodable_feeds_fail_unless_skipped() {
    let q = "feed=f&category=c&timeofcache=1";
    let r = gtfsrt(q, &StoredTime::Found(200), b"junk", None);
    assert_eq!(text(&r), (500, false, "protobuf failed to parse".to_string()));
    let q = "feed=f&category=c&timeofcache=1&skipfailure=true";
    assert!(matches!(gtfsrt(q, &StoredTime::Found(200), b"junk", None), Reply::Feed { hash: Some(_) }));
    let q = "feed=f&category=c";
    assert!(matches!(gtfsrt(q, &StoredTime::Found(200), b"junk", None), Reply::Feed { hash: Some(_) }));
}

#[test]
fn json_unless_raw() {
    assert!(json_requested("feed=f&category=c"));
    assert!(!json_requested("feed=f&category=c&raw=true"));
    assert!(json_requested("feed=f&category=c&raw=1"));
}

#[test]
fn websocket_sessions() {
    let s = open_session("feed=f&category=c&suicidebutton").ok().unwrap();
    assert_eq!(s.feed, "f");
    assert!(s.suicidebutton);
    let s = open_session("feed=f&category=c").ok().unwrap();
    assert!(!s.suicidebutton);
    assert!(open_session("feed=f").is_err());
    let ws = GtfsWs { feed: "f".to_string(), category: "c".to_string(), suicidebutton: false };
    assert!(matches!(ws.started(false, true), WsAction::ReportUnreachable));
    assert!(matches!(ws.started(true, false), WsAction::ReportReadError));
    assert!(matches!(ws.started(true, true), WsAction::SendFeed));
}

#[test]
fn feed_list_is_sorted() {
    let keys: Vec<String> =
        ["gtfsrtexists|f-b", "gtfsrtexists|f-a", "gtfsrtexists|f-c~rt"].iter().map(|s| s.to_string()).collect();
    assert_eq!(feeds_from_exists_keys(keys), vec!["f-a", "f-b", "f-c~rt"]);
    let t = feed_times("f-a".to_string(), Some(1), None, Some(3));
    assert_eq!(t.feed, "f-a");
    assert_eq!((t.vehicles, t.trips, t.alerts), (Some(1), None, Some(3)));
}

#[test]
fn feed_requests_without_feed_or_category_are_not_found() {
    let r = gtfsrt("category=vehicles", &StoredTime::Found(1), b"x", None);
    assert_eq!(text(&r), (404, true, "Error: No feed specified\n".to_string()));
    let r = gtfsrt("?feed=f-x", &StoredTime::Found(1), b"x", None);
    assert_eq!(text(&r), (404, true, "Error: No category specified\n".to_string()));
    let r = gtfsrt("", &StoredTime::Unreachable, b"", None);
    assert_eq!(text(&r), (404, true, "Error: No feed specified\n".to_string()));
}

#[test]
fn query_reader_slice_points() {
    assert!(query_is_readable("feed=f-x&category=vehicles"));
    assert!(query_is_readable("feed=\u{e9}&category=c"));
    assert!(query_is_readable("a\u{e9}b"));
    assert!(!query_is_readable("\u{e9}"));
    assert!(!query_is_readable("?\u{e9}"));
    assert!(!query_is_readable("a&\u{e9}"));
    assert!(!query_is_readable("=\u{e9}"));
    assert!(query_is_readable("x=\u{e9}"));
}

#[test]
fn stored_feed_is_served() {
    let p = insert_gtfs_rt_bytes("f-amtrak~rt", "vehicles", 1700000000123);
    let t = request_target("feed=f-amtrak~rt&category=vehicles").ok().unwrap();
    assert_eq!(data_key(&t.feed, &t.category), p.data_key);
    assert_eq!(time_key(&t.feed, &t.category), p.time_key);
    let stored = parse_u64(&p.stored_at).unwrap();
    assert_eq!(stored, 1700000000123);
    let data = b"stored bytes";
    let r = gtfsrt("feed=f-amtrak~rt&category=vehicles", &StoredTime::Found(stored), data, Some(Some(5)));
    assert!(matches!(r, Reply::Feed { hash: Some(h) } if h == fasthash::metro::hash64(data)));
}

#[test]
fn stored_feed_is_listed_once() {
    let p = insert_gtfs_rt_bytes("f-b", "trips", 42);
    let keys: Vec<String> = vec![exists_key("f-c"), p.exists_key.clone(), exists_key("f-a")];
    let feeds = feeds_from_exists_keys(keys);
    assert_eq!(feeds.iter().filter(|f| f.as_str() == "f-b").count(), 1);
    assert_eq!(time_key("f-b", "trips"), p.time_key);
    assert_eq!(parse_u64(&p.stored_at), Some(42));
}
