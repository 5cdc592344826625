use kactus::config::{agency_from_record, convert_multiauth_to_vec, requests_for_agencies, AgencyInfo, RecordError, Reqquery};
use kactus::ingest::{
    agency_round, ingest_options, loop_sleep_ms, make_reqwest_to_agency, plan_request, plan_with_key,
    should_fetch, should_store, url_for_category,
};

fn record(fields: &[&str]) -> Vec<String> {
    fields.iter().map(|s| s.to_string()).collect()
}

fn agency(onetrip: &str, vp: &str, tu: &str, al: &str, password: &str) -> AgencyInfo {
    AgencyInfo {
        onetrip: onetrip.to_string(),
        realtime_vehicle_positions: vp.to_string(),
        realtime_trip_updates: tu.to_string(),
        realtime_alerts: al.to_string(),
        has_auth: !password.is_empty(),
        auth_type: "url".to_string(),
        auth_header: "".to_string(),
        auth_password: password.to_string(),
        fetch_interval_ms: 2000,
        multiauth: None,
    }
}

fn fetch(url: &str, auth_type: &str, header: &str, password: &str, multiauth: Option<Vec<String>>) -> Reqquery {
    Reqquery {
        url: url.to_string(),
        has_auth: true,
        auth_type: auth_type.to_string(),
        auth_header: header.to_string(),
        auth_password: password.to_string(),
        category: "vehicles".to_string(),
        multiauth,
        onetrip: "f-x".to_string(),
        fetch_interval_ms: 1000,
    }
}

#[test]
fn multiauth_splits_on_commas() {
    assert_eq!(convert_multiauth_to_vec(&"".to_string()), None);
    assert_eq!(convert_multiauth_to_vec(&"k1".to_string()), Some(vec!["k1".to_string()]));
    assert_eq!(
        convert_multiauth_to_vec(&"k1,k2,".to_string()),
        Some(vec!["k1".to_string(), "k2".to_string(), "".to_string()])
    );
}

#[test]
fn records_become_agencies() {
    let r = record(&["f-x", "http://v", "", "http://a", "true", "url", "", "key", "1.5", "a,b"]);
    let a = agency_from_record(&r, 1500).ok().unwrap();
    assert_eq!(a.onetrip, "f-x");
    assert!(a.has_auth);
    assert_eq!(a.fetch_interval_ms, 1500);
    assert_eq!(a.multiauth, Some(vec!["a".to_string(), "b".to_string()]));
    let r = record(&["f-x", "", "", "", "false", "", "", "", "1", ""]);
    let a = agency_from_record(&r, 1000).ok().unwrap();
    assert!(!a.has_auth);
    assert_eq!(a.multiauth, None);
}

#[test]
fn bad_records_are_refused() {
    let short = record(&["f-x", "", ""]);
    assert!(matches!(agency_from_record(&short, 0), Err(RecordError::MissingField)));
    let bad = record(&["f-x", "", "", "", "yes", "", "", "", "1", ""]);
    assert!(matches!(agency_from_record(&bad, 0), Err(RecordError::BadAuthFlag)));
}

#[test]
fn agencies_become_fetches() {
    let agencies = vec![
        agency("f-a", "http://a/vp", "", "http://a/al", "k"),
        agency("f-b", "http://b/vp", "http://b/tu", "http://b/al", "EXAMPLEKEY"),
        agency("f-c", "", "http://c/tu", "", ""),
    ];
    let q = requests_for_agencies(&agencies);
    let got: Vec<(String, String, String)> =
        q.iter().map(|q| (q.onetrip.clone(), q.category.clone(), q.url.clone())).collect();
    assert_eq!(
        got,
        vec![
            ("f-a".to_string(), "vehicles".to_string(), "http://a/vp".to_string()),
            ("f-a".to_string(), "alerts".to_string(), "http://a/al".to_string()),
            ("f-c".to_string(), "trips".to_string(), "http://c/tu".to_string()),
        ]
    );
    assert_eq!(q[0].fetch_interval_ms, 2000);
    assert_eq!(q[0].auth_password, "k");
}

#[test]
fn fetch_is_due_after_its_interval() {
    assert!(should_fetch(None, 10, 1000));
    assert!(!should_fetch(Some(9500), 10_000, 1000));
    assert!(should_fetch(Some(9000), 10_000, 1000));
    assert!(should_fetch(Some(10_000), 10_000, 0));
}

#[test]
fn url_keys_replace_password() {
    let q = fetch("https://x/feed?key=PASSWORD&k2=PASSWORD", "url", "", "secret", None);
    let p = plan_with_key(&q, &"secret".to_string());
    assert_eq!(p.url, "https://x/feed?key=secret&k2=secret");
    assert!(p.header.is_none());
    let p = plan_request(&q);
    assert_eq!(p.url, "https://x/feed?key=secret&k2=secret");
    // An empty key replaces `PASSWORD` too.
    let p = plan_with_key(&q, &"".to_string());
    assert_eq!(p.url, "https://x/feed?key=&k2=");
}

#[test]
fn header_keys_go_in_the_header() {
    let q = fetch("https://x/feed?PASSWORD", "header", "x-api-key", "secret", None);
    let p = plan_request(&q);
    assert_eq!(p.url, "https://x/feed?PASSWORD");
    assert_eq!(p.header, Some(("x-api-key".to_string(), "secret".to_string())));
}

#[test]
fn several_keys_pick_one_of_them() {
    let keys = vec!["k1".to_string(), "k2".to_string()];
    let q = fetch("u=PASSWORD", "url", "", "ignored", Some(keys.clone()));
    for _ in 0..20 {
        let p = plan_request(&q);
        assert!(p.url == "u=k1" || p.url == "u=k2");
    }
    let p = make_reqwest_to_agency(
        &"u=PASSWORD".to_string(),
        true,
        &"header".to_string(),
        &"h".to_string(),
        &"pw".to_string(),
        &Some(keys),
    );
    assert_eq!(p.url, "u=PASSWORD");
    let (name, value) = p.header.unwrap();
    assert_eq!(name, "h");
    assert!(value == "k1" || value == "k2");
    let p = make_reqwest_to_agency(&"u=PASSWORD".to_string(), true, &"url".to_string(), &"h".to_string(), &"".to_string(), &None);
    assert_eq!(p.url, "u=");
}

#[test]
fn categories_name_their_urls() {
    let a = agency("f-a", "http://vp", "http://tu", "http://al", "");
    assert_eq!(url_for_category(&"vehicles".to_string(), &a).ok().unwrap(), "http://vp");
    assert_eq!(url_for_category(&"trip_updates".to_string(), &a).ok().unwrap(), "http://tu");
    assert_eq!(url_for_category(&"alerts".to_string(), &a).ok().unwrap(), "http://al");
    assert!(url_for_category(&"trips".to_string(), &a).is_err());
}

#[test]
fn agency_rounds() {
    let a = agency("f-a", "http://vp", "", "http://al", "k");
    let r = agency_round(&a, Some(9000), 10_000);
    assert!(!r.record_time);
    assert!(r.categories.is_empty());
    let r = agency_round(&a, Some(5000), 10_000);
    assert!(r.record_time);
    assert_eq!(r.categories, vec!["vehicles".to_string(), "alerts".to_string()]);
    let b = agency("f-b", "http://vp", "http://tu", "", "EXAMPLEKEY");
    assert!(!agency_round(&b, None, 10).record_time);
    let r = agency_round(&agency("f-c", "", "http://tu", "", ""), None, 10);
    assert_eq!(r.categories, vec!["trip_updates".to_string()]);
}

#[test]
fn octa_vehicles_are_stored_only_when_changed() {
    assert!(!should_store("f-octa~rt", "vehicles", Some(5), Some(5)));
    assert!(should_store("f-octa~rt", "vehicles", Some(5), Some(6)));
    assert!(should_store("f-octa~rt", "vehicles", None, None));
    assert!(should_store("f-octa~rt", "trips", Some(5), Some(5)));
    assert!(should_store("f-other~rt", "vehicles", Some(5), Some(5)));
}

#[test]
fn ingest_defaults() {
    let o = ingest_options(None, None, None);
    assert_eq!(o.urls, "urls.csv");
    assert_eq!(o.timeout_ms, 15_000);
    assert_eq!(o.threads, 50);
    let o = ingest_options(Some("public-urls.csv".to_string()), Some(10_000), Some(10));
    assert_eq!(o.urls, "public-urls.csv");
    assert_eq!(o.timeout_ms, 10_000);
    assert_eq!(o.threads, 10);
}

#[test]
fn loop_rests_for_the_rest_of_the_second() {
    assert_eq!(loop_sleep_ms(250), Some(750));
    assert_eq!(loop_sleep_ms(1000), None);
    assert_eq!(loop_sleep_ms(1500), None);
    assert_eq!(loop_sleep_ms(0), Some(1000));
}
