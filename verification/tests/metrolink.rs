use kactus::metrolink::{
    alert_entities, alert_entity, alerts_feed, determine_if_category_should_run, AlertEntity, Incrementality, extract_alerts_json,
    metrolink_alert_line_abbrv_to_route_id, metrolink_feed_url, metrolink_rest_ms, runcategory_outcome,
    ServiceAdvisory,
};

fn advisory(id: i32, line: &str, details: Option<&str>) -> ServiceAdvisory {
    ServiceAdvisory {
        id,
        message: format!("message {}", id),
        line: line.to_string(),
        details_page: "/advisories/1".to_string(),
        alert_details_page: details.map(|s| s.to_string()),
    }
}

#[test]
fn line_abbreviations_name_routes() {
    assert_eq!(metrolink_alert_line_abbrv_to_route_id("AV"), "Antelope Valley Line");
    assert_eq!(metrolink_alert_line_abbrv_to_route_id("IEOC"), "Inland Emp.-Orange Co. Line");
    assert_eq!(metrolink_alert_line_abbrv_to_route_id("91/PV"), "91 Line");
    assert_eq!(metrolink_alert_line_abbrv_to_route_id("RIV"), "Riverside Line");
    assert_eq!(metrolink_alert_line_abbrv_to_route_id("XX"), "");
}

#[test]
fn feed_urls() {
    assert_eq!(metrolink_feed_url("trips"), "https://metrolink-gtfsrt.gbsdigital.us/feed/gtfsrt-trips");
    assert_eq!(metrolink_feed_url("vehicles"), "https://metrolink-gtfsrt.gbsdigital.us/feed/gtfsrt-vehicles");
    assert_eq!(metrolink_feed_url("other"), "https://metrolink-gtfsrt.gbsdigital.us/feed/gtfsrt-vehicles");
}

#[test]
fn categories_are_due_thirty_seconds_after_the_last_request() {
    assert!(determine_if_category_should_run(None));
    assert!(!determine_if_category_should_run(Some(400)));
    assert!(!determine_if_category_should_run(Some(29_999)));
    assert!(determine_if_category_should_run(Some(30_000)));
    assert!(determine_if_category_should_run(Some(31_000)));
}

#[test]
fn fetch_outcomes() {
    let o = runcategory_outcome(true, false, None);
    assert_eq!(o.freeze_ms, Some(30_000));
    assert_eq!(o.accepted_timestamp, None);
    let o = runcategory_outcome(false, true, Some(Some(17)));
    assert_eq!(o.freeze_ms, None);
    assert_eq!(o.accepted_timestamp, Some(17));
    assert_eq!(runcategory_outcome(false, true, Some(None)).accepted_timestamp, None);
    assert_eq!(runcategory_outcome(false, true, None).accepted_timestamp, None);
    assert_eq!(runcategory_outcome(false, false, Some(Some(3))).accepted_timestamp, None);
}

#[test]
fn rest_until_the_first_feed_is_due() {
    // Requested 10 s and 12 s ago: the older one is due in 18 s.
    assert_eq!(metrolink_rest_ms(Some(10_000), Some(12_000)), Some(18_000));
    // One feed is due already: no rest.
    assert_eq!(metrolink_rest_ms(Some(31_000), Some(12_000)), None);
    assert_eq!(metrolink_rest_ms(None, Some(12_000)), None);
    // Less than a second left: no rest.
    assert_eq!(metrolink_rest_ms(Some(29_500), Some(1_000)), None);
    assert_eq!(metrolink_rest_ms(Some(28_999), Some(0)), Some(1_001));
}

#[test]
fn the_status_page_script_becomes_json() {
    let page = "<html><script type=\"text/javascript\">\n    window.ml = window.ml || {};\n    window.ml = {results: {\"ServiceLines\": []}, timeLimit: 5, minified: true, isHomepage: false}\n</script></html>";
    let json = extract_alerts_json(page).unwrap();
    assert_eq!(
        json,
        "{\"results\": {\"ServiceLines\": []}, \"timeLimit\": 5, \"minified\": true, \"isHomepage\": false}"
    );
    assert!(extract_alerts_json("<html>no script</html>").is_none());
}

fn english(t: &Option<kactus::metrolink::TranslatedString>) -> Option<String> {
    let t = t.as_ref()?;
    assert_eq!(t.translation.len(), 1);
    assert_eq!(t.translation[0].language.as_deref(), Some("en"));
    Some(t.translation[0].text.clone())
}

fn route_of(e: &AlertEntity) -> String {
    assert_eq!(e.informed_entity.len(), 1);
    let s = &e.informed_entity[0];
    assert!(s.agency_id.is_none() && s.direction_id.is_none() && s.route_type.is_none() && s.stop_id.is_none());
    s.route_id.clone().unwrap()
}

#[test]
fn advisories_become_alerts() {
    let e = alert_entity(&advisory(-3, "OC", Some("yes")));
    assert_eq!(e.id, "-3");
    assert_eq!(e.is_deleted, Some(false));
    assert_eq!(english(&e.header_text).as_deref(), Some("message -3"));
    assert_eq!(route_of(&e), "Orange County Line");
    assert_eq!(e.active_period.len(), 1);
    assert!(e.active_period[0].start.is_none() && e.active_period[0].end.is_none());
    assert_eq!(english(&e.url).as_deref(), Some("https://metrolinktrains.com/advisories/1"));
    let e = alert_entity(&advisory(12, "ZZ", None));
    assert_eq!(e.id, "12");
    assert_eq!(route_of(&e), "");
    assert!(e.url.is_none());
    let all = alert_entities(&vec![vec![advisory(1, "AV", None), advisory(2, "SB", None)], vec![], vec![advisory(3, "VC", None)]]);
    let ids: Vec<String> = all.iter().map(|e| e.id.clone()).collect();
    assert_eq!(ids, vec!["1", "2", "3"]);
}

#[test]
fn the_alerts_feed_is_a_full_dataset() {
    let f = alerts_feed(&vec![vec![advisory(7, "RIV", None)], vec![advisory(8, "AV", None)]], 1_700_000_000_123);
    assert_eq!(f.header.gtfs_realtime_version, "2.0");
    assert!(matches!(f.header.incrementality, Some(Incrementality::FullDataset)));
    assert_eq!(f.header.timestamp, Some(1_700_000_000_123));
    let ids: Vec<String> = f.entity.iter().map(|e| e.id.clone()).collect();
    assert_eq!(ids, vec!["7", "8"]);
    assert_eq!(route_of(&f.entity[0]), "Riverside Line");
    let f = alerts_feed(&vec![], (1u128 << 64) + 5);
    assert_eq!(f.header.timestamp, Some(5));
    assert!(f.entity.is_empty());
}
