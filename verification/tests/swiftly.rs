use kactus::transit::{get_routes_url, vehicles_details_url};

#[test]
fn get_routes_url_test() {
    let swiftly_id = "octa".to_string();
    let routes_url = get_routes_url(&swiftly_id);
    assert_eq!(
        routes_url,
        String::from("https://transitime-api.goswift.ly/api/v1/key/81YENWXv/agency/octa/command/routesDetails")
    );
}

#[test]
fn vehicles_details_url_names_agency_and_route() {
    let url = vehicles_details_url(&"lametro".to_string(), &"910-13168".to_string());
    assert_eq!(
        url,
        "https://transitime-api.goswift.ly/api/v1/key/81YENWXv/agency/lametro/command/vehiclesDetails?r=910-13168"
    );
}
