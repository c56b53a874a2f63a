use ptv::{request_signature, Client, DeparturesStopOpts, RouteType, SearchOpts, StopId, API_URL};

#[test]
fn signature_matches_known_hmac_sha1_vector() {
    assert_eq!(
        request_signature("Jefe", "what do ya want for nothing?"),
        "effcdf6ae5eb2fa2d27416d5f184df9c259a7c79"
    );
}

#[test]
fn signing_is_deterministic() {
    let client = Client::new("dev".to_string(), "secret".to_string());
    let u1 = client.signed_url("v3/routes?");
    let u2 = client.signed_url("v3/routes?");
    assert_eq!(u1, u2);
}

#[test]
fn distinct_canonical_inputs_do_not_collide() {
    let inputs = [
        "/v3/routes?devid=dev",
        "/v3/routes?devid=deu",
        "/v3/routes?devid=devx",
        "/v3/soutes?devid=dev",
        "/v3/routes!devid=dev",
        "/v4/routes?devid=dev",
    ];
    let sigs: Vec<String> = inputs.iter().map(|i| request_signature("secret", i)).collect();
    for a in 0..sigs.len() {
        for b in 0..sigs.len() {
            if a != b {
                assert_ne!(sigs[a], sigs[b], "collision between {} and {}", inputs[a], inputs[b]);
            }
        }
    }
}

#[test]
fn url_shape_without_query() {
    let client = Client::new("dev".to_string(), "secret".to_string());
    let canonical = "/v3/outlets?devid=dev";
    let expected = format!(
        "{}{}&signature={}",
        API_URL,
        canonical,
        request_signature("secret", canonical)
    );
    assert_eq!(client.signed_url("v3/outlets"), expected);
}

#[test]
fn url_shape_with_bare_question_mark() {
    let client = Client::new("dev".to_string(), "secret".to_string());
    let canonical = "/v3/outlets?devid=dev";
    let expected = format!(
        "{}{}&signature={}",
        API_URL,
        canonical,
        request_signature("secret", canonical)
    );
    assert_eq!(client.signed_url("v3/outlets?"), expected);
}

#[test]
fn url_shape_with_existing_query() {
    let client = Client::new("dev".to_string(), "secret".to_string());
    let canonical = "/v3/outlets?max_results=3&devid=dev";
    let expected = format!(
        "{}{}&signature={}",
        API_URL,
        canonical,
        request_signature("secret", canonical)
    );
    assert_eq!(client.signed_url("v3/outlets?max_results=3"), expected);
}

#[test]
fn url_keeps_existing_leading_slash() {
    let client = Client::new("dev".to_string(), "secret".to_string());
    let with = client.signed_url("/v3/outlets");
    let without = client.signed_url("v3/outlets");
    assert_eq!(with, without);
}

#[test]
fn departures_url_carries_path_and_query() {
    let client = Client::new("dev".to_string(), "secret".to_string());
    let opts = DeparturesStopOpts { max_results: Some(3), ..Default::default() };
    let url = client.departures_stop(RouteType::Train, StopId(1002), &opts);
    assert!(url.starts_with(
        "https://timetableapi.ptv.vic.gov.au/v3/departures/route_type/0/stop/1002?max_results=3&devid=dev&signature="
    ));
}

#[test]
fn search_url_escapes_the_term() {
    let client = Client::new("dev".to_string(), "secret".to_string());
    let url = client.search("Flinders Street Station", &SearchOpts::default());
    assert!(url.contains("/v3/search/Flinders%20Street%20Station?"));
}
