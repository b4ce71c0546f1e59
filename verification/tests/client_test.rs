use ge_api::client::{
    body_kind, record_outcome, refusal_outcome, BodyKind, Client, Endpoint, Error, Request,
    Timestep, BASE_URL, FIRST_SUCCESS_STATUS, LAST_SUCCESS_STATUS, USER_AGENT_HEADER,
};
use ge_api::data_types::{APIError, GrandExchangeTimeseries, ItemId};
use ge_api::utils::round_to_previous_timestamp;

fn create_client() -> Client {
    Client::new(Endpoint::OldSchoolRuneScape, "nicolb2305")
}

fn pair(name: &'static str, value: &str) -> (&'static str, String) {
    (name, String::from(value))
}

#[test]
fn test_new_client_keeps_its_configuration() {
    let client = Client::new(Endpoint::DeadManReborn, "price watcher, someone@example.org");
    assert_eq!(client.endpoint(), Endpoint::DeadManReborn);
    assert_eq!(client.user_agent(), "price watcher, someone@example.org");
}

#[test]
fn test_endpoint_segments() {
    assert_eq!(Endpoint::OldSchoolRuneScape.to_string(), "osrs");
    assert_eq!(Endpoint::DeadManReborn.to_string(), "dmm");
    assert_eq!(Endpoint::FreshStartWorlds.to_string(), "fsw");
}

#[test]
fn test_timestep_route_names() {
    assert_eq!(Timestep::FiveMinutes.to_string(), "5m");
    assert_eq!(Timestep::TenMinutes.to_string(), "10m");
    assert_eq!(Timestep::ThirtyMinutes.to_string(), "30m");
    assert_eq!(Timestep::OneHour.to_string(), "1h");
    assert_eq!(Timestep::ThreeHours.to_string(), "3h");
    assert_eq!(Timestep::SixHours.to_string(), "6h");
    assert_eq!(Timestep::OneDay.to_string(), "24h");
}

#[test]
fn test_constants() {
    assert_eq!(BASE_URL, "https://prices.runescape.wiki/api/v1");
    assert_eq!(USER_AGENT_HEADER, "user-agent");
    assert_eq!(FIRST_SUCCESS_STATUS, 200);
    assert_eq!(LAST_SUCCESS_STATUS, 299);
}

#[test]
fn test_latest_request_without_id() {
    let request = create_client().get_latest(None);
    assert_eq!(
        request,
        Request {
            url: String::from("https://prices.runescape.wiki/api/v1/osrs/latest"),
            query: vec![],
            user_agent: String::from("nicolb2305"),
        }
    );
}

#[test]
fn test_latest_request_with_id() {
    let request = create_client().get_latest(Some(ItemId(2)));
    assert_eq!(request.url, "https://prices.runescape.wiki/api/v1/osrs/latest");
    assert_eq!(request.query, vec![pair("id", "2")]);
    assert_eq!(request.user_agent, "nicolb2305");
}

#[test]
fn test_mapping_request() {
    let request = create_client().get_mapping();
    assert_eq!(request.url, "https://prices.runescape.wiki/api/v1/osrs/mapping");
    assert!(request.query.is_empty());
    assert_eq!(request.user_agent, "nicolb2305");
}

#[test]
fn test_average_request_without_timestamp() {
    let request = create_client().get_average(Timestep::SixHours, None);
    assert_eq!(request.url, "https://prices.runescape.wiki/api/v1/osrs/6h");
    assert!(request.query.is_empty());
    assert_eq!(request.user_agent, "nicolb2305");
}

#[test]
fn test_average_request_with_timestamp() {
    let request = create_client().get_average(Timestep::SixHours, Some(1678190400));
    assert_eq!(request.url, "https://prices.runescape.wiki/api/v1/osrs/6h");
    assert_eq!(request.query, vec![pair("timestamp", "1678190400")]);
}

#[test]
fn test_average_request_keeps_a_misaligned_timestamp() {
    let request = create_client().get_average(Timestep::SixHours, Some(1678190401));
    assert_eq!(request.query, vec![pair("timestamp", "1678190401")]);
    let rounded = round_to_previous_timestamp(Timestep::SixHours, 1678190401);
    let request = create_client().get_average(Timestep::SixHours, Some(rounded));
    assert_eq!(request.query, vec![pair("timestamp", "1678190400")]);
}

#[test]
fn test_average_request_with_negative_timestamp() {
    let request = create_client().get_average(Timestep::FiveMinutes, Some(-300));
    assert_eq!(request.query, vec![pair("timestamp", "-300")]);
}

#[test]
fn test_average_request_for_each_timestep() {
    let client = Client::new(Endpoint::FreshStartWorlds, "nicolb2305");
    let routes = [
        (Timestep::FiveMinutes, "5m"),
        (Timestep::TenMinutes, "10m"),
        (Timestep::ThirtyMinutes, "30m"),
        (Timestep::OneHour, "1h"),
        (Timestep::ThreeHours, "3h"),
        (Timestep::SixHours, "6h"),
        (Timestep::OneDay, "24h"),
    ];
    for (timestep, route) in routes {
        let request = client.get_average(timestep, None);
        assert_eq!(
            request.url,
            format!("https://prices.runescape.wiki/api/v1/fsw/{}", route)
        );
    }
}

#[test]
fn test_timeseries_request() {
    let request = create_client().get_timeseries(ItemId(2), Timestep::FiveMinutes);
    assert_eq!(request.url, "https://prices.runescape.wiki/api/v1/osrs/timeseries");
    assert_eq!(request.query, vec![pair("id", "2"), pair("timestep", "5m")]);
    assert_eq!(request.user_agent, "nicolb2305");
}

#[test]
fn test_timeseries_request_for_one_day() {
    let request = create_client().get_timeseries(ItemId(4151), Timestep::OneDay);
    assert_eq!(request.query, vec![pair("id", "4151"), pair("timestep", "24h")]);
}

#[test]
fn test_requests_go_to_the_clients_world() {
    let worlds = [
        (Endpoint::OldSchoolRuneScape, "osrs"),
        (Endpoint::DeadManReborn, "dmm"),
        (Endpoint::FreshStartWorlds, "fsw"),
    ];
    for (endpoint, segment) in worlds {
        let client = Client::new(endpoint, "nicolb2305");
        assert_eq!(
            client.get_mapping().url,
            format!("https://prices.runescape.wiki/api/v1/{}/mapping", segment)
        );
        assert_eq!(
            client.get_latest(None).url,
            format!("https://prices.runescape.wiki/api/v1/{}/latest", segment)
        );
    }
}

#[test]
fn test_get_endpoint_builds_any_route() {
    let client = Client::new(Endpoint::DeadManReborn, "someone");
    let request = client.get_endpoint("volumes", vec![pair("a", "1"), pair("b", "x y")]);
    assert_eq!(request.url, "https://prices.runescape.wiki/api/v1/dmm/volumes");
    assert_eq!(request.query, vec![pair("a", "1"), pair("b", "x y")]);
    assert_eq!(request.user_agent, "someone");
    let bare = client.get_endpoint("", vec![]);
    assert_eq!(bare.url, "https://prices.runescape.wiki/api/v1/dmm/");
}

#[test]
fn test_body_kind_of_success() {
    assert_eq!(body_kind(200), BodyKind::Record);
    assert_eq!(body_kind(FIRST_SUCCESS_STATUS), BodyKind::Record);
    assert_eq!(body_kind(LAST_SUCCESS_STATUS), BodyKind::Record);
}

#[test]
fn test_body_kind_of_every_success_status() {
    for status in 200..=299 {
        assert_eq!(body_kind(status), BodyKind::Record);
    }
    for status in [201, 202, 203, 204, 206, 226, 299] {
        assert_eq!(body_kind(status), BodyKind::Record);
    }
}

#[test]
fn test_body_kind_of_every_other_status() {
    for status in [0, 1, 100, 101, 199, 300, 301, 304, 400, 404, 429, 500, 503, 999, u16::MAX] {
        assert_eq!(body_kind(status), BodyKind::Refusal);
    }
    for status in (0..200).chain(300..=1000) {
        assert_eq!(body_kind(status), BodyKind::Refusal);
    }
}

#[test]
fn test_success_with_a_record_is_the_record() {
    for status in [200, 201, 203] {
        assert_eq!(body_kind(status), BodyKind::Record);
        let decoded: Result<Vec<i64>, String> = Ok(vec![1, 2, 3]);
        match record_outcome(decoded) {
            Ok(record) => assert_eq!(record, vec![1, 2, 3]),
            Err(_) => panic!("the record was lost"),
        }
    }
}

#[test]
fn test_success_without_a_record_is_a_transport_error() {
    assert_eq!(body_kind(201), BodyKind::Record);
    let decoded: Result<Vec<i64>, String> = Err(String::from("missing field `data`"));
    match record_outcome(decoded) {
        Err(Error::ReqwestError(err)) => assert_eq!(err, "missing field `data`"),
        _ => panic!("not a transport error"),
    }
}

#[test]
fn test_failed_send_is_a_transport_error() {
    let sent: Result<u16, String> = Err(String::from("error sending request"));
    match record_outcome(sent) {
        Err(Error::ReqwestError(err)) => assert_eq!(err, "error sending request"),
        _ => panic!("not a transport error"),
    }
}

#[test]
fn test_refusal_becomes_a_response_error() {
    let refusal = APIError { error: String::from("Invalid timestamp") };
    let error: Error<std::fmt::Error> = Error::from(refusal);
    assert!(matches!(&error, Error::ResponseError(inner) if inner.error == "Invalid timestamp"));
    assert_eq!(error.to_string(), "Invalid timestamp");
}

#[test]
fn test_transport_error_is_kept_as_it_came() {
    let error: Error<std::num::ParseIntError> =
        Error::ReqwestError("x".parse::<i64>().unwrap_err());
    assert!(matches!(&error, Error::ReqwestError(_)));
    assert_eq!(error.to_string(), "invalid digit found in string");
}

#[test]
fn test_record_outcome_hands_the_record_on() {
    let decoded: Result<Vec<i64>, String> = Ok(vec![300, 600]);
    match record_outcome(decoded) {
        Ok(record) => assert_eq!(record, vec![300, 600]),
        Err(_) => panic!("the record was lost"),
    }
}

#[test]
fn test_record_outcome_keeps_the_transport_error() {
    let decoded: Result<GrandExchangeTimeseries, String> =
        Err(String::from("error decoding response body"));
    match record_outcome(decoded) {
        Err(Error::ReqwestError(err)) => assert_eq!(err, "error decoding response body"),
        _ => panic!("not a transport error"),
    }
}

#[test]
fn test_refusal_outcome_is_an_api_error() {
    let decoded: Result<APIError, String> =
        Ok(APIError { error: String::from("Invalid timestamp") });
    let outcome: Result<GrandExchangeTimeseries, Error<String>> = refusal_outcome(decoded);
    match outcome {
        Err(Error::ResponseError(refusal)) => assert_eq!(refusal.error, "Invalid timestamp"),
        _ => panic!("not an api error"),
    }
}

#[test]
fn test_refusal_outcome_keeps_the_transport_error() {
    let decoded: Result<APIError, String> = Err(String::from("error decoding response body"));
    let outcome: Result<GrandExchangeTimeseries, Error<String>> = refusal_outcome(decoded);
    match outcome {
        Err(Error::ReqwestError(err)) => assert_eq!(err, "error decoding response body"),
        _ => panic!("not a transport error"),
    }
}

#[test]
fn test_misaligned_timestamp_surfaces_as_api_error_once_refused() {
    let client = create_client();
    let request = client.get_average(Timestep::SixHours, Some(1678190401));
    assert_eq!(request.query, vec![pair("timestamp", "1678190401")]);
    assert_eq!(body_kind(400), BodyKind::Refusal);
    let refused: Result<APIError, String> =
        Ok(APIError { error: String::from("Invalid timestamp") });
    let outcome: Result<Vec<i64>, Error<String>> = refusal_outcome(refused);
    assert!(matches!(outcome, Err(Error::ResponseError(_))));
}
