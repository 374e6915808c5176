use docker_registry::errors::Error;
use docker_registry::http::{Header, Method, Request, Response};
use docker_registry::v2::{AuthState, Client, Config, LoginStage};
use docker_registry::USER_AGENT;

const API_VERSION_K: &str = "Docker-Distribution-API-Version";
const API_VERSION_V: &str = "registry/2.0";

fn header(name: &str, value: &str) -> Header {
    Header { name: name.to_string(), value: value.to_string() }
}

fn response(status: u16, headers: Vec<Header>) -> Response {
    Response { status, headers, body: Vec::new() }
}

#[test]
fn test_base_no_insecure() {
    let client = Client::configure()
        .registry("localhost:5000")
        .insecure_registry(false)
        .username(None)
        .password(None)
        .build()
        .unwrap();

    assert_eq!(client.base_url(), "https://localhost:5000");
    let request = client.probe_request().unwrap();
    assert_eq!(request.method, Method::Get);
    assert_eq!(request.url, "https://localhost:5000/v2/");

    let res = client.is_v2_supported(&response(200, vec![header(API_VERSION_K, API_VERSION_V)]));
    assert!(res);
}

#[test]
fn test_base_useragent() {
    let client = Client::configure()
        .registry("localhost:5000")
        .insecure_registry(true)
        .username(None)
        .password(None)
        .build()
        .unwrap();

    let request = client.probe_request().unwrap();
    assert_eq!(
        request,
        Request {
            method: Method::Get,
            url: "http://localhost:5000/v2/".to_string(),
            headers: vec![header("User-Agent", USER_AGENT)],
            body: vec![],
        }
    );

    let res = client.is_v2_supported(&response(200, vec![header(API_VERSION_K, API_VERSION_V)]));
    assert!(res);
}

#[test]
fn test_base_custom_useragent() {
    let ua = "custom-ua/1.0";

    let client = Client::configure()
        .registry("localhost:5000")
        .insecure_registry(true)
        .user_agent(Some(ua.to_string()))
        .username(None)
        .password(None)
        .build()
        .unwrap();

    let request = client.probe_request().unwrap();
    assert_eq!(request.headers, vec![header("User-Agent", ua)]);

    let res = client.is_v2_supported(&response(200, vec![header(API_VERSION_K, API_VERSION_V)]));
    assert!(res);
}

#[test]
fn the_settings_start_at_the_public_registry_over_tls() {
    let client = Config::default().build().unwrap();
    assert_eq!(client.base_url(), "https://registry-1.docker.io");
    assert_eq!(client.index(), "registry-1.docker.io");
    assert_eq!(client.token(), None);
    assert_eq!(client.auth(), AuthState::Anonymous);
    assert_eq!(client.stage(), &LoginStage::Anonymous);
    assert_eq!(client.token_auth(), None);
    assert_eq!(client.root_certificate(), None);
    assert_eq!(Client::configure(), Config::default());
}

#[test]
fn a_root_certificate_is_handed_on_as_it_was_given() {
    let pem = b"-----BEGIN CERTIFICATE-----\nMIIB\n-----END CERTIFICATE-----\n".to_vec();
    let client = Client::configure().add_root_certificate(pem.clone()).build().unwrap();
    assert_eq!(client.root_certificate(), Some(&pem));
}

#[test]
fn a_registry_name_that_makes_no_uri_is_refused() {
    assert_eq!(Client::configure().registry("not a host").build(), Err(Error::InvalidUrl));
    assert_eq!(Client::configure().registry("").build(), Err(Error::InvalidUrl));
    assert_eq!(Client::configure().registry("a\"b").build(), Err(Error::InvalidUrl));
}

#[test]
fn a_request_for_what_is_no_uri_is_refused() {
    let client = Client::configure().registry("localhost:5000").build().unwrap();
    assert_eq!(client.request(Method::Get, "".to_string()), Err(Error::InvalidUrl));
    assert_eq!(
        client.request(Method::Get, "https://localhost:5000/v2/a b".to_string()),
        Err(Error::InvalidUrl)
    );
    assert_eq!(
        client.request(Method::Put, "https://localhost:5000/v2/ok".to_string()),
        Ok(Request {
            method: Method::Put,
            url: "https://localhost:5000/v2/ok".to_string(),
            headers: vec![header("User-Agent", USER_AGENT)],
            body: vec![],
        })
    );
}

#[test]
fn a_request_is_signed_without_its_url_being_looked_at() {
    let client = Client::configure().registry("localhost:5000").build().unwrap();
    let request = client.new_request(Method::Post, "a b".to_string());
    assert_eq!(request.method, Method::Post);
    assert_eq!(request.url, "a b");
    assert_eq!(request.headers, vec![header("User-Agent", USER_AGENT)]);
    assert_eq!(request.body, Vec::<u8>::new());
}

#[test]
fn version_two_is_told_by_status_and_header() {
    let client = Client::configure().build().unwrap();
    let version = || vec![header(API_VERSION_K, API_VERSION_V)];
    assert!(client.is_v2_supported(&response(200, version())));
    assert!(client.is_v2_supported(&response(401, version())));
    assert!(!client.is_v2_supported(&response(404, version())));
    assert!(!client.is_v2_supported(&response(500, version())));
    assert!(!client.is_v2_supported(&response(200, vec![])));
    assert!(!client.is_v2_supported(&response(200, vec![header(API_VERSION_K, "registry/1.0")])));
    assert!(!client.is_v2_supported(&response(200, vec![header("X-Other", API_VERSION_V)])));
    assert!(client.is_v2_supported(&response(
        200,
        vec![header("docker-distribution-api-version", API_VERSION_V)]
    )));
    assert!(client.is_v2_supported(&response(
        401,
        vec![header("Content-Type", "application/json"), header(API_VERSION_K, API_VERSION_V)]
    )));
}

#[test]
fn only_200_lets_the_client_in() {
    let client = Client::configure().build().unwrap();
    assert!(client.is_auth(&response(200, vec![])));
    assert!(!client.is_auth(&response(401, vec![])));
    assert!(!client.is_auth(&response(204, vec![])));
    assert!(!client.is_auth(&response(500, vec![])));
}

#[test]
fn the_first_header_of_a_name_is_the_one_that_is_found() {
    let r = response(200, vec![header("A", "1"), header("b", "2"), header("a", "3")]);
    assert_eq!(r.header("a"), Some("1"));
    assert_eq!(r.header("B"), Some("2"));
    assert_eq!(r.header("c"), None);
    assert!(r.is_success());
    assert!(response(299, vec![]).is_success());
    assert!(!response(199, vec![]).is_success());
    assert!(!response(300, vec![]).is_success());
}
