use docker_registry::errors::Error;
use docker_registry::http::{Header, Method, Request, Response};
use docker_registry::v2::auth::AuthChallenge;
use docker_registry::v2::{AuthState, Client, LoginStage, TokenAuth};
use docker_registry::USER_AGENT;

const CHALLENGE: &str =
    "Bearer realm=\"https://auth.example.com/token\",service=\"registry.example.com\",scope=\"repository:samalba/my-app:pull,push\"";
const SCOPES: [&str; 2] = ["repository:library/busybox:pull", "registry:catalog:*"];
const TOKEN_URL: &str = "https://auth.example.com/token?service=registry.example.com&scope=repository:library/busybox:pull&scope=registry:catalog:*";

fn header(name: &str, value: &str) -> Header {
    Header { name: name.to_string(), value: value.to_string() }
}

fn response(status: u16, headers: Vec<Header>, body: &str) -> Response {
    Response { status, headers, body: body.as_bytes().to_vec() }
}

fn challenged() -> Response {
    response(401, vec![header("Www-Authenticate", CHALLENGE)], "")
}

fn anonymous() -> Client {
    Client::configure().registry("registry.example.com").build().unwrap()
}

fn with_credentials() -> Client {
    Client::configure()
        .registry("registry.example.com")
        .username(Some("user".to_string()))
        .password(Some("pass".to_string()))
        .build()
        .unwrap()
}

fn logged_in(token: &str) -> Client {
    let mut client = anonymous();
    client.begin_login().unwrap();
    client.login(&SCOPES, &challenged()).unwrap();
    let body = format!("{{\"token\": \"{}\"}}", token);
    assert_eq!(client.login(&SCOPES, &response(200, vec![], &body)), Ok(None));
    client
}

#[test]
fn a_login_begins_with_the_anonymous_probe() {
    let mut client = anonymous();
    assert_eq!(
        client.begin_login(),
        Ok(Request {
            method: Method::Get,
            url: "https://registry.example.com/v2/".to_string(),
            headers: vec![header("User-Agent", USER_AGENT)],
            body: vec![],
        })
    );
    assert_eq!(client.auth(), AuthState::Anonymous);
}

#[test]
fn an_open_registry_wants_no_token() {
    let mut client = with_credentials();
    client.begin_login().unwrap();
    assert_eq!(client.login(&SCOPES, &response(200, vec![], "{}")), Ok(None));
    assert_eq!(client.auth(), AuthState::Anonymous);
    assert_eq!(client.token(), None);
    assert_eq!(
        client.login(&SCOPES, &response(200, vec![header("WWW-Authenticate", CHALLENGE)], "")),
        Ok(None)
    );
    assert_eq!(client.auth(), AuthState::Anonymous);
    assert_eq!(client, with_credentials());
}

#[test]
fn a_challenge_leads_to_the_token_request() {
    let mut client = anonymous();
    client.begin_login().unwrap();
    assert_eq!(
        client.login(&SCOPES, &challenged()),
        Ok(Some(Request {
            method: Method::Get,
            url: TOKEN_URL.to_string(),
            headers: vec![header("User-Agent", USER_AGENT)],
            body: vec![],
        }))
    );
    assert_eq!(
        client.stage(),
        &LoginStage::Challenged(AuthChallenge {
            realm: "https://auth.example.com/token".to_string(),
            service: Some("registry.example.com".to_string()),
            scope: vec!["repository:samalba/my-app:pull,push".to_string()],
        })
    );
    assert_eq!(client.auth(), AuthState::Challenged);
    assert_eq!(client.token(), None);
}

#[test]
fn the_token_request_presents_the_credentials() {
    let mut client = with_credentials();
    client.begin_login().unwrap();
    let request = client.login(&SCOPES, &challenged()).unwrap().unwrap();
    assert_eq!(
        request.headers,
        vec![header("Authorization", "Basic dXNlcjpwYXNz"), header("User-Agent", USER_AGENT)]
    );
    assert_eq!(request.url, TOKEN_URL);
}

#[test]
fn a_user_name_alone_goes_with_an_empty_password() {
    let mut client =
        Client::configure().registry("r.example.com").username(Some("user".to_string())).build().unwrap();
    client.begin_login().unwrap();
    let request = client.login(&[], &challenged()).unwrap().unwrap();
    assert_eq!(request.headers[0], header("Authorization", "Basic dXNlcjo="));
    assert_eq!(request.url, "https://auth.example.com/token?service=registry.example.com");
}

#[test]
fn a_token_answer_makes_the_client_authenticated() {
    let mut client = with_credentials();
    client.begin_login().unwrap();
    client.login(&SCOPES, &challenged()).unwrap();
    let answer = response(
        200,
        vec![],
        "{\"token\": \"abc.def-123\", \"expires_in\": 300, \"issued_at\": \"2024-05-01T10:00:00Z\"}",
    );
    assert_eq!(client.login(&SCOPES, &answer), Ok(None));
    assert_eq!(client.token(), Some("abc.def-123"));
    assert_eq!(client.auth(), AuthState::Authenticated);
    assert_eq!(client.stage(), &LoginStage::Anonymous);
    assert_eq!(
        client.token_auth(),
        Some(&TokenAuth {
            token: "abc.def-123".to_string(),
            expires_in: Some(300),
            issued_at: Some("2024-05-01T10:00:00Z".to_string()),
            refresh_token: None,
        })
    );
}

#[test]
fn an_authenticated_client_signs_with_its_token_and_never_with_its_password() {
    let client = logged_in("abc");
    assert_eq!(
        client.probe_request(),
        Ok(Request {
            method: Method::Get,
            url: "https://registry.example.com/v2/".to_string(),
            headers: vec![header("Authorization", "Bearer abc"), header("User-Agent", USER_AGENT)],
            body: vec![],
        })
    );
}

#[test]
fn a_new_login_probes_without_the_token_and_keeps_it() {
    let mut client = logged_in("old");
    assert_eq!(
        client.begin_login(),
        Ok(Request {
            method: Method::Get,
            url: "https://registry.example.com/v2/".to_string(),
            headers: vec![header("User-Agent", USER_AGENT)],
            body: vec![],
        })
    );
    assert_eq!(client.token(), Some("old"));
    assert_eq!(client, logged_in("old"));
    assert_eq!(
        client.probe_request().unwrap().headers,
        vec![header("Authorization", "Bearer old"), header("User-Agent", USER_AGENT)]
    );
}

#[test]
fn a_new_login_keeps_the_token_until_it_is_replaced() {
    let mut client = logged_in("old");
    client.begin_login().unwrap();
    let request = client.login(&SCOPES, &challenged()).unwrap().unwrap();
    assert_eq!(request.headers, vec![header("User-Agent", USER_AGENT)]);
    assert_eq!(client.token(), Some("old"));
    assert_eq!(client.auth(), AuthState::Challenged);
    assert_eq!(client.login(&SCOPES, &response(200, vec![], "{\"token\": \"new\"}")), Ok(None));
    assert_eq!(client.token(), Some("new"));
    assert_eq!(client, logged_in("new"));
}

#[test]
fn an_open_registry_leaves_the_token_that_is_held() {
    let mut client = logged_in("old");
    client.begin_login().unwrap();
    assert_eq!(client.login(&SCOPES, &response(200, vec![], "")), Ok(None));
    assert_eq!(client.token(), Some("old"));
    assert_eq!(client.auth(), AuthState::Authenticated);
    assert_eq!(client, logged_in("old"));
}

#[test]
fn a_failed_probe_leaves_the_token_that_is_held() {
    for r in [response(401, vec![], ""), response(500, vec![], ""), response(
        401,
        vec![header("WWW-Authenticate", "Bearer service=\"s\"")],
        "",
    )] {
        let mut client = logged_in("old");
        client.begin_login().unwrap();
        assert_eq!(client.login(&SCOPES, &r), Err(Error::AuthProbeFailed));
        assert_eq!(client.token(), Some("old"));
        assert_eq!(client, logged_in("old"));
    }
}

#[test]
fn a_refused_token_request_leaves_the_token_that_is_held() {
    for status in [401u16, 403, 500] {
        let mut client = logged_in("old");
        client.begin_login().unwrap();
        client.login(&SCOPES, &challenged()).unwrap();
        assert_eq!(
            client.login(&SCOPES, &response(status, vec![], "{\"token\": \"new\"}")),
            Err(Error::TokenRequestFailed(status))
        );
        assert_eq!(client.token(), Some("old"));
        assert_eq!(client, logged_in("old"));
    }
}

#[test]
fn a_token_answer_without_a_token_leaves_the_token_that_is_held() {
    for body in ["", "not json", "{}", "{\"token\": 7}"] {
        let mut client = logged_in("old");
        client.begin_login().unwrap();
        client.login(&SCOPES, &challenged()).unwrap();
        assert_eq!(
            client.login(&SCOPES, &response(200, vec![], body)),
            Err(Error::TokenResponseInvalid)
        );
        assert_eq!(client.token(), Some("old"));
        assert_eq!(client, logged_in("old"));
    }
    let mut client = logged_in("old");
    client.begin_login().unwrap();
    client.login(&SCOPES, &challenged()).unwrap();
    let not_utf8 = Response { status: 200, headers: vec![], body: vec![0xff, 0xfe, 0x00] };
    assert_eq!(client.login(&SCOPES, &not_utf8), Err(Error::TokenResponseInvalid));
    assert_eq!(client.token(), Some("old"));
}

#[test]
fn a_response_after_the_login_is_taken_for_a_probe_answer() {
    let mut client = logged_in("abc");
    assert_eq!(client.login(&SCOPES, &response(200, vec![], "")), Ok(None));
    assert_eq!(client.login(&SCOPES, &response(500, vec![], "")), Err(Error::AuthProbeFailed));
    assert_eq!(client.token(), Some("abc"));
    assert_eq!(client, logged_in("abc"));
}

#[test]
fn a_probe_that_is_answered_otherwise_fails() {
    let cases = [
        response(401, vec![], ""),
        response(401, vec![header("WWW-Authenticate", "Basic realm=\"r\"")], ""),
        response(401, vec![header("WWW-Authenticate", "Bearer service=\"s\"")], ""),
        response(401, vec![header("WWW-Authenticate", "Bearer realm=\"not a url\"")], ""),
        response(403, vec![header("WWW-Authenticate", CHALLENGE)], ""),
        response(404, vec![], ""),
        response(500, vec![], ""),
        response(204, vec![], ""),
    ];
    for r in cases {
        let mut client = anonymous();
        client.begin_login().unwrap();
        assert_eq!(client.login(&SCOPES, &r), Err(Error::AuthProbeFailed));
        assert_eq!(client.auth(), AuthState::Anonymous);
        assert_eq!(client, anonymous());
    }
}

#[test]
fn a_token_endpoint_that_refuses_fails_the_login_with_its_status() {
    for status in [400u16, 401, 403, 500, 201, 204] {
        let mut client = anonymous();
        client.begin_login().unwrap();
        client.login(&SCOPES, &challenged()).unwrap();
        assert_eq!(
            client.login(&SCOPES, &response(status, vec![], "{\"token\": \"abc\"}")),
            Err(Error::TokenRequestFailed(status))
        );
        assert_eq!(client.auth(), AuthState::Anonymous);
        assert_eq!(client.token(), None);
    }
}

#[test]
fn a_token_answer_without_a_token_fails_the_login() {
    for body in ["", "not json", "{}", "{\"token\": 1}", "{\"access_token\": \"abc\"}", "[\"abc\"]", "{\"token\": \"a\", \"expires_in\": \"soon\"}"] {
        let mut client = anonymous();
        client.begin_login().unwrap();
        client.login(&SCOPES, &challenged()).unwrap();
        assert_eq!(
            client.login(&SCOPES, &response(200, vec![], body)),
            Err(Error::TokenResponseInvalid)
        );
        assert_eq!(client.auth(), AuthState::Anonymous);
    }
}
