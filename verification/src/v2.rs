//! The registry API, version 2: the client, and the bodies it reads.

use crate::errors::{result_view, Error, ErrorView};
use crate::http::{
    header_value, parses_as_uri, uri_accepted, Header, HeaderView, Method, Request, RequestView,
    Response, ResponseView,
};
use crate::json::{json_document, views_of, Json, JsonView};
use crate::text::same_text;
use crate::v2::auth::{
    basic_authorization, parse_challenge, token_url, AuthChallenge, AuthChallengeView,
    Credentials, CredentialsView,
};
use crate::USER_AGENT;
use vstd::prelude::*;
use vstd::string::StringExecFns;

pub mod auth;
pub mod blobs;
pub mod manifest;
pub mod pagination;

verus! {

/// The answer of a token endpoint.
#[derive(Debug, PartialEq, Eq)]
pub struct TokenAuth {
    pub token: String,
    pub expires_in: Option<u32>,
    pub issued_at: Option<String>,
    pub refresh_token: Option<String>,
}

/// What a `TokenAuth` holds.
pub struct TokenAuthView {
    pub token: Seq<char>,
    pub expires_in: Option<u32>,
    pub issued_at: Option<Seq<char>>,
    pub refresh_token: Option<Seq<char>>,
}

/// The view of an optional string.
pub open spec fn text_view(s: Option<String>) -> Option<Seq<char>> {
    match s {
        Some(s) => Some(s@),
        None => None,
    }
}

impl View for TokenAuth {
    type V = TokenAuthView;

    open spec fn view(&self) -> TokenAuthView {
        TokenAuthView {
            token: self.token@,
            expires_in: self.expires_in,
            issued_at: text_view(self.issued_at),
            refresh_token: text_view(self.refresh_token),
        }
    }
}

/// An optional string member: absent and `null` are `Some(None)`, a string is
/// `Some(Some(..))`, and a value of any other kind makes the document invalid (`None`).
pub open spec fn optional_text(doc: JsonView, key: Seq<char>) -> Option<Option<Seq<char>>> {
    match doc.present(key) {
        None => Some(None),
        Some(v) => match v.text() {
            Some(t) => Some(Some(t)),
            None => None,
        },
    }
}

/// An optional 32-bit member: absent and `null` are `Some(None)`, a number written in
/// plain digits that fits is `Some(Some(..))`, and anything else makes the document invalid.
pub open spec fn optional_u32(doc: JsonView, key: Seq<char>) -> Option<Option<u32>> {
    match doc.present(key) {
        None => Some(None),
        Some(v) => match v.natural() {
            Some(n) => if n <= u32::MAX {
                Some(Some(n as u32))
            } else {
                None
            },
            None => None,
        },
    }
}

/// A required string member.
pub open spec fn required_text(doc: JsonView, key: Seq<char>) -> Option<Seq<char>> {
    match doc.member(key) {
        Some(v) => v.text(),
        None => None,
    }
}

/// The token answer that a document holds: an object with a string `token`, and with
/// `expires_in`, `issued_at` and `refresh_token` of the right kind where they are given.
pub open spec fn token_auth_of(doc: JsonView) -> Option<TokenAuthView> {
    match (
        required_text(doc, "token"@),
        optional_u32(doc, "expires_in"@),
        optional_text(doc, "issued_at"@),
        optional_text(doc, "refresh_token"@),
    ) {
        (Some(token), Some(expires_in), Some(issued_at), Some(refresh_token)) => Some(
            TokenAuthView { token, expires_in, issued_at, refresh_token },
        ),
        _ => None,
    }
}

/// Reads an optional string member.
fn read_optional_text(doc: &Json, key: &str) -> (out: Option<Option<String>>)
    ensures
        match out {
            Some(s) => optional_text(doc@, key@) == Some(text_view(s)),
            None => optional_text(doc@, key@).is_none(),
        },
{
    match doc.get_present(key) {
        None => Some(None),
        Some(v) => match v.as_str() {
            Some(t) => Some(Some(t.to_string())),
            None => None,
        },
    }
}

/// Reads an optional 32-bit member.
fn read_optional_u32(doc: &Json, key: &str) -> (out: Option<Option<u32>>)
    ensures
        out == optional_u32(doc@, key@),
{
    match doc.get_present(key) {
        None => Some(None),
        Some(v) => match v.as_u64() {
            Some(n) => if n <= 0xffff_ffff {
                Some(Some(n as u32))
            } else {
                None
            },
            None => None,
        },
    }
}

/// Reads a required string member.
fn read_required_text(doc: &Json, key: &str) -> (out: Option<String>)
    ensures
        text_view(out) == required_text(doc@, key@),
{
    match doc.get(key) {
        Some(v) => match v.as_str() {
            Some(t) => Some(t.to_string()),
            None => None,
        },
        None => None,
    }
}

impl TokenAuth {
    /// Reads a token answer out of a document.
    pub fn from_json(doc: &Json) -> (out: Option<TokenAuth>)
        ensures
            match out {
                Some(t) => token_auth_of(doc@) == Some(t@),
                None => token_auth_of(doc@).is_none(),
            },
    {
        let token = read_required_text(doc, "token");
        let expires_in = read_optional_u32(doc, "expires_in");
        let issued_at = read_optional_text(doc, "issued_at");
        let refresh_token = read_optional_text(doc, "refresh_token");
        match (token, expires_in, issued_at, refresh_token) {
            (Some(token), Some(expires_in), Some(issued_at), Some(refresh_token)) => Some(
                TokenAuth { token, expires_in, issued_at, refresh_token },
            ),
            _ => None,
        }
    }
}

/// The texts of an array of strings; `None` for anything else.
pub open spec fn text_list(v: JsonView) -> Option<Seq<Seq<char>>> {
    match v.items() {
        Some(items) => if forall|i: int| 0 <= i < items.len() ==> (#[trigger] items[i]).text().is_some() {
            Some(Seq::new(items.len(), |i: int| items[i].text().unwrap()))
        } else {
            None
        },
        None => None,
    }
}

/// Reads an array of strings.
pub fn read_text_list(v: &Json) -> (out: Option<Vec<String>>)
    ensures
        match out {
            Some(list) => text_list(v@) == Some(list.deep_view()),
            None => text_list(v@).is_none(),
        },
{
    match v.as_array() {
        Some(items) => {
            let mut list: Vec<String> = Vec::new();
            let mut i: usize = 0;
            while i < items.len()
                invariant
                    i <= items.len(),
                    v@.items() == Some(views_of(items@)),
                    list.len() == i,
                    forall|k: int| 0 <= k < i ==> items@[k]@.text() == Some(#[trigger] list@[k]@),
                decreases items.len() - i,
            {
                match items[i].as_str() {
                    Some(t) => {
                        list.push(t.to_string());
                    },
                    None => {
                        assert(views_of(items@)[i as int] == items@[i as int]@);
                        return None;
                    },
                }
                i += 1;
            }
            proof {
                let views = views_of(items@);
                assert forall|k: int| 0 <= k < views.len() implies (#[trigger] views[k]).text().is_some() by {
                    assert(items@[k]@.text() == Some(list@[k]@));
                }
                assert(text_list(v@)->0 =~= list.deep_view());
            }
            Some(list)
        },
        None => None,
    }
}

/// A page of repository names.
#[derive(Debug, PartialEq, Eq)]
pub struct Catalog {
    pub repositories: Vec<String>,
}

impl View for Catalog {
    type V = Seq<Seq<char>>;

    open spec fn view(&self) -> Seq<Seq<char>> {
        self.repositories.deep_view()
    }
}

/// The repository names that a document holds: an object whose `repositories` is an
/// array of strings.
pub open spec fn catalog_of(doc: JsonView) -> Option<Seq<Seq<char>>> {
    match doc.member("repositories"@) {
        Some(v) => text_list(v),
        None => None,
    }
}

impl Catalog {
    /// Reads a catalog page out of a document.
    pub fn from_json(doc: &Json) -> (out: Option<Catalog>)
        ensures
            match out {
                Some(c) => catalog_of(doc@) == Some(c@),
                None => catalog_of(doc@).is_none(),
            },
    {
        match doc.get("repositories") {
            Some(v) => match read_text_list(v) {
                Some(repositories) => Some(Catalog { repositories }),
                None => None,
            },
            None => None,
        }
    }
}

/// One entry of a registry's error body.
#[derive(Debug, PartialEq, Eq)]
pub struct ApiError {
    code: String,
    message: String,
    detail: Option<Json>,
}

/// What an `ApiError` holds.
pub struct ApiErrorView {
    pub code: Seq<char>,
    pub message: Seq<char>,
    pub detail: Option<JsonView>,
}

impl View for ApiError {
    type V = ApiErrorView;

    closed spec fn view(&self) -> ApiErrorView {
        ApiErrorView {
            code: self.code@,
            message: self.message@,
            detail: match self.detail {
                Some(d) => Some(d@),
                None => None,
            },
        }
    }
}

impl DeepView for ApiError {
    type V = ApiErrorView;

    open spec fn deep_view(&self) -> ApiErrorView {
        self@
    }
}

/// The error entry that a value holds: an object with strings `code` and `message`;
/// `detail` may be any value, and is absent where it is missing or `null`.
pub open spec fn api_error_of(v: JsonView) -> Option<ApiErrorView> {
    match (required_text(v, "code"@), required_text(v, "message"@)) {
        (Some(code), Some(message)) => Some(
            ApiErrorView { code, message, detail: v.present("detail"@) },
        ),
        _ => None,
    }
}

impl ApiError {
    /// The registry's code for the error, such as `UNAUTHORIZED`.
    pub fn code(&self) -> (out: &str)
        ensures
            out@ == self@.code,
    {
        self.code.as_str()
    }

    /// The registry's message for a reader.
    pub fn message(&self) -> (out: &str)
        ensures
            out@ == self@.message,
    {
        self.message.as_str()
    }

    /// What the registry added to the error, if anything.
    pub fn detail(&self) -> (out: Option<&Json>)
        ensures
            match out {
                Some(d) => self@.detail == Some(d@),
                None => self@.detail.is_none(),
            },
    {
        match &self.detail {
            Some(d) => Some(d),
            None => None,
        }
    }

    /// Reads an error entry out of a value.
    pub fn from_json(v: &Json) -> (out: Option<ApiError>)
        ensures
            match out {
                Some(e) => api_error_of(v@) == Some(e@),
                None => api_error_of(v@).is_none(),
            },
    {
        let code = read_required_text(v, "code");
        let message = read_required_text(v, "message");
        match (code, message) {
            (Some(code), Some(message)) => {
                let detail = match v.get_present("detail") {
                    Some(d) => Some(d.duplicate()),
                    None => None,
                };
                Some(ApiError { code, message, detail })
            },
            _ => None,
        }
    }
}

/// A registry's error body: its entries, in the order given.
#[derive(Debug, PartialEq, Eq)]
pub struct Errors {
    errors: Vec<ApiError>,
}

impl View for Errors {
    type V = Seq<ApiErrorView>;

    closed spec fn view(&self) -> Seq<ApiErrorView> {
        self.errors.deep_view()
    }
}

/// The error entries that a document holds: an object whose `errors` is an array of entries.
pub open spec fn errors_of(doc: JsonView) -> Option<Seq<ApiErrorView>> {
    match doc.member("errors"@) {
        Some(v) => match v.items() {
            Some(items) => if forall|i: int|
                0 <= i < items.len() ==> api_error_of(#[trigger] items[i]).is_some() {
                Some(Seq::new(items.len(), |i: int| api_error_of(items[i]).unwrap()))
            } else {
                None
            },
            None => None,
        },
        None => None,
    }
}

/// The error entries in a body, where the body is a JSON document that holds them.
pub open spec fn errors_in(body: Seq<u8>) -> Option<Seq<ApiErrorView>> {
    match json_document(body) {
        Some(doc) => errors_of(doc),
        None => None,
    }
}

impl Errors {
    /// The entries, in the order in which the registry gave them.
    pub fn errors(&self) -> (out: &Vec<ApiError>)
        ensures
            out.deep_view() == self@,
    {
        &self.errors
    }

    /// Reads an error body out of a document.
    pub fn from_json(doc: &Json) -> (out: Option<Errors>)
        ensures
            match out {
                Some(e) => errors_of(doc@) == Some(e@),
                None => errors_of(doc@).is_none(),
            },
    {
        let items = match doc.get("errors") {
            Some(v) => match v.as_array() {
                Some(items) => items,
                None => {
                    return None;
                },
            },
            None => {
                return None;
            },
        };
        let ghost views = views_of(items@);
        let mut errors: Vec<ApiError> = Vec::new();
        let mut i: usize = 0;
        while i < items.len()
            invariant
                i <= items.len(),
                views == views_of(items@),
                doc@.member("errors"@) matches Some(v) && v.items() == Some(views),
                errors.len() == i,
                forall|k: int| 0 <= k < i ==> api_error_of(views[k]) == Some(#[trigger] errors@[k]@),
            decreases items.len() - i,
        {
            assert(views[i as int] == items@[i as int]@);
            match ApiError::from_json(&items[i]) {
                Some(e) => {
                    errors.push(e);
                },
                None => {
                    return None;
                },
            }
            i += 1;
        }
        let out = Errors { errors };
        proof {
            assert forall|k: int| 0 <= k < views.len() implies api_error_of(
                #[trigger] views[k],
            ).is_some() by {
                assert(api_error_of(views[k]) == Some(out.errors@[k]@));
            }
            assert(errors_of(doc@)->0 =~= out@);
        }
        Some(out)
    }

    /// Reads an error body out of the bytes of a response.
    pub fn decode(body: &[u8]) -> (out: Option<Errors>)
        ensures
            match out {
                Some(e) => errors_in(body@) == Some(e@),
                None => errors_in(body@).is_none(),
            },
    {
        match Json::parse(body) {
            Some(doc) => Errors::from_json(&doc),
            None => None,
        }
    }
}

/// The token answer in a body, where the body is a JSON document that holds one.
pub open spec fn token_auth_in(body: Seq<u8>) -> Option<TokenAuthView> {
    match json_document(body) {
        Some(doc) => token_auth_of(doc),
        None => None,
    }
}

/// The error that stands for a response that is not the expected one: the
/// registry's own errors where the body holds them, the bare status otherwise.
pub open spec fn response_error(r: ResponseView) -> ErrorView {
    match errors_in(r.body) {
        Some(errors) => ErrorView::Api(errors),
        None => ErrorView::UnexpectedStatus(r.status),
    }
}

/// Turns a response that is not the expected one into an error.
pub fn error_of(response: &Response) -> (out: Error)
    ensures
        out@ == response_error(response@),
{
    match Errors::decode(response.body.as_slice()) {
        Some(errors) => Error::Api(errors),
        None => Error::UnexpectedStatus(response.status),
    }
}

/// Where a login stands.
#[derive(Debug, PartialEq, Eq)]
pub enum LoginStage {
    /// No challenge is pending: the next response is taken for the answer to
    /// the anonymous probe.
    Anonymous,
    /// The registry has sent this challenge; the token endpoint has not answered yet.
    Challenged(AuthChallenge),
}

/// What a `LoginStage` holds.
pub enum LoginStageView {
    Anonymous,
    Challenged(AuthChallengeView),
}

impl View for LoginStage {
    type V = LoginStageView;

    open spec fn view(&self) -> LoginStageView {
        match self {
            LoginStage::Anonymous => LoginStageView::Anonymous,
            LoginStage::Challenged(c) => LoginStageView::Challenged(c@),
        }
    }
}

/// The view of an optional token answer.
pub open spec fn token_auth_view(t: Option<TokenAuth>) -> Option<TokenAuthView> {
    match t {
        Some(t) => Some(t@),
        None => None,
    }
}

/// How a client stands towards its registry.
#[derive(Clone, Copy, Debug, PartialEq, Eq, Structural)]
pub enum AuthState {
    /// No token is held, and no challenge is pending.
    Anonymous,
    /// A challenge is pending: the token endpoint has yet to answer.
    Challenged,
    /// A token is held, and no challenge is pending.
    Authenticated,
}

/// The settings from which a client is built.
#[derive(Debug, PartialEq, Eq)]
pub struct Config {
    index: String,
    insecure_registry: bool,
    user_agent: Option<String>,
    username: Option<String>,
    password: Option<String>,
    root_certificate: Option<Vec<u8>>,
}

/// What a `Config` holds.
pub struct ConfigView {
    pub index: Seq<char>,
    pub insecure_registry: bool,
    pub user_agent: Option<Seq<char>>,
    pub username: Option<Seq<char>>,
    pub password: Option<Seq<char>>,
    pub root_certificate: Option<Seq<u8>>,
}

/// The view of optional bytes.
pub open spec fn bytes_view(b: Option<Vec<u8>>) -> Option<Seq<u8>> {
    match b {
        Some(b) => Some(b@),
        None => None,
    }
}

impl View for Config {
    type V = ConfigView;

    closed spec fn view(&self) -> ConfigView {
        ConfigView {
            index: self.index@,
            insecure_registry: self.insecure_registry,
            user_agent: text_view(self.user_agent),
            username: text_view(self.username),
            password: text_view(self.password),
            root_certificate: bytes_view(self.root_certificate),
        }
    }
}

/// The settings of a client before any of them is changed: the public registry
/// over TLS, no credentials, the library's own `User-Agent`, the system's trust anchors.
pub open spec fn default_config() -> ConfigView {
    ConfigView {
        index: "registry-1.docker.io"@,
        insecure_registry: false,
        user_agent: None,
        username: None,
        password: None,
        root_certificate: None,
    }
}

/// The credentials that a user name and a password make: none where neither is
/// given, and an empty text for the one that is missing where only one is.
pub open spec fn credentials_of(
    username: Option<Seq<char>>,
    password: Option<Seq<char>>,
) -> Option<CredentialsView> {
    if username.is_none() && password.is_none() {
        None
    } else {
        Some(
            CredentialsView {
                username: match username {
                    Some(u) => u,
                    None => Seq::empty(),
                },
                password: match password {
                    Some(p) => p,
                    None => Seq::empty(),
                },
            },
        )
    }
}

/// The client that a configuration describes. Its base URL is `https://` and the
/// registry's name, or `http://` and the name for an insecure registry.
pub open spec fn client_of(c: ConfigView) -> ClientView {
    ClientView {
        base_url: if c.insecure_registry {
            "http://"@ + c.index
        } else {
            "https://"@ + c.index
        },
        index: c.index,
        credentials: credentials_of(c.username, c.password),
        user_agent: c.user_agent,
        root_certificate: c.root_certificate,
        stage: LoginStageView::Anonymous,
        token: None,
    }
}

impl Default for Config {
    fn default() -> (out: Config)
        ensures
            out@ == default_config(),
    {
        Config {
            index: "registry-1.docker.io".to_string(),
            insecure_registry: false,
            user_agent: None,
            username: None,
            password: None,
            root_certificate: None,
        }
    }
}

impl Config {
    /// Names the registry, as `host` or `host:port`.
    pub fn registry(self, name: &str) -> (out: Config)
        ensures
            out@ == (ConfigView { index: name@, ..self@ }),
    {
        Config { index: name.to_string(), ..self }
    }

    /// Chooses plain HTTP (`true`) or TLS (`false`).
    pub fn insecure_registry(self, insecure: bool) -> (out: Config)
        ensures
            out@ == (ConfigView { insecure_registry: insecure, ..self@ }),
    {
        Config { insecure_registry: insecure, ..self }
    }

    /// Sets the `User-Agent`; `None` stands for the library's own.
    pub fn user_agent(self, user_agent: Option<String>) -> (out: Config)
        ensures
            out@ == (ConfigView { user_agent: text_view(user_agent), ..self@ }),
    {
        Config { user_agent, ..self }
    }

    /// Sets the user name for the token endpoint.
    pub fn username(self, username: Option<String>) -> (out: Config)
        ensures
            out@ == (ConfigView { username: text_view(username), ..self@ }),
    {
        Config { username, ..self }
    }

    /// Sets the password for the token endpoint.
    pub fn password(self, password: Option<String>) -> (out: Config)
        ensures
            out@ == (ConfigView { password: text_view(password), ..self@ }),
    {
        Config { password, ..self }
    }

    /// Sets a certificate, in PEM, for the transport to trust beside the system's own.
    pub fn add_root_certificate(self, pem: Vec<u8>) -> (out: Config)
        ensures
            out@ == (ConfigView { root_certificate: Some(pem@), ..self@ }),
    {
        Config { root_certificate: Some(pem), ..self }
    }

    /// Builds the client, provided that its base URL is one.
    pub fn build(self) -> (out: Result<Client, Error>)
        ensures
            match out {
                Ok(client) => client@ == client_of(self@) && uri_accepted(client@.base_url),
                Err(e) => e@ == ErrorView::InvalidUrl && !uri_accepted(client_of(self@).base_url),
            },
    {
        let mut base_url = if self.insecure_registry {
            "http://".to_string()
        } else {
            "https://".to_string()
        };
        base_url.append(self.index.as_str());
        if !parses_as_uri(base_url.as_str()) {
            return Err(Error::InvalidUrl);
        }
        let credentials = match (self.username, self.password) {
            (None, None) => None,
            (username, password) => Some(
                Credentials {
                    username: match username {
                        Some(u) => u,
                        None => String::new(),
                    },
                    password: match password {
                        Some(p) => p,
                        None => String::new(),
                    },
                },
            ),
        };
        Ok(
            Client {
                base_url,
                index: self.index,
                credentials,
                user_agent: self.user_agent,
                root_certificate: self.root_certificate,
                stage: LoginStage::Anonymous,
                token: None,
            },
        )
    }
}

/// A client for one registry: its base URL, what it presents to the token
/// endpoint, the one token it may hold, and where its login stands.
///
/// The token is apart from the login: it is replaced when a login ends with
/// a new one, and at no other time.
#[derive(Debug, PartialEq, Eq)]
pub struct Client {
    base_url: String,
    index: String,
    credentials: Option<Credentials>,
    user_agent: Option<String>,
    root_certificate: Option<Vec<u8>>,
    stage: LoginStage,
    token: Option<TokenAuth>,
}

/// What a `Client` holds.
pub struct ClientView {
    pub base_url: Seq<char>,
    pub index: Seq<char>,
    pub credentials: Option<CredentialsView>,
    pub user_agent: Option<Seq<char>>,
    pub root_certificate: Option<Seq<u8>>,
    pub stage: LoginStageView,
    pub token: Option<TokenAuthView>,
}

impl ClientView {
    /// The Bearer token that is held, if any.
    pub open spec fn bearer(self) -> Option<Seq<char>> {
        match self.token {
            Some(t) => Some(t.token),
            None => None,
        }
    }

    /// How the client stands towards its registry.
    pub open spec fn state(self) -> AuthState {
        match self.stage {
            LoginStageView::Challenged(_) => AuthState::Challenged,
            LoginStageView::Anonymous => if self.token.is_some() {
                AuthState::Authenticated
            } else {
                AuthState::Anonymous
            },
        }
    }
}

impl View for Client {
    type V = ClientView;

    closed spec fn view(&self) -> ClientView {
        ClientView {
            base_url: self.base_url@,
            index: self.index@,
            credentials: match self.credentials {
                Some(c) => Some(c@),
                None => None,
            },
            user_agent: text_view(self.user_agent),
            root_certificate: bytes_view(self.root_certificate),
            stage: self.stage@,
            token: token_auth_view(self.token),
        }
    }
}

/// The `User-Agent` header of a client's requests: the configured value, or the
/// library's own.
pub open spec fn agent_header(c: ClientView) -> HeaderView {
    HeaderView {
        name: "User-Agent"@,
        value: match c.user_agent {
            Some(agent) => agent,
            None => USER_AGENT@,
        },
    }
}

/// The headers that sign a request: `Authorization: Bearer <token>` where a
/// token is held, and the `User-Agent`.
pub open spec fn signed_headers(c: ClientView) -> Seq<HeaderView> {
    match c.bearer() {
        Some(token) => seq![
            HeaderView { name: "Authorization"@, value: "Bearer "@ + token },
            agent_header(c),
        ],
        None => seq![agent_header(c)],
    }
}

/// The signed request for `url`, without a body.
pub open spec fn signed_request(c: ClientView, method: Method, url: Seq<char>) -> RequestView {
    RequestView { method, url, headers: signed_headers(c), body: Seq::empty() }
}

/// The signed request for `url`, or `InvalidUrl` where `url` is no URI.
pub open spec fn checked_request(c: ClientView, method: Method, url: Seq<char>) -> Result<
    RequestView,
    ErrorView,
> {
    if uri_accepted(url) {
        Ok(signed_request(c, method, url))
    } else {
        Err(ErrorView::InvalidUrl)
    }
}

/// The request for `url` that presents nothing: the `User-Agent` alone, whether
/// or not a token is held. `InvalidUrl` where `url` is no URI.
pub open spec fn anonymous_request(c: ClientView, method: Method, url: Seq<char>) -> Result<
    RequestView,
    ErrorView,
> {
    if uri_accepted(url) {
        Ok(RequestView { method, url, headers: seq![agent_header(c)], body: Seq::empty() })
    } else {
        Err(ErrorView::InvalidUrl)
    }
}

/// The request that asks the token endpoint at `url` for a token: Basic
/// credentials where the client has them, never the Bearer token.
pub open spec fn token_request(c: ClientView, url: Seq<char>) -> RequestView {
    RequestView {
        method: Method::Get,
        url,
        headers: match c.credentials {
            Some(credentials) => seq![
                HeaderView { name: "Authorization"@, value: basic_authorization(credentials) },
                agent_header(c),
            ],
            None => seq![agent_header(c)],
        },
        body: Seq::empty(),
    }
}

/// Whether a response to `GET /v2/` shows a registry that speaks version 2: the
/// status is 200 or 401, and the version header says `registry/2.0`.
pub open spec fn v2_supported(r: ResponseView) -> bool {
    (r.status == 200 || r.status == 401) && header_value(
        r.headers,
        "Docker-Distribution-API-Version"@,
    ) == Some("registry/2.0"@)
}

/// What a login makes of one response: the client afterwards, and either the
/// request to send next, or nothing more to do, or the failure.
pub struct LoginStep {
    pub client: ClientView,
    pub result: Result<Option<RequestView>, ErrorView>,
}

/// A login that ends without a new token: no challenge is pending any more,
/// and the token that was held, if any, is held still.
pub open spec fn login_ended(c: ClientView, result: Result<Option<RequestView>, ErrorView>) -> LoginStep {
    LoginStep { client: ClientView { stage: LoginStageView::Anonymous, ..c }, result }
}

/// One step of a login.
///
/// With no challenge pending, the response is the answer to the anonymous
/// probe: 200 means that the registry wants no token, and the login is over;
/// 401 with a Bearer challenge whose token URL is a URI leads to the token
/// request; anything else fails the probe. With a challenge pending, the
/// response is the token endpoint's answer: 200 with a token ends the login
/// with that token in place of the one held before; 200 without a token and
/// any other status fail the login. The token changes in that one case and in
/// no other.
pub open spec fn login_step(c: ClientView, scopes: Seq<Seq<char>>, r: ResponseView) -> LoginStep {
    match c.stage {
        LoginStageView::Anonymous => {
            if r.status == 200 {
                login_ended(c, Ok(None))
            } else if r.status == 401 {
                match header_value(r.headers, "WWW-Authenticate"@) {
                    Some(header) => match parse_challenge(header) {
                        Some(challenge) => if uri_accepted(token_url(challenge, scopes)) {
                            LoginStep {
                                client: ClientView {
                                    stage: LoginStageView::Challenged(challenge),
                                    ..c
                                },
                                result: Ok(Some(token_request(c, token_url(challenge, scopes)))),
                            }
                        } else {
                            login_ended(c, Err(ErrorView::AuthProbeFailed))
                        },
                        None => login_ended(c, Err(ErrorView::AuthProbeFailed)),
                    },
                    None => login_ended(c, Err(ErrorView::AuthProbeFailed)),
                }
            } else {
                login_ended(c, Err(ErrorView::AuthProbeFailed))
            }
        },
        LoginStageView::Challenged(_) => {
            if r.status == 200 {
                match token_auth_in(r.body) {
                    Some(token) => LoginStep {
                        client: ClientView {
                            stage: LoginStageView::Anonymous,
                            token: Some(token),
                            ..c
                        },
                        result: Ok(None),
                    },
                    None => login_ended(c, Err(ErrorView::TokenResponseInvalid)),
                }
            } else {
                login_ended(c, Err(ErrorView::TokenRequestFailed(r.status)))
            }
        },
    }
}

/// The view of what a login step returns.
pub open spec fn step_view(r: Result<Option<Request>, Error>) -> Result<
    Option<RequestView>,
    ErrorView,
> {
    match r {
        Ok(Some(request)) => Ok(Some(request@)),
        Ok(None) => Ok(None),
        Err(e) => Err(e@),
    }
}

/// A registry that answers the anonymous probe with 200 wants no token: the
/// login is over, successfully, no token request is sent, and the client is as
/// it was, with the token it held, if it held one.
pub proof fn lemma_open_registry_needs_no_token(
    c: ClientView,
    scopes: Seq<Seq<char>>,
    probe: ResponseView,
)
    requires
        c.stage is Anonymous,
        probe.status == 200,
    ensures
        login_step(c, scopes, probe).result == Ok::<Option<RequestView>, ErrorView>(None),
        login_step(c, scopes, probe).client == c,
{
}

/// A challenge that leads to a token request, followed by a 200 answer that
/// holds a token, leaves the client authenticated with exactly that token,
/// whatever token it held before.
pub proof fn lemma_challenge_then_token_authenticates(
    c: ClientView,
    scopes: Seq<Seq<char>>,
    probe: ResponseView,
    answer: ResponseView,
    token: TokenAuthView,
)
    requires
        c.stage is Anonymous,
        probe.status == 401,
        login_step(c, scopes, probe).result matches Ok(Some(_)),
        answer.status == 200,
        token_auth_in(answer.body) == Some(token),
    ensures
        ({
            let challenged = login_step(c, scopes, probe).client;
            let done = login_step(challenged, scopes, answer);
            &&& challenged.state() == AuthState::Challenged
            &&& challenged.token == c.token
            &&& done.result == Ok::<Option<RequestView>, ErrorView>(None)
            &&& done.client.token == Some(token)
            &&& done.client.bearer() == Some(token.token)
            &&& done.client.state() == AuthState::Authenticated
        }),
{
}

/// A login step replaces the token only where the token endpoint answers a
/// pending challenge with 200 and a token. A failed probe, a refused token
/// request and an answer without a token leave the token that was held, and
/// so does every step that fails. Nothing else of the client changes but the
/// stage of the login.
pub proof fn lemma_login_replaces_the_token_only_on_success(
    c: ClientView,
    scopes: Seq<Seq<char>>,
    r: ResponseView,
)
    ensures
        ({
            let step = login_step(c, scopes, r);
            &&& step.client == (ClientView { stage: step.client.stage, token: step.client.token, ..c })
            &&& step.result is Err ==> step.client.token == c.token && step.client.stage
                is Anonymous
            &&& step.client.token != c.token ==> c.stage is Challenged && r.status == 200
                && token_auth_in(r.body) == step.client.token
            &&& c.stage is Anonymous ==> step.client.token == c.token
        }),
{
}

impl Client {
    /// The settings to start from.
    pub fn configure() -> (out: Config)
        ensures
            out@ == default_config(),
    {
        Config::default()
    }

    /// The URL that every path of the registry is appended to.
    pub fn base_url(&self) -> (out: &str)
        ensures
            out@ == self@.base_url,
    {
        self.base_url.as_str()
    }

    /// The registry's name, as it was configured.
    pub fn index(&self) -> (out: &str)
        ensures
            out@ == self@.index,
    {
        self.index.as_str()
    }

    /// The Bearer token that the client holds, if any.
    pub fn token(&self) -> (out: Option<&str>)
        ensures
            match out {
                Some(t) => self@.bearer() == Some(t@),
                None => self@.bearer().is_none(),
            },
    {
        match &self.token {
            Some(t) => Some(t.token.as_str()),
            None => None,
        }
    }

    /// The token endpoint's answer that the client holds, if any.
    pub fn token_auth(&self) -> (out: Option<&TokenAuth>)
        ensures
            match out {
                Some(t) => self@.token == Some(t@),
                None => self@.token.is_none(),
            },
    {
        match &self.token {
            Some(t) => Some(t),
            None => None,
        }
    }

    /// Where the login stands.
    pub fn stage(&self) -> (out: &LoginStage)
        ensures
            out@ == self@.stage,
    {
        &self.stage
    }

    /// How the client stands towards its registry.
    pub fn auth(&self) -> (out: AuthState)
        ensures
            out == self@.state(),
    {
        match &self.stage {
            LoginStage::Challenged(_) => AuthState::Challenged,
            LoginStage::Anonymous => if self.token.is_some() {
                AuthState::Authenticated
            } else {
                AuthState::Anonymous
            },
        }
    }

    /// The certificate that the transport is to trust beside the system's own.
    pub fn root_certificate(&self) -> (out: Option<&Vec<u8>>)
        ensures
            match out {
                Some(pem) => self@.root_certificate == Some(pem@),
                None => self@.root_certificate.is_none(),
            },
    {
        match &self.root_certificate {
            Some(pem) => Some(pem),
            None => None,
        }
    }

    /// The `User-Agent` header of this client's requests.
    fn agent(&self) -> (out: Header)
        ensures
            out@ == agent_header(self@),
    {
        let value = match &self.user_agent {
            Some(agent) => agent.clone(),
            None => USER_AGENT.to_string(),
        };
        Header::new("User-Agent", value)
    }

    /// Signs a request for `url`: the Bearer token where one is held, and the `User-Agent`.
    pub fn new_request(&self, method: Method, url: String) -> (out: Request)
        ensures
            out@ == signed_request(self@, method, url@),
    {
        let mut headers: Vec<Header> = Vec::new();
        match &self.token {
            Some(t) => {
                let mut value = "Bearer ".to_string();
                value.append(t.token.as_str());
                headers.push(Header::new("Authorization", value));
            },
            None => {},
        }
        headers.push(self.agent());
        let out = Request { method, url, headers, body: Vec::new() };
        assert(out@.headers =~= signed_headers(self@));
        out
    }

    /// Signs a request for `url`, provided that `url` is a URI.
    pub fn request(&self, method: Method, url: String) -> (out: Result<Request, Error>)
        ensures
            result_view(out) == checked_request(self@, method, url@),
    {
        if parses_as_uri(url.as_str()) {
            Ok(self.new_request(method, url))
        } else {
            Err(Error::InvalidUrl)
        }
    }

    /// The request that asks the registry's root: `GET <base>/v2/`.
    pub fn probe_request(&self) -> (out: Result<Request, Error>)
        ensures
            result_view(out) == checked_request(
                self@,
                Method::Get,
                self@.base_url + "/v2/"@,
            ),
    {
        let mut url = self.base_url.clone();
        url.append("/v2/");
        self.request(Method::Get, url)
    }

    /// Whether the answer to `probe_request` shows a registry that speaks version 2.
    pub fn is_v2_supported(&self, response: &Response) -> (out: bool)
        ensures
            out == v2_supported(response@),
    {
        if response.status == 200 || response.status == 401 {
            match response.header("Docker-Distribution-API-Version") {
                Some(version) => same_text(version, "registry/2.0"),
                None => false,
            }
        } else {
            false
        }
    }

    /// Whether the answer to `probe_request` shows that the registry lets the client in.
    pub fn is_auth(&self, response: &Response) -> (out: bool)
        ensures
            out == (response.status == 200),
    {
        response.status == 200
    }

    /// The request that asks the token endpoint at `url` for a token.
    fn token_request(&self, url: String) -> (out: Request)
        ensures
            out@ == token_request(self@, url@),
    {
        let mut headers: Vec<Header> = Vec::new();
        match &self.credentials {
            Some(credentials) => {
                headers.push(Header::new("Authorization", credentials.authorization()));
            },
            None => {},
        }
        headers.push(self.agent());
        let out = Request { method: Method::Get, url, headers, body: Vec::new() };
        assert(out@.headers =~= token_request(self@, url@).headers);
        out
    }

    /// Starts a login over and returns the anonymous probe, `GET <base>/v2/`,
    /// which presents nothing but the `User-Agent`. A challenge that was
    /// pending is forgotten; a token that is held stays.
    pub fn begin_login(&mut self) -> (out: Result<Request, Error>)
        ensures
            final(self)@ == (ClientView { stage: LoginStageView::Anonymous, ..old(self)@ }),
            result_view(out) == anonymous_request(
                old(self)@,
                Method::Get,
                old(self)@.base_url + "/v2/"@,
            ),
    {
        self.stage = LoginStage::Anonymous;
        let mut url = self.base_url.clone();
        url.append("/v2/");
        if !parses_as_uri(url.as_str()) {
            return Err(Error::InvalidUrl);
        }
        let mut headers: Vec<Header> = Vec::new();
        headers.push(self.agent());
        let out = Request { method: Method::Get, url, headers, body: Vec::new() };
        assert(out@.headers =~= seq![agent_header(self@)]);
        Ok(out)
    }

    /// Takes a login one step further with the response to the request that was
    /// sent last, and returns the request to send next, if there is one.
    pub fn login(&mut self, scopes: &[&str], response: &Response) -> (out: Result<
        Option<Request>,
        Error,
    >)
        ensures
            final(self)@ == login_step(old(self)@, scopes.deep_view(), response@).client,
            step_view(out) == login_step(old(self)@, scopes.deep_view(), response@).result,
    {
        let challenged = match &self.stage {
            LoginStage::Anonymous => false,
            LoginStage::Challenged(_) => true,
        };
        if !challenged {
            if response.status == 200 {
                return Ok(None);
            }
            if response.status != 401 {
                return Err(Error::AuthProbeFailed);
            }
            let challenge = match response.header("WWW-Authenticate") {
                Some(header) => match AuthChallenge::parse(header) {
                    Ok(challenge) => challenge,
                    Err(_) => {
                        return Err(Error::AuthProbeFailed);
                    },
                },
                None => {
                    return Err(Error::AuthProbeFailed);
                },
            };
            let url = challenge.token_url(scopes);
            if !parses_as_uri(url.as_str()) {
                return Err(Error::AuthProbeFailed);
            }
            let request = self.token_request(url);
            self.stage = LoginStage::Challenged(challenge);
            Ok(Some(request))
        } else {
            self.stage = LoginStage::Anonymous;
            if response.status != 200 {
                return Err(Error::TokenRequestFailed(response.status));
            }
            let token = match Json::parse(response.body.as_slice()) {
                Some(doc) => TokenAuth::from_json(&doc),
                None => None,
            };
            match token {
                Some(token) => {
                    self.token = Some(token);
                    Ok(None)
                },
                None => Err(Error::TokenResponseInvalid),
            }
        }
    }
}

} // verus!
