//! Bearer authentication: the challenge a registry sends, and the token
//! request that answers it.

use crate::base64::{base64, encode};
use crate::errors::{Error, ErrorView};
use crate::text::{chars_of, find_char, has_char, index_of, lemma_index_of_is, same_text, slice_string};
use crate::v2::text_view;
use vstd::prelude::*;
use vstd::string::StringExecFns;
use vstd::utf8::encode_utf8;

verus! {

/// What a `WWW-Authenticate: Bearer` header asks for.
#[derive(Debug, PartialEq, Eq)]
pub struct AuthChallenge {
    pub realm: String,
    pub service: Option<String>,
    pub scope: Vec<String>,
}

/// What an `AuthChallenge` holds.
pub struct AuthChallengeView {
    pub realm: Seq<char>,
    pub service: Option<Seq<char>>,
    pub scope: Seq<Seq<char>>,
}

impl View for AuthChallenge {
    type V = AuthChallengeView;

    open spec fn view(&self) -> AuthChallengeView {
        AuthChallengeView {
            realm: self.realm@,
            service: text_view(self.service),
            scope: self.scope.deep_view(),
        }
    }
}

/// Where the item that starts at `from` ends: at the first comma outside double
/// quotes, or at the end of the text. `quoted` says whether `from` is inside quotes.
pub open spec fn item_end(s: Seq<char>, from: int, quoted: bool) -> int
    decreases s.len() - from,
{
    if from < 0 || from >= s.len() {
        s.len() as int
    } else if s[from] == '"' {
        item_end(s, from + 1, !quoted)
    } else if s[from] == ',' && !quoted {
        from
    } else {
        item_end(s, from + 1, quoted)
    }
}

/// An item never ends before it starts.
pub proof fn lemma_item_end_bounds(s: Seq<char>, from: int, quoted: bool)
    requires
        0 <= from <= s.len(),
    ensures
        from <= item_end(s, from, quoted) <= s.len(),
    decreases s.len() - from,
{
    if from < s.len() {
        if s[from] == '"' {
            lemma_item_end_bounds(s, from + 1, !quoted);
        } else if !(s[from] == ',' && !quoted) {
            lemma_item_end_bounds(s, from + 1, quoted);
        }
    }
}

/// A value without the one pair of double quotes around it, if it has one.
pub open spec fn unquote(v: Seq<char>) -> Seq<char> {
    if v.len() >= 2 && v[0] == '"' && v.last() == '"' {
        v.subrange(1, v.len() - 1)
    } else {
        v
    }
}

/// What has been read of a challenge so far.
pub struct ChallengeFields {
    pub realm: Option<Seq<char>>,
    pub service: Option<Seq<char>>,
    pub scope: Seq<Seq<char>>,
}

/// The fields after one more item. An item is split at its first `=`; `realm` and
/// `service` replace what was there, each `scope` is added at the end, and an item
/// with another key, or without `=`, changes nothing.
pub open spec fn absorb(acc: ChallengeFields, item: Seq<char>) -> ChallengeFields {
    let eq = index_of(item, '=', 0);
    if eq >= item.len() {
        acc
    } else {
        let key = item.subrange(0, eq);
        let value = unquote(item.subrange(eq + 1, item.len() as int));
        if key == "realm"@ {
            ChallengeFields { realm: Some(value), ..acc }
        } else if key == "service"@ {
            ChallengeFields { service: Some(value), ..acc }
        } else if key == "scope"@ {
            ChallengeFields { scope: acc.scope.push(value), ..acc }
        } else {
            acc
        }
    }
}

/// The fields after every item of `s` from `from` on, the items being what
/// top-level commas separate.
pub open spec fn absorb_items(s: Seq<char>, from: int, acc: ChallengeFields) -> ChallengeFields
    decreases s.len() - from,
{
    if from < 0 || from > s.len() {
        acc
    } else {
        let end = item_end(s, from, false);
        let next = absorb(acc, s.subrange(from, end));
        if end >= s.len() {
            next
        } else {
            proof {
                lemma_item_end_bounds(s, from, false);
            }
            absorb_items(s, end + 1, next)
        }
    }
}

/// No field read yet.
pub open spec fn no_fields() -> ChallengeFields {
    ChallengeFields { realm: None, service: None, scope: Seq::empty() }
}

/// The challenge in a header value of the form `Bearer realm="..",service="..",scope=".."`.
///
/// `None` where the value does not start with `Bearer ` or names no realm.
pub open spec fn parse_challenge(header: Seq<char>) -> Option<AuthChallengeView> {
    let prefix = "Bearer "@;
    if header.len() >= prefix.len() && header.subrange(0, prefix.len() as int) == prefix {
        let fields = absorb_items(header, prefix.len() as int, no_fields());
        match fields.realm {
            Some(realm) => Some(
                AuthChallengeView { realm, service: fields.service, scope: fields.scope },
            ),
            None => None,
        }
    } else {
        None
    }
}

/// The item `key="value"`.
pub open spec fn quoted_item(key: Seq<char>, value: Seq<char>) -> Seq<char> {
    key + seq!['=', '"'] + value + seq!['"']
}

/// The items `,scope=".."`, one for each scope, in order.
pub open spec fn scope_items(scopes: Seq<Seq<char>>) -> Seq<char>
    decreases scopes.len(),
{
    if scopes.len() == 0 {
        Seq::empty()
    } else {
        seq![','] + quoted_item("scope"@, scopes[0]) + scope_items(scopes.drop_first())
    }
}

/// The item `,service=".."`, where a service is named.
pub open spec fn service_item(service: Option<Seq<char>>) -> Seq<char> {
    match service {
        Some(s) => seq![','] + quoted_item("service"@, s),
        None => Seq::empty(),
    }
}

/// The header value that states a challenge: `Bearer realm=".."`, then the
/// service, then the scopes, each value in double quotes.
pub open spec fn challenge_header(c: AuthChallengeView) -> Seq<char> {
    "Bearer "@ + quoted_item("realm"@, c.realm) + service_item(c.service) + scope_items(c.scope)
}

/// Whether a value holds no double quote, so that it can stand between quotes.
pub open spec fn unquoted(v: Seq<char>) -> bool {
    forall|i: int| 0 <= i < v.len() ==> v[i] != '"'
}

/// Whether a challenge can be written as a header: no value holds a double quote.
pub open spec fn writable(c: AuthChallengeView) -> bool {
    &&& unquoted(c.realm)
    &&& c.service matches Some(s) ==> unquoted(s)
    &&& forall|i: int| 0 <= i < c.scope.len() ==> unquoted(#[trigger] c.scope[i])
}

/// Whether a key holds none of the characters that structure a challenge.
spec fn plain_key(key: Seq<char>) -> bool {
    forall|i: int| 0 <= i < key.len() ==> key[i] != '=' && key[i] != '"' && key[i] != ','
}

proof fn lemma_keys()
    ensures
        plain_key("realm"@),
        plain_key("service"@),
        plain_key("scope"@),
        "realm"@ != "service"@,
        "realm"@ != "scope"@,
        "service"@ != "scope"@,
{
    reveal_strlit("realm");
    reveal_strlit("service");
    reveal_strlit("scope");
    assert("realm"@.len() != "service"@.len());
    assert("scope"@.len() != "service"@.len());
    assert("realm"@[0] != "scope"@[0]);
}

/// Characters that neither open nor close quotes, and are no top-level comma,
/// are passed over.
proof fn lemma_item_end_skip(s: Seq<char>, from: int, to: int, quoted: bool)
    requires
        0 <= from <= to <= s.len(),
        forall|i: int| from <= i < to ==> s[i] != '"' && (quoted || s[i] != ','),
    ensures
        item_end(s, from, quoted) == item_end(s, to, quoted),
    decreases to - from,
{
    if from < to {
        lemma_item_end_skip(s, from + 1, to, quoted);
    }
}

/// An item `key="value"` that is followed by a comma, or by nothing, ends where
/// its closing quote stands.
proof fn lemma_quoted_item_end(pre: Seq<char>, key: Seq<char>, value: Seq<char>, rest: Seq<char>)
    requires
        plain_key(key),
        unquoted(value),
        rest.len() == 0 || rest[0] == ',',
    ensures
        ({
            let item = quoted_item(key, value);
            let s = pre + item + rest;
            &&& item_end(s, pre.len() as int, false) == pre.len() + item.len()
            &&& s.subrange(pre.len() as int, (pre.len() + item.len()) as int) == item
        }),
{
    let item = quoted_item(key, value);
    let s = pre + item + rest;
    let p = pre.len() as int;
    let k = key.len() as int;
    let v = value.len() as int;
    assert(item.len() == k + v + 3);
    assert forall|i: int| p <= i < p + k + 1 implies s[i] != '"' && s[i] != ',' by {
        assert(s[i] == item[i - p]);
        if i < p + k {
            assert(item[i - p] == key[i - p]);
        }
    }
    lemma_item_end_skip(s, p, p + k + 1, false);
    assert(s[p + k + 1] == item[k + 1]);
    assert(s[p + k + 1] == '"');
    assert forall|i: int| p + k + 2 <= i < p + k + 2 + v implies s[i] != '"' by {
        assert(s[i] == item[i - p]);
        assert(item[i - p] == value[i - p - k - 2]);
    }
    lemma_item_end_skip(s, p + k + 2, p + k + 2 + v, true);
    assert(s[p + k + 2 + v] == item[k + 2 + v]);
    assert(s[p + k + 2 + v] == '"');
    assert(item_end(s, p + k + 1, false) == item_end(s, p + k + 2, true));
    assert(item_end(s, p + k + 2 + v, true) == item_end(s, p + k + v + 3, false));
    if rest.len() > 0 {
        assert(s[p + k + v + 3] == rest[0]);
        assert(item_end(s, p + k + v + 3, false) == p + k + v + 3);
    } else {
        assert(s.len() == p + k + v + 3);
        assert(item_end(s, p + k + v + 3, false) == p + k + v + 3);
    }
    assert(item_end(s, p, false) == p + k + v + 3);
    assert(s.subrange(p, p + item.len()) =~= item);
}

/// What `absorb` makes of an item `key="value"`.
proof fn lemma_absorb_quoted_item(acc: ChallengeFields, key: Seq<char>, value: Seq<char>)
    requires
        plain_key(key),
        unquoted(value),
    ensures
        ({
            let item = quoted_item(key, value);
            let raw = item.subrange((key.len() + 1) as int, item.len() as int);
            &&& index_of(item, '=', 0) == key.len()
            &&& item.subrange(0, key.len() as int) == key
            &&& unquote(raw) == value
        }),
{
    let item = quoted_item(key, value);
    let k = key.len() as int;
    assert forall|i: int| 0 <= i < k implies item[i] != '=' by {
        assert(item[i] == key[i]);
    }
    assert(item[k] == '=');
    lemma_index_of_is(item, '=', 0, k);
    assert(item.subrange(0, k) =~= key);
    let raw = item.subrange(k + 1, item.len() as int);
    assert(raw.len() == value.len() + 2);
    assert(raw[0] == item[k + 1]);
    assert(raw.last() == item[item.len() - 1]);
    assert(raw.subrange(1, raw.len() - 1) =~= value);
}

/// Reading on from an item `key="value"`: either the text ends with it, or the
/// next item starts behind the comma that follows.
proof fn lemma_absorb_step(
    pre: Seq<char>,
    key: Seq<char>,
    value: Seq<char>,
    rest: Seq<char>,
    acc: ChallengeFields,
)
    requires
        plain_key(key),
        unquoted(value),
        rest.len() == 0 || rest[0] == ',',
    ensures
        ({
            let item = quoted_item(key, value);
            let s = pre + item + rest;
            absorb_items(s, pre.len() as int, acc) == if rest.len() == 0 {
                absorb(acc, item)
            } else {
                absorb_items(s, (pre.len() + item.len() + 1) as int, absorb(acc, item))
            }
        }),
{
    lemma_quoted_item_end(pre, key, value, rest);
}

/// Reading the items of `scopes` adds them to the scopes read before, in order.
proof fn lemma_absorb_scopes(pre: Seq<char>, scopes: Seq<Seq<char>>, acc: ChallengeFields)
    requires
        scopes.len() >= 1,
        forall|i: int| 0 <= i < scopes.len() ==> unquoted(#[trigger] scopes[i]),
    ensures
        ({
            let s = pre + quoted_item("scope"@, scopes[0]) + scope_items(scopes.drop_first());
            absorb_items(s, pre.len() as int, acc) == (ChallengeFields {
                scope: acc.scope + scopes,
                ..acc
            })
        }),
    decreases scopes.len(),
{
    lemma_keys();
    let item = quoted_item("scope"@, scopes[0]);
    let tail = scopes.drop_first();
    let rest = scope_items(tail);
    let s = pre + item + rest;
    let next = ChallengeFields { scope: acc.scope.push(scopes[0]), ..acc };
    assert(unquoted(scopes[0]));
    lemma_absorb_step(pre, "scope"@, scopes[0], rest, acc);
    lemma_absorb_quoted_item(acc, "scope"@, scopes[0]);
    assert(absorb(acc, item) == next);
    if tail.len() == 0 {
        assert(acc.scope.push(scopes[0]) =~= acc.scope + scopes);
    } else {
        let pre2 = pre + item + seq![','];
        assert forall|i: int| 0 <= i < tail.len() implies unquoted(#[trigger] tail[i]) by {
            assert(tail[i] == scopes[i + 1]);
        }
        lemma_absorb_scopes(pre2, tail, next);
        assert(s =~= pre2 + quoted_item("scope"@, tail[0]) + scope_items(tail.drop_first()));
        assert(next.scope + tail =~= acc.scope + scopes);
    }
}

/// What is written as a challenge header is read back as the same challenge:
/// the realm and the service exactly, and the scopes in their order.
pub proof fn lemma_challenge_round_trip(c: AuthChallengeView)
    requires
        writable(c),
    ensures
        parse_challenge(challenge_header(c)) == Some(c),
{
    lemma_keys();
    reveal_strlit("Bearer ");
    let bearer = "Bearer "@;
    let realm = quoted_item("realm"@, c.realm);
    let h = challenge_header(c);
    let rest = service_item(c.service) + scope_items(c.scope);
    assert(h =~= bearer + realm + rest);
    assert(h.subrange(0, 7) =~= bearer);
    let start = no_fields();
    let first = ChallengeFields { realm: Some(c.realm), ..start };
    lemma_absorb_step(bearer, "realm"@, c.realm, rest, start);
    lemma_absorb_quoted_item(start, "realm"@, c.realm);
    assert(absorb(start, realm) == first);
    let pre2 = bearer + realm + seq![','];
    match c.service {
        Some(sv) => {
            let service = quoted_item("service"@, sv);
            let second = ChallengeFields { service: Some(sv), ..first };
            let scopes = scope_items(c.scope);
            assert(h =~= pre2 + service + scopes);
            lemma_absorb_step(pre2, "service"@, sv, scopes, first);
            lemma_absorb_quoted_item(first, "service"@, sv);
            assert(absorb(first, service) == second);
            if c.scope.len() > 0 {
                let pre3 = pre2 + service + seq![','];
                lemma_absorb_scopes(pre3, c.scope, second);
                assert(h =~= pre3 + quoted_item("scope"@, c.scope[0]) + scope_items(
                    c.scope.drop_first(),
                ));
                assert(second.scope + c.scope =~= c.scope);
            } else {
                assert(c.scope =~= Seq::<Seq<char>>::empty());
            }
        },
        None => {
            if c.scope.len() > 0 {
                lemma_absorb_scopes(pre2, c.scope, first);
                assert(h =~= pre2 + quoted_item("scope"@, c.scope[0]) + scope_items(
                    c.scope.drop_first(),
                ));
                assert(first.scope + c.scope =~= c.scope);
            } else {
                assert(c.scope =~= Seq::<Seq<char>>::empty());
            }
        },
    }
}

/// Finds where the item that starts at `from` ends.
fn scan_item(s: &Vec<char>, from: usize) -> (end: usize)
    requires
        from <= s.len(),
    ensures
        end == item_end(s@, from as int, false),
        from <= end <= s.len(),
{
    let mut i: usize = from;
    let mut quoted = false;
    while i < s.len()
        invariant
            from <= i <= s.len(),
            item_end(s@, from as int, false) == item_end(s@, i as int, quoted),
        decreases s.len() - i,
    {
        let c = s[i];
        if c == '"' {
            quoted = !quoted;
        } else if c == ',' && !quoted {
            return i;
        }
        i += 1;
    }
    i
}

/// Finds the first `c` in `s[from..to]`.
fn find_within(s: &Vec<char>, c: char, from: usize, to: usize) -> (at: usize)
    requires
        from <= to <= s.len(),
    ensures
        from <= at <= to,
        at - from == index_of(s@.subrange(from as int, to as int), c, 0),
{
    let ghost part = s@.subrange(from as int, to as int);
    let mut i: usize = from;
    while i < to && s[i] != c
        invariant
            from <= i <= to <= s.len(),
            part == s@.subrange(from as int, to as int),
            forall|k: int| 0 <= k < i - from ==> part[k] != c,
        decreases to - i,
    {
        i += 1;
    }
    proof {
        if i < to {
            assert(part[i - from] == s@[i as int]);
        }
        lemma_index_of_is(part, c, 0, i - from);
    }
    i
}

impl AuthChallenge {
    /// Reads the challenge out of a `WWW-Authenticate` header value.
    pub fn parse(header: &str) -> (out: Result<AuthChallenge, Error>)
        ensures
            match out {
                Ok(c) => parse_challenge(header@) == Some(c@),
                Err(e) => parse_challenge(header@).is_none() && e@
                    == ErrorView::AuthChallengeMalformed,
            },
    {
        proof {
            reveal_strlit("Bearer ");
        }
        let s = chars_of(header);
        if s.len() < 7 || !same_text(header.substring_char(0, 7), "Bearer ") {
            return Err(Error::AuthChallengeMalformed);
        }
        let mut realm: Option<String> = None;
        let mut service: Option<String> = None;
        let mut scope: Vec<String> = Vec::new();
        let mut from: usize = 7;
        assert(scope.deep_view() =~= Seq::<Seq<char>>::empty());
        loop
            invariant_except_break
                absorb_items(header@, 7, no_fields()) == absorb_items(
                    header@,
                    from as int,
                    ChallengeFields {
                        realm: text_view(realm),
                        service: text_view(service),
                        scope: scope.deep_view(),
                    },
                ),
            invariant
                s@ == header@,
                7 <= from <= s.len(),
            ensures
                absorb_items(header@, 7, no_fields()) == (ChallengeFields {
                    realm: text_view(realm),
                    service: text_view(service),
                    scope: scope.deep_view(),
                }),
            decreases s.len() - from,
        {
            let end = scan_item(&s, from);
            let eq = find_within(&s, '=', from, end);
            let ghost item = header@.subrange(from as int, end as int);
            let ghost before = scope.deep_view();
            if eq < end {
                let key = slice_string(header, from, eq);
                assert(key@ =~= item.subrange(0, eq - from));
                let ghost raw = item.subrange(eq - from + 1, item.len() as int);
                assert(raw =~= header@.subrange(eq + 1, end as int));
                let value = if end - eq >= 3 && s[eq + 1] == '"' && s[end - 1] == '"' {
                    assert(raw[0] == s@[eq + 1] && raw.last() == s@[end - 1]);
                    assert(raw.subrange(1, raw.len() - 1) =~= header@.subrange(
                        eq + 2,
                        end - 1,
                    ));
                    slice_string(header, eq + 2, end - 1)
                } else {
                    proof {
                        if raw.len() >= 2 {
                            assert(raw[0] == s@[eq + 1] && raw.last() == s@[end - 1]);
                        }
                    }
                    slice_string(header, eq + 1, end)
                };
                assert(value@ == unquote(raw));
                if same_text(key.as_str(), "realm") {
                    realm = Some(value);
                } else if same_text(key.as_str(), "service") {
                    service = Some(value);
                } else if same_text(key.as_str(), "scope") {
                    scope.push(value);
                    assert(scope.deep_view() =~= before.push(value@));
                }
            }
            if end >= s.len() {
                break ;
            }
            from = end + 1;
        }
        match realm {
            Some(realm) => Ok(AuthChallenge { realm, service, scope }),
            None => Err(Error::AuthChallengeMalformed),
        }
    }
}

/// A URL with one more query parameter: behind `?` where the URL has no query
/// yet, behind `&` where it has one.
pub open spec fn with_query(url: Seq<char>, key: Seq<char>, value: Seq<char>) -> Seq<char> {
    url + seq![if has_char(url, '?') { '&' } else { '?' }] + key + seq!['='] + value
}

/// A URL with one `scope` parameter for each of `scopes[from..]`, in that order.
pub open spec fn with_scopes(url: Seq<char>, scopes: Seq<Seq<char>>, from: int) -> Seq<char>
    decreases scopes.len() - from,
{
    if from < 0 || from >= scopes.len() {
        url
    } else {
        with_scopes(with_query(url, "scope"@, scopes[from]), scopes, from + 1)
    }
}

/// The URL that asks a challenge's realm for a token: the realm, the service where
/// the challenge names one, and the requested scopes in the caller's order, a
/// scope that is asked for twice being sent twice.
pub open spec fn token_url(challenge: AuthChallengeView, scopes: Seq<Seq<char>>) -> Seq<char> {
    let base = match challenge.service {
        Some(service) => with_query(challenge.realm, "service"@, service),
        None => challenge.realm,
    };
    with_scopes(base, scopes, 0)
}

/// Appends one query parameter to `url`.
pub fn append_query(url: &mut String, key: &str, value: &str)
    ensures
        final(url)@ == with_query(old(url)@, key@, value@),
{
    let chars = chars_of(url.as_str());
    let at = find_char(&chars, '?', 0);
    proof {
        reveal_strlit("&");
        reveal_strlit("?");
        reveal_strlit("=");
    }
    if at < chars.len() {
        url.append("&");
    } else {
        url.append("?");
    }
    url.append(key);
    url.append("=");
    url.append(value);
    assert(url@ =~= with_query(old(url)@, key@, value@));
}

impl AuthChallenge {
    /// The URL that asks this challenge's realm for a token with the given scopes.
    pub fn token_url(&self, scopes: &[&str]) -> (out: String)
        ensures
            out@ == token_url(self@, scopes.deep_view()),
    {
        let mut url = self.realm.clone();
        match &self.service {
            Some(service) => {
                append_query(&mut url, "service", service.as_str());
            },
            None => {},
        }
        let mut i: usize = 0;
        while i < scopes.len()
            invariant
                i <= scopes.len(),
                token_url(self@, scopes.deep_view()) == with_scopes(
                    url@,
                    scopes.deep_view(),
                    i as int,
                ),
            decreases scopes.len() - i,
        {
            assert(scopes.deep_view()[i as int] == scopes@[i as int]@);
            append_query(&mut url, "scope", scopes[i]);
            i += 1;
        }
        url
    }
}

/// A user name and a password, as the token endpoint takes them.
#[derive(Debug, PartialEq, Eq)]
pub struct Credentials {
    pub username: String,
    pub password: String,
}

/// What `Credentials` hold.
pub struct CredentialsView {
    pub username: Seq<char>,
    pub password: Seq<char>,
}

impl View for Credentials {
    type V = CredentialsView;

    open spec fn view(&self) -> CredentialsView {
        CredentialsView { username: self.username@, password: self.password@ }
    }
}

/// The `Authorization` value for Basic authentication: `Basic `, then the Base64
/// text of the UTF-8 bytes of `username:password`.
pub open spec fn basic_authorization(c: CredentialsView) -> Seq<char> {
    "Basic "@ + base64(encode_utf8(c.username + seq![':'] + c.password))
}

impl Credentials {
    /// The `Authorization` value that presents these credentials.
    pub fn authorization(&self) -> (out: String)
        ensures
            out@ == basic_authorization(self@),
    {
        let mut pair = self.username.clone();
        pair.append(":");
        pair.append(self.password.as_str());
        proof {
            reveal_strlit(":");
            assert(pair@ =~= self@.username + seq![':'] + self@.password);
        }
        let encoded = encode(pair.as_str().as_bytes());
        let mut out = "Basic ".to_string();
        out.append(encoded.as_str());
        out
    }
}

} // verus!
