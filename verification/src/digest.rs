//! Content digests: `algorithm:hex` identifiers, and the hashing behind them.

use crate::errors::{result_view, Error, ErrorView};
use crate::text::{
    chars_of, eq_ignore_case, find_char, index_of, lemma_index_of_is, same_text,
    same_text_ignore_case, slice_string,
};
use vstd::prelude::*;
use vstd::std_specs::cmp::PartialEqSpecImpl;
use vstd::string::StringExecFns;

verus! {

/// The SHA-256 hash of `data`, as `sha2::Sha256` computes it.
pub uninterp spec fn sha256(data: Seq<u8>) -> Seq<u8>;

/// The SHA-512 hash of `data`, as `sha2::Sha512` computes it.
pub uninterp spec fn sha512(data: Seq<u8>) -> Seq<u8>;

/// A SHA-256 computation that takes its input piece by piece.
///
/// It holds a `sha2::Sha256`, whose type Verus cannot be told of: the type is
/// an instance of a generic one with bounds on outside traits.
#[verifier::external_body]
pub struct Sha256Stream {
    inner: sha2::Sha256,
}

/// A SHA-512 computation that takes its input piece by piece.
///
/// It holds a `sha2::Sha512`, whose type Verus cannot be told of: the type is
/// an instance of a generic one with bounds on outside traits.
#[verifier::external_body]
pub struct Sha512Stream {
    inner: sha2::Sha512,
}

/// The bytes that a SHA-256 computation has been given so far, in order.
pub uninterp spec fn sha256_input(stream: Sha256Stream) -> Seq<u8>;

/// The bytes that a SHA-512 computation has been given so far, in order.
pub uninterp spec fn sha512_input(stream: Sha512Stream) -> Seq<u8>;

/// Calls `sha2::Digest::new` for `sha2::Sha256`: a computation that has been given nothing.
#[verifier::external_body]
fn sha256_start() -> (out: Sha256Stream)
    ensures
        sha256_input(out) == Seq::<u8>::empty(),
{
    Sha256Stream { inner: <sha2::Sha256 as sha2::Digest>::new() }
}

/// Calls `sha2::Digest::update`: the computation is given `chunk` behind what it had.
#[verifier::external_body]
fn sha256_update(stream: &mut Sha256Stream, chunk: &[u8])
    ensures
        sha256_input(*final(stream)) == sha256_input(*old(stream)) + chunk@,
{
    sha2::Digest::update(&mut stream.inner, chunk)
}

/// Calls `sha2::Digest::finalize`: the hash of all that the computation was
/// given, however it was cut into pieces.
#[verifier::external_body]
fn sha256_finish(stream: Sha256Stream) -> (out: Vec<u8>)
    ensures
        out@ == sha256(sha256_input(stream)),
{
    sha2::Digest::finalize(stream.inner).to_vec()
}

/// Calls `sha2::Digest::new` for `sha2::Sha512`: a computation that has been given nothing.
#[verifier::external_body]
fn sha512_start() -> (out: Sha512Stream)
    ensures
        sha512_input(out) == Seq::<u8>::empty(),
{
    Sha512Stream { inner: <sha2::Sha512 as sha2::Digest>::new() }
}

/// Calls `sha2::Digest::update`: the computation is given `chunk` behind what it had.
#[verifier::external_body]
fn sha512_update(stream: &mut Sha512Stream, chunk: &[u8])
    ensures
        sha512_input(*final(stream)) == sha512_input(*old(stream)) + chunk@,
{
    sha2::Digest::update(&mut stream.inner, chunk)
}

/// Calls `sha2::Digest::finalize`: the hash of all that the computation was
/// given, however it was cut into pieces.
#[verifier::external_body]
fn sha512_finish(stream: Sha512Stream) -> (out: Vec<u8>)
    ensures
        out@ == sha512(sha512_input(stream)),
{
    sha2::Digest::finalize(stream.inner).to_vec()
}

/// The SHA-256 hash of `data`.
fn hash_sha256(data: &[u8]) -> (out: Vec<u8>)
    ensures
        out@ == sha256(data@),
{
    let mut stream = sha256_start();
    sha256_update(&mut stream, data);
    assert(Seq::<u8>::empty() + data@ =~= data@);
    sha256_finish(stream)
}

/// The SHA-512 hash of `data`.
fn hash_sha512(data: &[u8]) -> (out: Vec<u8>)
    ensures
        out@ == sha512(data@),
{
    let mut stream = sha512_start();
    sha512_update(&mut stream, data);
    assert(Seq::<u8>::empty() + data@ =~= data@);
    sha512_finish(stream)
}

/// The sixteen hexadecimal digits, in order, in lower case.
pub const HEX_DIGITS: &'static str = "0123456789abcdef";

/// The lower-case hexadecimal digit for `n`.
pub open spec fn hex_digit(n: int) -> char {
    if n < 10 {
        (48 + n) as char
    } else {
        (87 + n) as char
    }
}

/// Whether `c` is a hexadecimal digit, in either case.
pub open spec fn is_hex_digit(c: char) -> bool {
    ('0' <= c <= '9') || ('a' <= c <= 'f') || ('A' <= c <= 'F')
}

/// Whether every character of `s` is a hexadecimal digit.
pub open spec fn all_hex(s: Seq<char>) -> bool {
    forall|i: int| 0 <= i < s.len() ==> is_hex_digit(#[trigger] s[i])
}

/// The lower-case hexadecimal text of `bytes`: two digits for each byte.
pub open spec fn hex_text(bytes: Seq<u8>) -> Seq<char>
    decreases bytes.len(),
{
    if bytes.len() == 0 {
        Seq::empty()
    } else {
        hex_text(bytes.drop_last()).push(hex_digit((bytes.last() / 16) as int)).push(
            hex_digit((bytes.last() % 16) as int),
        )
    }
}

/// Hexadecimal text holds hexadecimal digits only.
pub proof fn lemma_hex_text_is_hex(bytes: Seq<u8>)
    ensures
        all_hex(hex_text(bytes)),
        hex_text(bytes).len() == 2 * bytes.len(),
    decreases bytes.len(),
{
    if bytes.len() > 0 {
        lemma_hex_text_is_hex(bytes.drop_last());
        let prefix = hex_text(bytes.drop_last());
        let whole = hex_text(bytes);
        assert forall|i: int| 0 <= i < whole.len() implies is_hex_digit(#[trigger] whole[i]) by {
            if i < prefix.len() {
                assert(whole[i] == prefix[i]);
            }
        }
    }
}

/// Appends the hexadecimal digit for `n` to `out`.
fn push_hex_digit(out: &mut String, n: u8)
    requires
        n < 16,
    ensures
        final(out)@ == old(out)@.push(hex_digit(n as int)),
{
    proof {
        reveal_strlit("0123456789abcdef");
    }
    let one = HEX_DIGITS.substring_char(n as usize, n as usize + 1);
    assert(one@ =~= seq![hex_digit(n as int)]);
    out.append(one);
    assert(out@ =~= old(out)@.push(hex_digit(n as int)));
}

/// Renders `bytes` in lower-case hexadecimal.
pub fn to_hex(bytes: &[u8]) -> (out: String)
    ensures
        out@ == hex_text(bytes@),
{
    let mut out = String::new();
    let mut i: usize = 0;
    assert(bytes@.take(0) =~= Seq::<u8>::empty());
    while i < bytes.len()
        invariant
            i <= bytes.len(),
            out@ == hex_text(bytes@.take(i as int)),
        decreases bytes.len() - i,
    {
        let b = bytes[i];
        push_hex_digit(&mut out, b / 16);
        push_hex_digit(&mut out, b % 16);
        proof {
            assert(bytes@.take(i + 1).drop_last() =~= bytes@.take(i as int));
            assert(bytes@.take(i + 1).last() == b);
        }
        i += 1;
    }
    assert(bytes@.take(bytes.len() as int) =~= bytes@);
    out
}

/// A content identifier: the name of a hash algorithm and the hash in hexadecimal.
///
/// Two digests are equal when they are the same digest: `==` does not look at
/// the case of the hexadecimal letters.
#[derive(Debug, Eq)]
pub struct Digest {
    pub algorithm: String,
    pub hex: String,
}

/// What a `Digest` holds.
pub struct DigestView {
    pub algorithm: Seq<char>,
    pub hex: Seq<char>,
}

impl View for Digest {
    type V = DigestView;

    open spec fn view(&self) -> DigestView {
        DigestView { algorithm: self.algorithm@, hex: self.hex@ }
    }
}

/// Two digests are the same when their algorithms are equal and their
/// hexadecimal texts are equal but for the case of the letters.
pub open spec fn same_digest(a: DigestView, b: DigestView) -> bool {
    a.algorithm == b.algorithm && eq_ignore_case(a.hex, b.hex)
}

impl PartialEq for Digest {
    fn eq(&self, other: &Digest) -> (out: bool) {
        self.same_as(other)
    }
}

impl PartialEqSpecImpl for Digest {
    open spec fn obeys_eq_spec() -> bool {
        true
    }

    open spec fn eq_spec(&self, other: &Digest) -> bool {
        same_digest(self@, other@)
    }
}

/// The digest written as `algorithm:hex`: the algorithm is what stands before the
/// first colon and is not empty; what follows the colon is hexadecimal digits only.
pub open spec fn parse_digest(s: Seq<char>) -> Option<DigestView> {
    let colon = index_of(s, ':', 0);
    if 0 < colon < s.len() && all_hex(s.subrange(colon + 1, s.len() as int)) {
        Some(
            DigestView {
                algorithm: s.subrange(0, colon),
                hex: s.subrange(colon + 1, s.len() as int),
            },
        )
    } else {
        None
    }
}

/// The text `algorithm:hex` of a digest.
pub open spec fn digest_text(d: DigestView) -> Seq<char> {
    d.algorithm + seq![':'] + d.hex
}

/// Whether `algorithm` names a hash that the library computes.
pub open spec fn known_algorithm(algorithm: Seq<char>) -> bool {
    algorithm == "sha256"@ || algorithm == "sha512"@
}

/// The digest of `data` under a named algorithm; `None` for an algorithm
/// other than `sha256` and `sha512`.
pub open spec fn digest_of(algorithm: Seq<char>, data: Seq<u8>) -> Option<DigestView> {
    if algorithm == "sha256"@ {
        Some(DigestView { algorithm, hex: hex_text(sha256(data)) })
    } else if algorithm == "sha512"@ {
        Some(DigestView { algorithm, hex: hex_text(sha512(data)) })
    } else {
        None
    }
}

/// What holding content against the digest expected of it comes to: the digest
/// of the content, computed with the algorithm that the expected digest names,
/// where the two are the same. A digest of an algorithm that `digest_of` does
/// not know can never be confirmed, so it is a mismatch like any other.
pub open spec fn confirmed_digest(expected: DigestView, data: Seq<u8>) -> Result<
    DigestView,
    ErrorView,
> {
    match digest_of(expected.algorithm, data) {
        Some(computed) => if same_digest(computed, expected) {
            Ok(computed)
        } else {
            Err(ErrorView::DigestMismatch)
        },
        None => Err(ErrorView::DigestMismatch),
    }
}

/// What checking content against an announced digest comes to.
///
/// With nothing announced the content is identified by its SHA-256 digest. What
/// is announced must be a well-formed digest and be confirmed by the content;
/// anything else is a mismatch.
pub open spec fn checked_digest(announced: Option<Seq<char>>, data: Seq<u8>) -> Result<
    DigestView,
    ErrorView,
> {
    match announced {
        None => Ok(sha256_digest(data)),
        Some(text) => match parse_digest(text) {
            Some(d) => confirmed_digest(d, data),
            None => Err(ErrorView::DigestMismatch),
        },
    }
}

/// Whether `c` is a hexadecimal digit.
fn hex_digit_char(c: char) -> (out: bool)
    ensures
        out == is_hex_digit(c),
{
    ('0' <= c && c <= '9') || ('a' <= c && c <= 'f') || ('A' <= c && c <= 'F')
}

impl Digest {
    /// Reads a digest written as `algorithm:hex`.
    pub fn parse(s: &str) -> (out: Result<Digest, Error>)
        ensures
            match out {
                Ok(d) => parse_digest(s@) == Some(d@),
                Err(e) => parse_digest(s@).is_none() && e@ == ErrorView::Decode,
            },
    {
        let chars = chars_of(s);
        let colon = find_char(&chars, ':', 0);
        if colon == 0 || colon >= chars.len() {
            return Err(Error::Decode);
        }
        let ghost hex = s@.subrange(colon + 1, s@.len() as int);
        let mut i: usize = colon + 1;
        while i < chars.len()
            invariant
                colon < i <= chars.len(),
                chars@ == s@,
                colon == index_of(s@, ':', 0),
                hex == s@.subrange(colon + 1, s@.len() as int),
                forall|k: int| 0 <= k < i - colon - 1 ==> is_hex_digit(#[trigger] hex[k]),
            decreases chars.len() - i,
        {
            if !hex_digit_char(chars[i]) {
                assert(hex[i - colon - 1] == chars@[i as int]);
                assert(!is_hex_digit(hex[i - colon - 1]));
                return Err(Error::Decode);
            }
            i += 1;
        }
        Ok(
            Digest {
                algorithm: slice_string(s, 0, colon),
                hex: slice_string(s, colon + 1, chars.len()),
            },
        )
    }

    /// The digest written as `algorithm:hex`.
    pub fn text(&self) -> (out: String)
        ensures
            out@ == digest_text(self@),
    {
        let mut out = self.algorithm.clone();
        out.append(":");
        out.append(self.hex.as_str());
        proof {
            reveal_strlit(":");
            assert(out@ =~= digest_text(self@));
        }
        out
    }

    /// Whether two digests identify the same content.
    pub fn same_as(&self, other: &Digest) -> (out: bool)
        ensures
            out == same_digest(self@, other@),
    {
        same_text(self.algorithm.as_str(), other.algorithm.as_str()) && same_text_ignore_case(
            self.hex.as_str(),
            other.hex.as_str(),
        )
    }

    /// Computes the digest of `data` under the named algorithm.
    pub fn of(algorithm: &str, data: &[u8]) -> (out: Option<Digest>)
        ensures
            match out {
                Some(d) => digest_of(algorithm@, data@) == Some(d@),
                None => digest_of(algorithm@, data@).is_none(),
            },
    {
        if same_text(algorithm, "sha256") {
            let hash = hash_sha256(data);
            Some(Digest { algorithm: algorithm.to_string(), hex: to_hex(hash.as_slice()) })
        } else if same_text(algorithm, "sha512") {
            let hash = hash_sha512(data);
            Some(Digest { algorithm: algorithm.to_string(), hex: to_hex(hash.as_slice()) })
        } else {
            None
        }
    }

    /// Checks content against the digest that was announced for it, and returns
    /// the digest of the content.
    pub fn check(announced: Option<&str>, data: &[u8]) -> (out: Result<Digest, Error>)
        ensures
            result_view(out) == checked_digest(announced_view(announced), data@),
    {
        match announced {
            None => {
                let hash = hash_sha256(data);
                Ok(Digest { algorithm: "sha256".to_string(), hex: to_hex(hash.as_slice()) })
            },
            Some(text) => match Digest::parse(text) {
                Ok(d) => match Digest::of(d.algorithm.as_str(), data) {
                    Some(computed) => if computed.same_as(&d) {
                        Ok(computed)
                    } else {
                        Err(Error::DigestMismatch)
                    },
                    None => Err(Error::DigestMismatch),
                },
                Err(_) => Err(Error::DigestMismatch),
            },
        }
    }
}

/// The view of an optional header value.
pub open spec fn announced_view(announced: Option<&str>) -> Option<Seq<char>> {
    match announced {
        Some(s) => Some(s@),
        None => None,
    }
}

/// The SHA-256 digest of `data`.
pub open spec fn sha256_digest(data: Seq<u8>) -> DigestView {
    DigestView { algorithm: "sha256"@, hex: hex_text(sha256(data)) }
}

/// Whether a text announces the digest of `data`: it is a well-formed digest, of
/// an algorithm that `digest_of` knows, and the same as the digest of `data`.
pub open spec fn announces(text: Seq<char>, data: Seq<u8>) -> bool {
    match parse_digest(text) {
        Some(d) => match digest_of(d.algorithm, data) {
            Some(computed) => same_digest(computed, d),
            None => false,
        },
        None => false,
    }
}

/// A digest is the same as itself, and `same_digest` does not depend on the
/// order of its arguments.
pub proof fn lemma_same_digest_is_symmetric(a: DigestView, b: DigestView)
    ensures
        same_digest(a, a),
        same_digest(a, b) == same_digest(b, a),
{
}

/// Content passes the check exactly when the announced text announces its
/// digest; whatever else is announced is a mismatch, never another error.
pub proof fn lemma_check_accepts_only_the_digest(text: Seq<char>, data: Seq<u8>)
    ensures
        checked_digest(Some(text), data) is Ok <==> announces(text, data),
        !announces(text, data) ==> checked_digest(Some(text), data) == Err::<
            DigestView,
            ErrorView,
        >(ErrorView::DigestMismatch),
{
}

/// A digest that is written out is read back as itself.
pub proof fn lemma_digest_text_round_trip(d: DigestView)
    requires
        d.algorithm.len() > 0,
        forall|i: int| 0 <= i < d.algorithm.len() ==> d.algorithm[i] != ':',
        all_hex(d.hex),
    ensures
        parse_digest(digest_text(d)) == Some(d),
{
    let s = digest_text(d);
    let n = d.algorithm.len() as int;
    assert forall|i: int| 0 <= i < n implies s[i] != ':' by {
        assert(s[i] == d.algorithm[i]);
    }
    assert(s[n] == ':');
    lemma_index_of_is(s, ':', 0, n);
    assert(s.subrange(0, n) =~= d.algorithm);
    assert(s.subrange(n + 1, s.len() as int) =~= d.hex);
}

/// The SHA-256 digest of some content, announced for that content, passes the check.
pub proof fn lemma_announced_sha256_is_accepted(data: Seq<u8>)
    ensures
        announces(digest_text(sha256_digest(data)), data),
        checked_digest(Some(digest_text(sha256_digest(data))), data) == Ok::<
            DigestView,
            ErrorView,
        >(sha256_digest(data)),
{
    let d = sha256_digest(data);
    reveal_strlit("sha256");
    lemma_hex_text_is_hex(sha256(data));
    lemma_digest_text_round_trip(d);
}

/// The computation behind a `Verifier`.
enum HashState {
    Sha256(Sha256Stream),
    Sha512(Sha512Stream),
}

/// Checks content that arrives piece by piece against the digest expected of it.
pub struct Verifier {
    state: HashState,
    hex: String,
}

impl Verifier {
    /// The digest that the content is expected to have.
    pub closed spec fn expected(self) -> DigestView {
        DigestView {
            algorithm: match self.state {
                HashState::Sha256(_) => "sha256"@,
                HashState::Sha512(_) => "sha512"@,
            },
            hex: self.hex@,
        }
    }

    /// The content that has been taken in so far.
    pub closed spec fn content(self) -> Seq<u8> {
        match self.state {
            HashState::Sha256(stream) => sha256_input(stream),
            HashState::Sha512(stream) => sha512_input(stream),
        }
    }

    /// A verifier for content that is expected to have the digest `expected`.
    ///
    /// A digest of an algorithm that `digest_of` does not know cannot be
    /// confirmed, so it is a mismatch from the start.
    pub fn new(expected: &Digest) -> (out: Result<Verifier, Error>)
        ensures
            match out {
                Ok(v) => v.expected() == expected@ && v.content() == Seq::<u8>::empty()
                    && known_algorithm(expected@.algorithm),
                Err(e) => e@ == ErrorView::DigestMismatch && !known_algorithm(
                    expected@.algorithm,
                ),
            },
    {
        if same_text(expected.algorithm.as_str(), "sha256") {
            Ok(Verifier { state: HashState::Sha256(sha256_start()), hex: expected.hex.clone() })
        } else if same_text(expected.algorithm.as_str(), "sha512") {
            Ok(Verifier { state: HashState::Sha512(sha512_start()), hex: expected.hex.clone() })
        } else {
            Err(Error::DigestMismatch)
        }
    }

    /// Takes in the next piece of the content.
    pub fn update(&mut self, chunk: &[u8])
        ensures
            final(self).expected() == old(self).expected(),
            final(self).content() == old(self).content() + chunk@,
    {
        match &mut self.state {
            HashState::Sha256(stream) => sha256_update(stream, chunk),
            HashState::Sha512(stream) => sha512_update(stream, chunk),
        }
    }

    /// Ends the content: its digest where that is the expected one, a mismatch otherwise.
    pub fn finish(self) -> (out: Result<Digest, Error>)
        ensures
            result_view(out) == confirmed_digest(self.expected(), self.content()),
    {
        proof {
            reveal_strlit("sha256");
            reveal_strlit("sha512");
            assert("sha512"@[3] != "sha256"@[3]);
        }
        let expected_hex = self.hex;
        let computed = match self.state {
            HashState::Sha256(stream) => {
                let hash = sha256_finish(stream);
                Digest { algorithm: "sha256".to_string(), hex: to_hex(hash.as_slice()) }
            },
            HashState::Sha512(stream) => {
                let hash = sha512_finish(stream);
                Digest { algorithm: "sha512".to_string(), hex: to_hex(hash.as_slice()) }
            },
        };
        if same_text_ignore_case(computed.hex.as_str(), expected_hex.as_str()) {
            Ok(computed)
        } else {
            Err(Error::DigestMismatch)
        }
    }
}

} // verus!
