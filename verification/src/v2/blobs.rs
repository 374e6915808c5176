//! Blobs: downloading one, and uploading one in chunks that can be resumed.

use crate::digest::{digest_text, known_algorithm, Digest, DigestView, Verifier};
use crate::errors::{outcome_view, result_view, Error, ErrorView};
use crate::http::{
    header_value, is_success, Header, HeaderView, Method, Request, RequestView, Response,
    ResponseView,
};
use crate::text::{
    chars_of, decimal, digits_value, find_char, index_of, lemma_decimal_round_trip,
    lemma_index_of_is, parse_decimal, push_decimal, read_decimal,
};
use crate::v2::auth::{append_query, with_query};
use crate::v2::pagination::resolve;
use crate::v2::{
    checked_request, error_of, response_error, signed_headers, Client, ClientView,
};
use vstd::prelude::*;
use vstd::string::StringExecFns;

verus! {

/// The URL of the blob `digest` of the repository `name`.
pub open spec fn blob_url(c: ClientView, name: Seq<char>, digest: DigestView) -> Seq<char> {
    c.base_url + "/v2/"@ + name + "/blobs/"@ + digest_text(digest)
}

/// The URL that opens an upload to the repository `name`.
pub open spec fn uploads_url(c: ClientView, name: Seq<char>) -> Seq<char> {
    c.base_url + "/v2/"@ + name + "/blobs/uploads/"@
}

/// An upload that is under way: the registry's name for it, where its next
/// request goes, and how many bytes the registry has confirmed.
#[derive(Debug, PartialEq, Eq)]
pub struct BlobUploadSession {
    id: String,
    location: String,
    range_sent: u64,
}

/// What a `BlobUploadSession` holds.
pub struct SessionView {
    pub id: Seq<char>,
    pub location: Seq<char>,
    pub range_sent: u64,
}

impl View for BlobUploadSession {
    type V = SessionView;

    closed spec fn view(&self) -> SessionView {
        SessionView { id: self.id@, location: self.location@, range_sent: self.range_sent }
    }
}

impl BlobUploadSession {
    /// The registry's name for the upload.
    pub fn id(&self) -> (out: &str)
        ensures
            out@ == self@.id,
    {
        self.id.as_str()
    }

    /// Where the next request of the upload goes.
    pub fn location(&self) -> (out: &str)
        ensures
            out@ == self@.location,
    {
        self.location.as_str()
    }

    /// The number of bytes that the registry has confirmed.
    pub fn range_sent(&self) -> (out: u64)
        ensures
            out == self@.range_sent,
    {
        self.range_sent
    }
}

/// The session that a response to an upload request opens: the status is 202,
/// `Docker-Upload-UUID` names the session and `Location` says where it goes on.
pub open spec fn started_upload(c: ClientView, r: ResponseView) -> Result<SessionView, ErrorView> {
    if r.status == 202 {
        match (
            header_value(r.headers, "Location"@),
            header_value(r.headers, "Docker-Upload-UUID"@),
        ) {
            (Some(location), Some(id)) => Ok(
                SessionView { id, location: resolve(c.base_url, location), range_sent: 0 },
            ),
            _ => Err(ErrorView::UploadInitFailed),
        }
    } else {
        Err(ErrorView::UploadInitFailed)
    }
}

/// The `Content-Range` of a chunk of `len` bytes that starts at `start`: the
/// first and the last position, `<start>-<start+len-1>`.
pub open spec fn content_range(start: nat, len: nat) -> Seq<char> {
    decimal(start) + seq!['-'] + decimal((start + len - 1) as nat)
}

/// The request that sends a chunk: the signed `PATCH` of the session's
/// location, with the `Content-Range` behind the signing headers, and the chunk as body.
pub open spec fn chunk_request(c: ClientView, s: SessionView, bytes: Seq<u8>) -> Result<
    RequestView,
    ErrorView,
> {
    match checked_request(c, Method::Patch, s.location) {
        Ok(request) => Ok(
            RequestView {
                headers: request.headers.push(
                    HeaderView {
                        name: "Content-Range"@,
                        value: content_range(s.range_sent as nat, bytes.len()),
                    },
                ),
                body: bytes,
                ..request
            },
        ),
        Err(e) => Err(e),
    }
}

/// The number of bytes that a `Range` value of the form `0-<last>` confirms: one
/// more than the last position.
pub open spec fn confirmed_offset(value: Seq<char>) -> Option<nat> {
    let dash = index_of(value, '-', 0);
    if dash < value.len() {
        match (
            parse_decimal(value.subrange(0, dash)),
            parse_decimal(value.subrange(dash + 1, value.len() as int)),
        ) {
            (Some(first), Some(last)) => if first == 0 {
                Some(last + 1)
            } else {
                None
            },
            _ => None,
        }
    } else {
        None
    }
}

/// What the answer to a chunk makes of a session.
pub struct ChunkOutcome {
    pub session: SessionView,
    pub result: Result<(), ErrorView>,
}

/// A chunk that did not go through: the session is as it was.
pub open spec fn chunk_failed(s: SessionView, e: ErrorView) -> ChunkOutcome {
    ChunkOutcome { session: s, result: Err(e) }
}

/// What the answer to a chunk of `sent` bytes makes of a session.
///
/// A status outside 2xx refuses the chunk. Otherwise the `Range` header says how
/// many bytes the registry holds: the session goes on from there, at the
/// `Location` of the answer where it has one. A `Range` that is missing or
/// malformed, that falls behind what was confirmed before, or that confirms
/// more than was sent, cannot be gone on from: the answer is not valid data.
pub open spec fn chunk_outcome(c: ClientView, s: SessionView, sent: nat, r: ResponseView) -> ChunkOutcome {
    if !is_success(r.status) {
        chunk_failed(s, ErrorView::ChunkUploadFailed(r.status))
    } else {
        match header_value(r.headers, "Range"@) {
            Some(value) => match confirmed_offset(value) {
                Some(offset) => if s.range_sent <= offset <= s.range_sent + sent && offset
                    <= u64::MAX {
                    ChunkOutcome {
                        session: SessionView {
                            id: s.id,
                            location: match header_value(r.headers, "Location"@) {
                                Some(location) => resolve(c.base_url, location),
                                None => s.location,
                            },
                            range_sent: offset as u64,
                        },
                        result: Ok(()),
                    }
                } else {
                    chunk_failed(s, ErrorView::Decode)
                },
                None => chunk_failed(s, ErrorView::Decode),
            },
            None => chunk_failed(s, ErrorView::Decode),
        }
    }
}

/// The request that completes an upload: the signed `PUT` of the session's
/// location with the digest as the query parameter `digest`, and the last
/// bytes, if any are left, as body.
pub open spec fn finalize_request(c: ClientView, s: SessionView, digest: DigestView, last: Seq<u8>) -> Result<
    RequestView,
    ErrorView,
> {
    match checked_request(
        c,
        Method::Put,
        with_query(s.location, "digest"@, digest_text(digest)),
    ) {
        Ok(request) => Ok(RequestView { body: last, ..request }),
        Err(e) => Err(e),
    }
}

/// What the answer to the completing request comes to: 201 completes the upload.
pub open spec fn finalized(r: ResponseView) -> Result<(), ErrorView> {
    if r.status == 201 {
        Ok(())
    } else {
        Err(ErrorView::UploadFinalizeFailed(r.status))
    }
}

/// The `Range` value that confirms the first `confirmed` bytes.
pub open spec fn range_value(confirmed: nat) -> Seq<char> {
    "0-"@ + decimal((confirmed - 1) as nat)
}

/// A `Range` value that confirms some bytes is read as confirming that many.
pub proof fn lemma_range_value_round_trip(confirmed: nat)
    requires
        confirmed >= 1,
    ensures
        confirmed_offset(range_value(confirmed)) == Some(confirmed),
{
    reveal_strlit("0-");
    let value = range_value(confirmed);
    let last = decimal((confirmed - 1) as nat);
    assert(value[0] == '0');
    assert(value[1] == '-');
    lemma_index_of_is(value, '-', 0, 1);
    let first = value.subrange(0, 1);
    assert(first =~= seq!['0']);
    assert(first.drop_last() =~= Seq::<char>::empty());
    assert(digits_value(first.drop_last()) == 0);
    assert(digits_value(first) == 0);
    assert(parse_decimal(first) == Some(0nat));
    assert(value.subrange(2, value.len() as int) =~= last);
    lemma_decimal_round_trip((confirmed - 1) as nat);
}

/// Where the registry confirms only the first `accepted` bytes of a chunk, the
/// session goes on from what was confirmed, not from what was sent: the next
/// chunk starts there.
pub proof fn lemma_partial_chunk_resumes_where_confirmed(
    c: ClientView,
    s: SessionView,
    sent: nat,
    accepted: nat,
    r: ResponseView,
    next: Seq<u8>,
)
    requires
        is_success(r.status),
        accepted <= sent,
        s.range_sent + sent <= u64::MAX,
        s.range_sent + accepted >= 1,
        header_value(r.headers, "Range"@) == Some(range_value((s.range_sent + accepted) as nat)),
    ensures
        ({
            let after = chunk_outcome(c, s, sent, r);
            &&& after.result == Ok::<(), ErrorView>(())
            &&& after.session.range_sent == s.range_sent + accepted
            &&& after.session.id == s.id
            &&& chunk_request(c, after.session, next) matches Ok(request) ==> request == (
            RequestView {
                method: Method::Patch,
                url: after.session.location,
                headers: signed_headers(c).push(
                    HeaderView {
                        name: "Content-Range"@,
                        value: content_range((s.range_sent + accepted) as nat, next.len()),
                    },
                ),
                body: next,
            })
        }),
{
    lemma_range_value_round_trip((s.range_sent + accepted) as nat);
}

/// The bytes that a session has had confirmed never become fewer, whatever the
/// registry answers.
pub proof fn lemma_confirmed_bytes_never_decrease(
    c: ClientView,
    s: SessionView,
    sent: nat,
    r: ResponseView,
)
    ensures
        chunk_outcome(c, s, sent, r).session.range_sent >= s.range_sent,
        chunk_outcome(c, s, sent, r).result is Err ==> chunk_outcome(c, s, sent, r).session == s,
{
}

/// The chunk to send next: the bytes of the blob from what the registry has
/// confirmed up to `chunk_size` bytes further, or up to the end of the blob
/// where that is nearer. A chunk size of zero is taken for one. `None` where
/// the registry has confirmed the whole blob.
pub open spec fn chunk_window(range_sent: u64, len: usize, chunk_size: usize) -> Option<
    (usize, usize),
> {
    if range_sent >= len {
        None
    } else {
        let size = if chunk_size == 0 {
            1
        } else {
            chunk_size as int
        };
        let end = if range_sent + size < len {
            range_sent + size
        } else {
            len as int
        };
        Some((range_sent as usize, end as usize))
    }
}

/// The positions `from..to` of the chunk to send next, if any is left to send.
pub fn next_chunk(range_sent: u64, len: usize, chunk_size: usize) -> (w: Option<(usize, usize)>)
    ensures
        w == chunk_window(range_sent, len, chunk_size),
        match w {
            Some((from, to)) => from == range_sent && from < to <= len && (to - from <= chunk_size
                || to - from == 1),
            None => range_sent >= len,
        },
{
    if range_sent >= len as u64 {
        return None;
    }
    let from = range_sent as usize;
    let size = if chunk_size == 0 {
        1
    } else {
        chunk_size
    };
    let to = if len - from > size {
        from + size
    } else {
        len
    };
    Some((from, to))
}

/// Whether a session has moved on since the registry had confirmed `before`
/// bytes: an upload that a chunk has not moved on has stalled.
pub fn progress(before: u64, session: &BlobUploadSession) -> (out: Result<(), Error>)
    ensures
        outcome_view(out) == if session@.range_sent > before {
            Ok::<(), ErrorView>(())
        } else {
            Err::<(), ErrorView>(ErrorView::UploadStalled)
        },
{
    if session.range_sent > before {
        Ok(())
    } else {
        Err(Error::UploadStalled)
    }
}

/// Reads the number of bytes that a `Range` value confirms, if it fits in 64 bits.
fn read_confirmed_offset(value: &str) -> (out: Option<u64>)
    ensures
        out == match confirmed_offset(value@) {
            Some(offset) => if offset <= u64::MAX {
                Some(offset as u64)
            } else {
                None
            },
            None => None,
        },
{
    let chars = chars_of(value);
    let dash = find_char(&chars, '-', 0);
    if dash >= chars.len() {
        return None;
    }
    let first = read_decimal(&chars, 0, dash);
    let last = read_decimal(&chars, dash + 1, chars.len());
    match (first, last) {
        (Some(first), Some(last)) => if first == 0 {
            last.checked_add(1)
        } else {
            None
        },
        _ => None,
    }
}

impl Client {
    /// The request for a blob: `GET <base>/v2/<name>/blobs/<digest>`.
    pub fn blob_request(&self, name: &str, digest: &Digest) -> (out: Result<Request, Error>)
        ensures
            result_view(out) == checked_request(self@, Method::Get, blob_url(self@, name@, digest@)),
    {
        let mut url = self.base_url().to_string();
        url.append("/v2/");
        url.append(name);
        url.append("/blobs/");
        url.append(digest.text().as_str());
        self.request(Method::Get, url)
    }

    /// Looks at the head of the answer to a blob request. With status 200 the
    /// body is the blob, and the verifier that is returned checks it, piece by
    /// piece, against `digest`.
    pub fn get_blob(&self, digest: &Digest, response: &Response) -> (out: Result<Verifier, Error>)
        ensures
            match out {
                Ok(verifier) => response.status == 200 && verifier.expected() == digest@
                    && verifier.content() == Seq::<u8>::empty(),
                Err(e) => if response.status == 200 {
                    e@ == ErrorView::DigestMismatch && !known_algorithm(
                        digest@.algorithm,
                    )
                } else {
                    e@ == response_error(response@)
                },
            },
    {
        if response.status != 200 {
            return Err(error_of(response));
        }
        Verifier::new(digest)
    }

    /// The request that opens an upload: `POST <base>/v2/<name>/blobs/uploads/`.
    pub fn start_upload_request(&self, name: &str) -> (out: Result<Request, Error>)
        ensures
            result_view(out) == checked_request(self@, Method::Post, uploads_url(self@, name@)),
    {
        let mut url = self.base_url().to_string();
        url.append("/v2/");
        url.append(name);
        url.append("/blobs/uploads/");
        self.request(Method::Post, url)
    }

    /// The session that the answer to `start_upload_request` opens.
    pub fn start_blob_upload(&self, response: &Response) -> (out: Result<
        BlobUploadSession,
        Error,
    >)
        ensures
            result_view(out) == started_upload(self@, response@),
    {
        if response.status != 202 {
            return Err(Error::UploadInitFailed);
        }
        match (response.header("Location"), response.header("Docker-Upload-UUID")) {
            (Some(location), Some(id)) => Ok(
                BlobUploadSession {
                    id: id.to_string(),
                    location: self.resolve(location),
                    range_sent: 0,
                },
            ),
            _ => Err(Error::UploadInitFailed),
        }
    }

    /// The request that sends the next chunk of an upload.
    pub fn chunk_request(&self, session: &BlobUploadSession, bytes: &[u8]) -> (out: Result<
        Request,
        Error,
    >)
        requires
            bytes.len() > 0,
            session@.range_sent + bytes.len() - 1 <= u64::MAX,
        ensures
            result_view(out) == chunk_request(self@, session@, bytes@),
    {
        match self.request(Method::Patch, session.location.clone()) {
            Ok(request) => {
                let ghost before = request@;
                let mut request = request;
                let mut range = String::new();
                push_decimal(&mut range, session.range_sent);
                range.append("-");
                push_decimal(&mut range, session.range_sent + (bytes.len() as u64 - 1));
                proof {
                    reveal_strlit("-");
                    assert(range@ =~= content_range(session@.range_sent as nat, bytes@.len()));
                }
                request.headers.push(Header::new("Content-Range", range));
                request.body = vstd::slice::slice_to_vec(bytes);
                assert(request@.headers =~= before.headers.push(
                    HeaderView {
                        name: "Content-Range"@,
                        value: content_range(session@.range_sent as nat, bytes@.len()),
                    },
                ));
                Ok(request)
            },
            Err(e) => Err(e),
        }
    }

    /// Takes the answer to a chunk of `sent` bytes: the session goes on from what
    /// the registry confirmed, or stays as it was where the chunk failed.
    pub fn upload_chunk(
        &self,
        session: &mut BlobUploadSession,
        sent: usize,
        response: &Response,
    ) -> (out: Result<(), Error>)
        ensures
            final(session)@ == chunk_outcome(self@, old(session)@, sent as nat, response@).session,
            outcome_view(out) == chunk_outcome(
                self@,
                old(session)@,
                sent as nat,
                response@,
            ).result,
    {
        if !response.is_success() {
            return Err(Error::ChunkUploadFailed(response.status));
        }
        let offset = match response.header("Range") {
            Some(value) => match read_confirmed_offset(value) {
                Some(offset) => offset,
                None => {
                    return Err(Error::Decode);
                },
            },
            None => {
                return Err(Error::Decode);
            },
        };
        if offset < session.range_sent || offset - session.range_sent > sent as u64 {
            return Err(Error::Decode);
        }
        match response.header("Location") {
            Some(location) => {
                session.location = self.resolve(location);
            },
            None => {},
        }
        session.range_sent = offset;
        Ok(())
    }

    /// The request that completes an upload with the digest of the whole blob.
    pub fn finalize_request(
        &self,
        session: &BlobUploadSession,
        digest: &Digest,
        last: &[u8],
    ) -> (out: Result<Request, Error>)
        ensures
            result_view(out) == finalize_request(self@, session@, digest@, last@),
    {
        let mut url = session.location.clone();
        append_query(&mut url, "digest", digest.text().as_str());
        match self.request(Method::Put, url) {
            Ok(request) => {
                let mut request = request;
                request.body = vstd::slice::slice_to_vec(last);
                Ok(request)
            },
            Err(e) => Err(e),
        }
    }

    /// Takes the answer to the completing request, and ends the session.
    pub fn finalize_upload(&self, session: BlobUploadSession, response: &Response) -> (out: Result<
        (),
        Error,
    >)
        ensures
            outcome_view(out) == finalized(response@),
    {
        if response.status == 201 {
            Ok(())
        } else {
            Err(Error::UploadFinalizeFailed(response.status))
        }
    }
}

} // verus!
