use docker_registry::digest::Digest;
use docker_registry::errors::Error;
use docker_registry::http::{Header, Method, Request, Response};
use docker_registry::v2::blobs::{next_chunk, progress, BlobUploadSession};
use docker_registry::v2::Client;
use docker_registry::USER_AGENT;

const ABC_256: &str = "ba7816bf8f01cfea414140de5dae2223b00361a396177a9cb410ff61f20015ad";

fn header(name: &str, value: &str) -> Header {
    Header { name: name.to_string(), value: value.to_string() }
}

fn response(status: u16, headers: Vec<Header>, body: &str) -> Response {
    Response { status, headers, body: body.as_bytes().to_vec() }
}

fn client() -> Client {
    Client::configure().registry("localhost:5000").insecure_registry(true).build().unwrap()
}

fn digest() -> Digest {
    Digest { algorithm: "sha256".to_string(), hex: ABC_256.to_string() }
}

fn started(location: &str) -> BlobUploadSession {
    client()
        .start_blob_upload(&response(
            202,
            vec![header("Location", location), header("Docker-Upload-UUID", "uuid-1")],
            "",
        ))
        .unwrap()
}

fn confirmed(range: &str) -> Response {
    response(202, vec![header("Range", range)], "")
}

#[test]
fn a_blob_is_asked_for_by_its_digest() {
    assert_eq!(
        client().blob_request("library/busybox", &digest()),
        Ok(Request {
            method: Method::Get,
            url: format!("http://localhost:5000/v2/library/busybox/blobs/sha256:{}", ABC_256),
            headers: vec![header("User-Agent", USER_AGENT)],
            body: vec![],
        })
    );
}

#[test]
fn a_blob_that_arrives_is_checked_piece_by_piece() {
    let c = client();
    let mut verifier = c.get_blob(&digest(), &response(200, vec![], "")).ok().unwrap();
    verifier.update(b"ab");
    verifier.update(b"c");
    assert_eq!(verifier.finish(), Ok(digest()));

    let mut other = c.get_blob(&digest(), &response(200, vec![], "")).ok().unwrap();
    other.update(b"abcd");
    assert_eq!(other.finish(), Err(Error::DigestMismatch));
}

#[test]
fn a_blob_that_does_not_arrive_is_an_error() {
    let c = client();
    assert_eq!(
        c.get_blob(&digest(), &response(404, vec![], "")).err(),
        Some(Error::UnexpectedStatus(404))
    );
    let denied = c
        .get_blob(
            &digest(),
            &response(404, vec![], "{\"errors\":[{\"code\":\"BLOB_UNKNOWN\",\"message\":\"blob unknown to registry\"}]}"),
        )
        .err()
        .unwrap();
    match denied {
        Error::Api(e) => {
            assert_eq!(e.errors()[0].code(), "BLOB_UNKNOWN");
            assert_eq!(e.errors()[0].message(), "blob unknown to registry");
        },
        other => panic!("unexpected error: {:?}", other),
    }
    let unknown = Digest { algorithm: "md5".to_string(), hex: "00".to_string() };
    assert_eq!(c.get_blob(&unknown, &response(200, vec![], "")).err(), Some(Error::DigestMismatch));
}

#[test]
fn an_upload_is_opened_with_a_post() {
    assert_eq!(
        client().start_upload_request("library/busybox"),
        Ok(Request {
            method: Method::Post,
            url: "http://localhost:5000/v2/library/busybox/blobs/uploads/".to_string(),
            headers: vec![header("User-Agent", USER_AGENT)],
            body: vec![],
        })
    );
}

#[test]
fn the_answer_opens_a_session_at_byte_zero() {
    let session = started("/v2/library/busybox/blobs/uploads/uuid-1");
    assert_eq!(session.id(), "uuid-1");
    assert_eq!(session.location(), "http://localhost:5000/v2/library/busybox/blobs/uploads/uuid-1");
    assert_eq!(session.range_sent(), 0);
    assert_eq!(started("https://blobs.example.com/u/1?state=x").location(), "https://blobs.example.com/u/1?state=x");
}

#[test]
fn an_answer_that_opens_no_session_fails_the_upload() {
    let c = client();
    let both = || vec![header("Location", "/u/1"), header("Docker-Upload-UUID", "uuid-1")];
    assert_eq!(c.start_blob_upload(&response(202, vec![header("Location", "/u/1")], "")), Err(Error::UploadInitFailed));
    assert_eq!(
        c.start_blob_upload(&response(202, vec![header("Docker-Upload-UUID", "uuid-1")], "")),
        Err(Error::UploadInitFailed)
    );
    assert_eq!(c.start_blob_upload(&response(202, vec![], "")), Err(Error::UploadInitFailed));
    assert_eq!(c.start_blob_upload(&response(200, both(), "")), Err(Error::UploadInitFailed));
    assert_eq!(c.start_blob_upload(&response(201, both(), "")), Err(Error::UploadInitFailed));
    assert_eq!(c.start_blob_upload(&response(401, both(), "")), Err(Error::UploadInitFailed));
}

#[test]
fn a_chunk_says_which_bytes_it_holds() {
    let c = client();
    let session = started("/u/1");
    assert_eq!(
        c.chunk_request(&session, b"0123456789"),
        Ok(Request {
            method: Method::Patch,
            url: "http://localhost:5000/u/1".to_string(),
            headers: vec![header("User-Agent", USER_AGENT), header("Content-Range", "0-9")],
            body: b"0123456789".to_vec(),
        })
    );
    assert_eq!(c.chunk_request(&session, b"x").unwrap().headers[1], header("Content-Range", "0-0"));
}

#[test]
fn a_chunk_that_is_confirmed_moves_the_session_on() {
    let c = client();
    let mut session = started("/u/1");
    assert_eq!(c.upload_chunk(&mut session, 10, &confirmed("0-9")), Ok(()));
    assert_eq!(session.range_sent(), 10);
    assert_eq!(session.location(), "http://localhost:5000/u/1");
    assert_eq!(
        c.chunk_request(&session, b"abcde").unwrap().headers[1],
        header("Content-Range", "10-14")
    );
    assert_eq!(c.upload_chunk(&mut session, 5, &confirmed("0-14")), Ok(()));
    assert_eq!(session.range_sent(), 15);
}

#[test]
fn a_chunk_that_is_confirmed_in_part_is_resumed_where_it_was_confirmed() {
    let c = client();
    let mut session = started("/u/1");
    assert_eq!(c.upload_chunk(&mut session, 10, &confirmed("0-3")), Ok(()));
    assert_eq!(session.range_sent(), 4);
    assert_eq!(
        c.chunk_request(&session, b"456789").unwrap().headers[1],
        header("Content-Range", "4-9")
    );
    assert_eq!(c.upload_chunk(&mut session, 6, &confirmed("0-5")), Ok(()));
    assert_eq!(session.range_sent(), 6);
    assert_eq!(c.upload_chunk(&mut session, 4, &confirmed("0-5")), Ok(()));
    assert_eq!(session.range_sent(), 6);
    assert_eq!(
        c.chunk_request(&session, b"6789").unwrap().headers[1],
        header("Content-Range", "6-9")
    );
}

#[test]
fn the_registry_may_move_the_session() {
    let c = client();
    let mut session = started("/u/1");
    let moved = response(
        202,
        vec![header("Location", "/u/1?state=2"), header("Range", "0-9")],
        "",
    );
    assert_eq!(c.upload_chunk(&mut session, 10, &moved), Ok(()));
    assert_eq!(session.location(), "http://localhost:5000/u/1?state=2");
    assert_eq!(session.id(), "uuid-1");
    assert_eq!(c.chunk_request(&session, b"x").unwrap().url, "http://localhost:5000/u/1?state=2");
    let any_success = response(204, vec![header("Range", "0-10")], "");
    assert_eq!(c.upload_chunk(&mut session, 1, &any_success), Ok(()));
    assert_eq!(session.range_sent(), 11);
}

#[test]
fn a_chunk_that_is_refused_leaves_the_session_as_it_was() {
    let c = client();
    let mut session = started("/u/1");
    c.upload_chunk(&mut session, 10, &confirmed("0-9")).unwrap();
    for status in [199u16, 300, 400, 404, 416, 500] {
        let refused = response(
            status,
            vec![header("Location", "/elsewhere"), header("Range", "0-19")],
            "",
        );
        assert_eq!(c.upload_chunk(&mut session, 10, &refused), Err(Error::ChunkUploadFailed(status)));
        assert_eq!(session.range_sent(), 10);
        assert_eq!(session.location(), "http://localhost:5000/u/1");
    }
}

#[test]
fn a_confirmation_that_cannot_be_gone_on_from_is_no_valid_data() {
    let c = client();
    let mut session = started("/u/1");
    c.upload_chunk(&mut session, 10, &confirmed("0-9")).unwrap();
    for range in ["", "0", "0-", "-9", "0-x", "1-19", "bytes=0-19", "0-8", "0-20", "0-18446744073709551615", "0-99999999999999999999"] {
        let moved = response(202, vec![header("Location", "/elsewhere"), header("Range", range)], "");
        assert_eq!(c.upload_chunk(&mut session, 10, &moved), Err(Error::Decode));
        assert_eq!(session.range_sent(), 10);
        assert_eq!(session.location(), "http://localhost:5000/u/1");
    }
    assert_eq!(c.upload_chunk(&mut session, 10, &response(202, vec![], "")), Err(Error::Decode));
    assert_eq!(c.upload_chunk(&mut session, 10, &confirmed("0-19")), Ok(()));
    assert_eq!(session.range_sent(), 20);
}

#[test]
fn an_upload_is_completed_with_the_digest_of_the_blob() {
    let c = client();
    assert_eq!(
        c.finalize_request(&started("/u/1"), &digest(), b""),
        Ok(Request {
            method: Method::Put,
            url: format!("http://localhost:5000/u/1?digest=sha256:{}", ABC_256),
            headers: vec![header("User-Agent", USER_AGENT)],
            body: vec![],
        })
    );
    let last = c.finalize_request(&started("/u/1?state=x"), &digest(), b"tail").unwrap();
    assert_eq!(last.url, format!("http://localhost:5000/u/1?state=x&digest=sha256:{}", ABC_256));
    assert_eq!(last.body, b"tail".to_vec());
}

#[test]
fn only_201_completes_an_upload() {
    let c = client();
    assert_eq!(c.finalize_upload(started("/u/1"), &response(201, vec![], "")), Ok(()));
    for status in [200u16, 202, 204, 400, 404, 500] {
        assert_eq!(
            c.finalize_upload(started("/u/1"), &response(status, vec![], "")),
            Err(Error::UploadFinalizeFailed(status))
        );
    }
}

#[test]
fn a_session_at_a_location_that_is_no_uri_cannot_send() {
    let c = client();
    let session = started("not a url");
    assert_eq!(c.chunk_request(&session, b"x"), Err(Error::InvalidUrl));
    assert_eq!(c.finalize_request(&session, &digest(), b""), Err(Error::InvalidUrl));
}

#[test]
fn the_next_chunk_starts_where_the_registry_confirmed() {
    assert_eq!(next_chunk(0, 10, 4), Some((0, 4)));
    assert_eq!(next_chunk(4, 10, 4), Some((4, 8)));
    assert_eq!(next_chunk(8, 10, 4), Some((8, 10)));
    assert_eq!(next_chunk(3, 10, 4), Some((3, 7)));
    assert_eq!(next_chunk(6, 10, 4), Some((6, 10)));
    assert_eq!(next_chunk(0, 10, 10), Some((0, 10)));
    assert_eq!(next_chunk(0, 10, usize::MAX), Some((0, 10)));
    assert_eq!(next_chunk(9, 10, usize::MAX), Some((9, 10)));
}

#[test]
fn a_chunk_size_of_zero_is_taken_for_one() {
    assert_eq!(next_chunk(0, 3, 0), Some((0, 1)));
    assert_eq!(next_chunk(2, 3, 0), Some((2, 3)));
}

#[test]
fn nothing_is_left_to_send_of_a_blob_that_is_confirmed() {
    assert_eq!(next_chunk(10, 10, 4), None);
    assert_eq!(next_chunk(11, 10, 4), None);
    assert_eq!(next_chunk(0, 0, 4), None);
    assert_eq!(next_chunk(u64::MAX, 10, 4), None);
    assert_eq!(next_chunk(u64::MAX, usize::MAX, 1), None);
}

#[test]
fn an_upload_that_a_chunk_has_not_moved_on_has_stalled() {
    let c = client();
    let mut session = started("/u/1");
    c.upload_chunk(&mut session, 10, &confirmed("0-3")).unwrap();
    assert_eq!(progress(0, &session), Ok(()));
    assert_eq!(progress(3, &session), Ok(()));
    assert_eq!(progress(4, &session), Err(Error::UploadStalled));
    assert_eq!(c.upload_chunk(&mut session, 6, &confirmed("0-3")), Ok(()));
    assert_eq!(progress(4, &session), Err(Error::UploadStalled));
}
