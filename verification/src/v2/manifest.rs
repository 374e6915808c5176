//! Manifests: asking for one by tag or digest, and checking what comes back.

use crate::digest::{
    announces, checked_digest, digest_text, lemma_announced_sha256_is_accepted,
    lemma_check_accepts_only_the_digest, sha256_digest, Digest, DigestView,
};
use crate::errors::{result_view, Error, ErrorView};
use crate::http::{header_value, Header, HeaderView, Method, Request, RequestView, Response, ResponseView};
use crate::json::{json_document, Json, JsonView};
use crate::text::same_text;
use crate::v2::{checked_request, error_of, optional_text, response_error, Client, ClientView};
use vstd::prelude::*;
use vstd::string::StringExecFns;

verus! {

/// The media type of a schema 1 manifest.
pub const SCHEMA_V1: &'static str = "application/vnd.docker.distribution.manifest.v1+json";

/// The media type of a schema 2 manifest.
pub const SCHEMA_V2: &'static str = "application/vnd.docker.distribution.manifest.v2+json";

/// The media type of an OCI image manifest.
pub const OCI_MANIFEST: &'static str = "application/vnd.oci.image.manifest.v1+json";

/// The media type of an OCI image index.
pub const OCI_INDEX: &'static str = "application/vnd.oci.image.index.v1+json";

/// The `Accept` value of a manifest request: every kind of manifest that the
/// library reads, the preferred kind first.
pub const ACCEPT: &'static str =
    "application/vnd.docker.distribution.manifest.v1+json, application/vnd.docker.distribution.manifest.v2+json, application/vnd.oci.image.manifest.v1+json, application/vnd.oci.image.index.v1+json";

/// The kinds of manifest.
#[derive(Clone, Copy, Debug, PartialEq, Eq, Structural)]
pub enum MediaType {
    SchemaV1,
    SchemaV2,
    OciManifest,
    OciIndex,
}

/// The kind of manifest that a media type names.
pub open spec fn media_type_of(text: Seq<char>) -> Option<MediaType> {
    if text == SCHEMA_V1@ {
        Some(MediaType::SchemaV1)
    } else if text == SCHEMA_V2@ {
        Some(MediaType::SchemaV2)
    } else if text == OCI_MANIFEST@ {
        Some(MediaType::OciManifest)
    } else if text == OCI_INDEX@ {
        Some(MediaType::OciIndex)
    } else {
        None
    }
}

impl MediaType {
    /// The kind of manifest that a media type names.
    pub fn parse(text: &str) -> (out: Option<MediaType>)
        ensures
            out == media_type_of(text@),
    {
        if same_text(text, SCHEMA_V1) {
            Some(MediaType::SchemaV1)
        } else if same_text(text, SCHEMA_V2) {
            Some(MediaType::SchemaV2)
        } else if same_text(text, OCI_MANIFEST) {
            Some(MediaType::OciManifest)
        } else if same_text(text, OCI_INDEX) {
            Some(MediaType::OciIndex)
        } else {
            None
        }
    }

    /// The media type that names this kind of manifest.
    pub fn name(&self) -> (out: &'static str)
        ensures
            out@ == match *self {
                MediaType::SchemaV1 => SCHEMA_V1@,
                MediaType::SchemaV2 => SCHEMA_V2@,
                MediaType::OciManifest => OCI_MANIFEST@,
                MediaType::OciIndex => OCI_INDEX@,
            },
    {
        match self {
            MediaType::SchemaV1 => SCHEMA_V1,
            MediaType::SchemaV2 => SCHEMA_V2,
            MediaType::OciManifest => OCI_MANIFEST,
            MediaType::OciIndex => OCI_INDEX,
        }
    }
}

/// What a manifest says of its own kind.
#[derive(Clone, Copy, Debug, PartialEq, Eq, Structural)]
pub struct ManifestKind {
    pub schema_version: u32,
    pub media_type: MediaType,
}

/// The kind of a manifest document: its `schemaVersion`, a number of 32 bits, and
/// the kind that its `mediaType` names. A document of schema version 1 may leave
/// the media type out; any other must name one of the kinds that the library reads.
pub open spec fn manifest_kind(doc: JsonView) -> Option<ManifestKind> {
    match doc.member("schemaVersion"@) {
        Some(v) => match v.natural() {
            Some(n) => if n <= u32::MAX {
                match optional_text(doc, "mediaType"@) {
                    Some(Some(text)) => match media_type_of(text) {
                        Some(media_type) => Some(
                            ManifestKind { schema_version: n as u32, media_type },
                        ),
                        None => None,
                    },
                    Some(None) => if n == 1 {
                        Some(
                            ManifestKind { schema_version: 1, media_type: MediaType::SchemaV1 },
                        )
                    } else {
                        None
                    },
                    None => None,
                }
            } else {
                None
            },
            None => None,
        },
        None => None,
    }
}

/// The kind of the manifest in a body, where the body is a manifest document.
pub open spec fn manifest_kind_in(body: Seq<u8>) -> Option<ManifestKind> {
    match json_document(body) {
        Some(doc) => manifest_kind(doc),
        None => None,
    }
}

impl ManifestKind {
    /// Reads the kind of a manifest out of its document.
    pub fn from_json(doc: &Json) -> (out: Option<ManifestKind>)
        ensures
            out == manifest_kind(doc@),
    {
        let version = match doc.get("schemaVersion") {
            Some(v) => match v.as_u64() {
                Some(n) => n,
                None => {
                    return None;
                },
            },
            None => {
                return None;
            },
        };
        if version > 0xffff_ffff {
            return None;
        }
        match doc.get_present("mediaType") {
            Some(v) => match v.as_str() {
                Some(text) => match MediaType::parse(text) {
                    Some(media_type) => Some(
                        ManifestKind { schema_version: version as u32, media_type },
                    ),
                    None => None,
                },
                None => None,
            },
            None => if version == 1 {
                Some(ManifestKind { schema_version: 1, media_type: MediaType::SchemaV1 })
            } else {
                None
            },
        }
    }
}

/// A manifest: its kind, the digest of its bytes, and the bytes themselves.
#[derive(Debug, PartialEq, Eq)]
pub struct Manifest {
    pub schema_version: u32,
    pub media_type: MediaType,
    pub digest: Digest,
    pub raw: Vec<u8>,
}

/// What a `Manifest` holds.
pub struct ManifestView {
    pub schema_version: u32,
    pub media_type: MediaType,
    pub digest: DigestView,
    pub raw: Seq<u8>,
}

impl View for Manifest {
    type V = ManifestView;

    open spec fn view(&self) -> ManifestView {
        ManifestView {
            schema_version: self.schema_version,
            media_type: self.media_type,
            digest: self.digest@,
            raw: self.raw@,
        }
    }
}

/// The URL of the manifest `reference`, a tag or a digest, of the repository `name`.
pub open spec fn manifest_url(c: ClientView, name: Seq<char>, reference: Seq<char>) -> Seq<char> {
    c.base_url + "/v2/"@ + name + "/manifests/"@ + reference
}

/// The request for a manifest: the signed `GET` of its URL, with the `Accept`
/// header behind the signing headers.
pub open spec fn manifest_request(c: ClientView, name: Seq<char>, reference: Seq<char>) -> Result<
    RequestView,
    ErrorView,
> {
    match checked_request(c, Method::Get, manifest_url(c, name, reference)) {
        Ok(request) => Ok(
            RequestView {
                headers: request.headers.push(HeaderView { name: "Accept"@, value: ACCEPT@ }),
                ..request
            },
        ),
        Err(e) => Err(e),
    }
}

/// The manifest that a response holds.
///
/// With status 200, the body is checked against the `Docker-Content-Digest`
/// header before anything is read from it: a mismatch is all that is reported
/// then. A body that passes must be a manifest document. With any other status
/// the response is an error.
pub open spec fn resolved_manifest(r: ResponseView) -> Result<ManifestView, ErrorView> {
    if r.status == 200 {
        match checked_digest(header_value(r.headers, "Docker-Content-Digest"@), r.body) {
            Ok(digest) => match manifest_kind_in(r.body) {
                Some(kind) => Ok(
                    ManifestView {
                        schema_version: kind.schema_version,
                        media_type: kind.media_type,
                        digest,
                        raw: r.body,
                    },
                ),
                None => Err(ErrorView::Decode),
            },
            Err(e) => Err(e),
        }
    } else {
        Err(response_error(r))
    }
}

/// A manifest that arrives with the SHA-256 digest of its own bytes is accepted,
/// and is identified by that digest.
pub proof fn lemma_manifest_with_its_digest_is_accepted(r: ResponseView, kind: ManifestKind)
    requires
        r.status == 200,
        header_value(r.headers, "Docker-Content-Digest"@) == Some(
            digest_text(sha256_digest(r.body)),
        ),
        manifest_kind_in(r.body) == Some(kind),
    ensures
        resolved_manifest(r) == Ok::<ManifestView, ErrorView>(
            ManifestView {
                schema_version: kind.schema_version,
                media_type: kind.media_type,
                digest: sha256_digest(r.body),
                raw: r.body,
            },
        ),
{
    lemma_announced_sha256_is_accepted(r.body);
}

/// A manifest that arrives with anything but the digest of its own bytes is
/// refused as a mismatch, whatever its body holds.
pub proof fn lemma_manifest_with_another_digest_is_refused(r: ResponseView, announced: Seq<char>)
    requires
        r.status == 200,
        header_value(r.headers, "Docker-Content-Digest"@) == Some(announced),
        !announces(announced, r.body),
    ensures
        resolved_manifest(r) == Err::<ManifestView, ErrorView>(ErrorView::DigestMismatch),
{
    lemma_check_accepts_only_the_digest(announced, r.body);
}

impl Client {
    /// The request for the manifest `reference`, a tag or a digest, of the
    /// repository `name`: `GET <base>/v2/<name>/manifests/<reference>`.
    pub fn manifest_request(&self, name: &str, reference: &str) -> (out: Result<Request, Error>)
        ensures
            result_view(out) == manifest_request(self@, name@, reference@),
    {
        let mut url = self.base_url().to_string();
        url.append("/v2/");
        url.append(name);
        url.append("/manifests/");
        url.append(reference);
        match self.request(Method::Get, url) {
            Ok(request) => {
                let ghost before = request@;
                let mut request = request;
                request.headers.push(Header::new("Accept", ACCEPT.to_string()));
                assert(request@.headers =~= before.headers.push(
                    HeaderView { name: "Accept"@, value: ACCEPT@ },
                ));
                Ok(request)
            },
            Err(e) => Err(e),
        }
    }

    /// The manifest in the answer to a manifest request, checked against the
    /// digest that the registry announced for it.
    pub fn get_manifest(&self, response: &Response) -> (out: Result<Manifest, Error>)
        ensures
            result_view(out) == resolved_manifest(response@),
    {
        if response.status != 200 {
            return Err(error_of(response));
        }
        let digest = match Digest::check(
            response.header("Docker-Content-Digest"),
            response.body.as_slice(),
        ) {
            Ok(digest) => digest,
            Err(e) => {
                return Err(e);
            },
        };
        let kind = match Json::parse(response.body.as_slice()) {
            Some(doc) => ManifestKind::from_json(&doc),
            None => None,
        };
        match kind {
            Some(kind) => Ok(
                Manifest {
                    schema_version: kind.schema_version,
                    media_type: kind.media_type,
                    digest,
                    raw: response.body.clone(),
                },
            ),
            None => Err(Error::Decode),
        }
    }
}

} // verus!
