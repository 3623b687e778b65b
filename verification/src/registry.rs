//! The registry's HTTP surface, a subset of the OCI distribution protocol:
//! which endpoint a request is for, and what the registry answers.

use crate::auth::{credentials_of, AuthProvider, Permissions, Unverified, ValidCredentials};
use crate::digest::{image_digest_text, parse_image_digest, sha256, Digest, ImageDigest};
use crate::http::{bodiless, Method, Response, ResponseView, StatusCode};
use crate::location::{
    parse_reference, path_safe, ImageLocation, LocationView, ManifestReference,
    ManifestReferenceView, Reference, ReferenceView,
};
use crate::manifest::{declared_media_type, ImageManifest};
use crate::storage::{
    can_store, finalize_ops, ops_view, parsed_uuid, put_manifest_ops, uuid_text, BlobMetadata,
    OpView, StorageError, StoreOp, UploadId,
};
use crate::text::{
    decimal_text, format_decimal, join, join_on, lacks, lemma_split_join, parse_u64,
    push_decimal, push_text, read_u64, same_text, split, split_on, texts,
};
use vstd::prelude::*;
use vstd::slice::slice_to_vec;
use vstd::utf8::encode_utf8;

verus! {

/// The shapes of path that the registry serves.
#[derive(Clone, Copy, Debug, PartialEq, Eq, Structural)]
pub enum Endpoint {
    /// `/v2/`
    Index,
    /// `/v2/<repository>/<image>/blobs/<digest>`
    Blob,
    /// `/v2/<repository>/<image>/blobs/uploads/`
    NewUpload,
    /// `/v2/<repository>/<image>/uploads/<upload>`
    Upload,
    /// `/v2/<repository>/<image>/manifests/<reference>`
    Manifest,
}

/// The endpoint that a path of these segments leads to, if any. A segment
/// that stands for a name is never empty.
pub open spec fn endpoint_of(segments: Seq<Seq<char>>) -> Option<Endpoint> {
    if segments.len() == 3 && segments[0].len() == 0 && segments[1] == "v2"@ && segments[2].len()
        == 0 {
        Some(Endpoint::Index)
    } else if segments.len() >= 6 && segments[0].len() == 0 && segments[1] == "v2"@
        && segments[2].len() > 0 && segments[3].len() > 0 {
        if segments.len() == 7 && segments[4] == "blobs"@ && segments[5] == "uploads"@
            && segments[6].len() == 0 {
            Some(Endpoint::NewUpload)
        } else if segments.len() == 6 && segments[5].len() > 0 {
            if segments[4] == "blobs"@ {
                Some(Endpoint::Blob)
            } else if segments[4] == "uploads"@ {
                Some(Endpoint::Upload)
            } else if segments[4] == "manifests"@ {
                Some(Endpoint::Manifest)
            } else {
                None
            }
        } else {
            None
        }
    } else {
        None
    }
}

/// What a [`Route`] says.
pub enum RouteView {
    Index,
    BlobCheck { location: LocationView, digest: Seq<u8> },
    UploadNew { location: LocationView },
    UploadAddChunk { location: LocationView, upload: Seq<u8> },
    UploadFinalize { location: LocationView, upload: Seq<u8>, digest: Seq<u8> },
    ManifestPut { reference: ManifestReferenceView },
    ManifestGet { reference: ManifestReferenceView },
    BadRequest,
    MethodNotAllowed,
    Unmatched,
}

/// Where a request goes.
#[derive(Debug, PartialEq, Eq)]
pub enum Route {
    /// The capability ping.
    Index,
    /// Is this blob stored?
    BlobCheck { location: ImageLocation, digest: ImageDigest },
    /// Begin an upload.
    UploadNew { location: ImageLocation },
    /// Append the request's body to an upload.
    UploadAddChunk { location: ImageLocation, upload: UploadId },
    /// End an upload, expecting its contents to have this digest.
    UploadFinalize { location: ImageLocation, upload: UploadId, digest: ImageDigest },
    /// Store the request's body as a manifest.
    ManifestPut { reference: ManifestReference },
    /// Return a manifest.
    ManifestGet { reference: ManifestReference },
    /// The path is the registry's, but a name, digest or upload id in the
    /// request is malformed.
    BadRequest,
    /// The path is the registry's, but not with this method.
    MethodNotAllowed,
    /// The path is not the registry's; the request is one for the reverse
    /// proxy.
    Unmatched,
}

impl View for Route {
    type V = RouteView;

    open spec fn view(&self) -> RouteView {
        match self {
            Route::Index => RouteView::Index,
            Route::BlobCheck { location, digest } => RouteView::BlobCheck {
                location: location@,
                digest: digest@,
            },
            Route::UploadNew { location } => RouteView::UploadNew { location: location@ },
            Route::UploadAddChunk { location, upload } => RouteView::UploadAddChunk {
                location: location@,
                upload: upload@,
            },
            Route::UploadFinalize { location, upload, digest } => RouteView::UploadFinalize {
                location: location@,
                upload: upload@,
                digest: digest@,
            },
            Route::ManifestPut { reference } => RouteView::ManifestPut { reference: reference@ },
            Route::ManifestGet { reference } => RouteView::ManifestGet { reference: reference@ },
            Route::BadRequest => RouteView::BadRequest,
            Route::MethodNotAllowed => RouteView::MethodNotAllowed,
            Route::Unmatched => RouteView::Unmatched,
        }
    }
}

/// What a request needs to be allowed at a location.
#[derive(Clone, Copy, Debug, PartialEq, Eq, Structural)]
pub enum Access {
    /// The request only looks at what is stored.
    Read,
    /// The request stores something.
    Write,
}

impl RouteView {
    /// The location that a request going this way looks at or stores to,
    /// and what it needs to be allowed there. The capability ping and the
    /// requests that are refused touch no location.
    pub open spec fn touches(self) -> Option<(LocationView, Access)> {
        match self {
            RouteView::BlobCheck { location, digest } => Some((location, Access::Read)),
            RouteView::UploadNew { location } => Some((location, Access::Write)),
            RouteView::UploadAddChunk { location, upload } => Some((location, Access::Write)),
            RouteView::UploadFinalize { location, upload, digest } => Some(
                (location, Access::Write),
            ),
            RouteView::ManifestPut { reference } => Some((reference.location, Access::Write)),
            RouteView::ManifestGet { reference } => Some((reference.location, Access::Read)),
            RouteView::Index => None,
            RouteView::BadRequest => None,
            RouteView::MethodNotAllowed => None,
            RouteView::Unmatched => None,
        }
    }
}

/// Whether `permissions` cover `access`.
pub open spec fn covers(permissions: Permissions, access: Access) -> bool {
    match access {
        Access::Read => permissions.allows_read(),
        Access::Write => permissions.allows_write(),
    }
}

impl Route {
    /// The location that the request looks at or stores to, if any.
    pub fn location(&self) -> (location: Option<&ImageLocation>)
        ensures
            match location {
                Some(found) => self@.touches() matches Some(touched) && touched.0 == found@,
                None => self@.touches() is None,
            },
    {
        match self {
            Route::BlobCheck { location, .. } => Some(location),
            Route::UploadNew { location } => Some(location),
            Route::UploadAddChunk { location, .. } => Some(location),
            Route::UploadFinalize { location, .. } => Some(location),
            Route::ManifestPut { reference } => Some(reference.location()),
            Route::ManifestGet { reference } => Some(reference.location()),
            Route::Index => None,
            Route::BadRequest => None,
            Route::MethodNotAllowed => None,
            Route::Unmatched => None,
        }
    }

    /// The answer to a request that the registry refuses for what it is:
    /// `400 Bad Request` for malformed names, `405 Method Not Allowed` for
    /// a method that is not served. Any other request is not refused here.
    pub fn refused(&self) -> (response: Option<Response>)
        ensures
            match self@ {
                RouteView::BadRequest => response matches Some(r) && r@ == refusal(
                    StatusCode::BadRequest,
                ),
                RouteView::MethodNotAllowed => response matches Some(r) && r@ == refusal(
                    StatusCode::MethodNotAllowed,
                ),
                _ => response is None,
            },
    {
        match self {
            Route::BadRequest => Some(refuse(StatusCode::BadRequest)),
            Route::MethodNotAllowed => Some(refuse(StatusCode::MethodNotAllowed)),
            _ => None,
        }
    }

    /// Whether a client with these permissions at the request's location
    /// may make the request. A request that touches no location needs no
    /// permission.
    pub fn is_permitted(&self, permissions: Permissions) -> (permitted: bool)
        ensures
            permitted == match self@.touches() {
                Some(touched) => covers(permissions, touched.1),
                None => true,
            },
    {
        match self {
            Route::BlobCheck { .. } => permissions.permit_read(),
            Route::ManifestGet { .. } => permissions.permit_read(),
            Route::UploadNew { .. } => permissions.permit_write(),
            Route::UploadAddChunk { .. } => permissions.permit_write(),
            Route::UploadFinalize { .. } => permissions.permit_write(),
            Route::ManifestPut { .. } => permissions.permit_write(),
            Route::Index => true,
            Route::BadRequest => true,
            Route::MethodNotAllowed => true,
            Route::Unmatched => true,
        }
    }
}

/// Whether `method` fetches: `GET`, or `HEAD`, which is answered as `GET`
/// without the body.
pub open spec fn fetches(method: Method) -> bool {
    method == Method::Get || method == Method::Head
}

/// Where a request with this method and path goes. `digest` is the value
/// of the query parameter of that name, if the request has it.
///
/// The method is looked at before the names in the path: a request for a
/// known path with a method that is not served there is refused as such,
/// whatever its names are like.
pub open spec fn route_of(method: Method, path: Seq<char>, digest: Option<Seq<char>>) -> RouteView {
    let segments = split(path, '/');
    let location = LocationView { repository: segments[2], image: segments[3] };
    match endpoint_of(segments) {
        None => RouteView::Unmatched,
        Some(Endpoint::Index) => if fetches(method) {
            RouteView::Index
        } else {
            RouteView::MethodNotAllowed
        },
        Some(Endpoint::Blob) => if method != Method::Head {
            RouteView::MethodNotAllowed
        } else if !location.is_path_safe() {
            RouteView::BadRequest
        } else {
            match parse_image_digest(encode_utf8(segments[5])) {
                Ok(bytes) => RouteView::BlobCheck { location, digest: bytes },
                Err(_) => RouteView::BadRequest,
            }
        },
        Some(Endpoint::NewUpload) => if method != Method::Post {
            RouteView::MethodNotAllowed
        } else if !location.is_path_safe() {
            RouteView::BadRequest
        } else {
            RouteView::UploadNew { location }
        },
        Some(Endpoint::Upload) => if method != Method::Patch && method != Method::Put {
            RouteView::MethodNotAllowed
        } else if !location.is_path_safe() {
            RouteView::BadRequest
        } else {
            match parsed_uuid(segments[5]) {
                None => RouteView::BadRequest,
                Some(upload) => if method == Method::Patch {
                    RouteView::UploadAddChunk { location, upload }
                } else {
                    match digest {
                        None => RouteView::BadRequest,
                        Some(text) => match parse_image_digest(encode_utf8(text)) {
                            Ok(bytes) => RouteView::UploadFinalize {
                                location,
                                upload,
                                digest: bytes,
                            },
                            Err(_) => RouteView::BadRequest,
                        },
                    }
                },
            }
        },
        Some(Endpoint::Manifest) => if method != Method::Put && !fetches(method) {
            RouteView::MethodNotAllowed
        } else if !location.is_path_safe() {
            RouteView::BadRequest
        } else {
            let reference = ManifestReferenceView {
                location,
                reference: parse_reference(segments[5]),
            };
            if method == Method::Put {
                RouteView::ManifestPut { reference }
            } else {
                RouteView::ManifestGet { reference }
            }
        },
    }
}

/// The endpoint that a path of these segments leads to.
fn endpoint(segments: &Vec<String>) -> (found: Option<Endpoint>)
    ensures
        found == endpoint_of(texts(segments@)),
{
    let n = segments.len();
    assert(forall|i: int| 0 <= i < n ==> segments@[i]@ == #[trigger] texts(segments@)[i]);
    if n == 3 {
        if segments[0].as_str().is_empty() && same_text(segments[1].as_str(), "v2")
            && segments[2].as_str().is_empty() {
            return Some(Endpoint::Index);
        }
        return None;
    }
    if n < 6 {
        return None;
    }
    if !(segments[0].as_str().is_empty() && same_text(segments[1].as_str(), "v2")
        && !segments[2].as_str().is_empty() && !segments[3].as_str().is_empty()) {
        return None;
    }
    let kind = segments[4].as_str();
    if n == 7 {
        if same_text(kind, "blobs") && same_text(segments[5].as_str(), "uploads")
            && segments[6].as_str().is_empty() {
            return Some(Endpoint::NewUpload);
        }
        return None;
    }
    if n != 6 || segments[5].as_str().is_empty() {
        return None;
    }
    if same_text(kind, "blobs") {
        Some(Endpoint::Blob)
    } else if same_text(kind, "uploads") {
        Some(Endpoint::Upload)
    } else if same_text(kind, "manifests") {
        Some(Endpoint::Manifest)
    } else {
        None
    }
}

/// Finds where a request goes. `digest` is the value of the query
/// parameter of that name, if the request has it.
pub fn route(method: Method, path: &str, digest: Option<&str>) -> (found: Route)
    ensures
        found@ == route_of(
            method,
            path@,
            match digest {
                Some(text) => Some(text@),
                None => None,
            },
        ),
{
    let segments = split_on(path, '/');
    let kind = match endpoint(&segments) {
        Some(kind) => kind,
        None => { return Route::Unmatched; },
    };
    assert(forall|i: int|
        0 <= i < segments@.len() ==> segments@[i]@ == #[trigger] texts(segments@)[i]);
    let fetching = match method {
        Method::Get => true,
        Method::Head => true,
        _ => false,
    };
    match kind {
        Endpoint::Index => {
            if fetching {
                Route::Index
            } else {
                Route::MethodNotAllowed
            }
        },
        Endpoint::Blob => {
            match method {
                Method::Head => {},
                _ => { return Route::MethodNotAllowed; },
            }
            let location = match location_of(&segments) {
                Some(location) => location,
                None => { return Route::BadRequest; },
            };
            match ImageDigest::from_str(segments[5].as_str()) {
                Ok(digest) => Route::BlobCheck { location, digest },
                Err(_) => Route::BadRequest,
            }
        },
        Endpoint::NewUpload => {
            match method {
                Method::Post => {},
                _ => { return Route::MethodNotAllowed; },
            }
            match location_of(&segments) {
                Some(location) => Route::UploadNew { location },
                None => Route::BadRequest,
            }
        },
        Endpoint::Upload => {
            let finalizing = match method {
                Method::Patch => false,
                Method::Put => true,
                _ => { return Route::MethodNotAllowed; },
            };
            let location = match location_of(&segments) {
                Some(location) => location,
                None => { return Route::BadRequest; },
            };
            let upload = match UploadId::parse(segments[5].as_str()) {
                Some(upload) => upload,
                None => { return Route::BadRequest; },
            };
            if !finalizing {
                return Route::UploadAddChunk { location, upload };
            }
            let text = match digest {
                Some(text) => text,
                None => { return Route::BadRequest; },
            };
            match ImageDigest::from_str(text) {
                Ok(digest) => Route::UploadFinalize { location, upload, digest },
                Err(_) => Route::BadRequest,
            }
        },
        Endpoint::Manifest => {
            let storing = match method {
                Method::Put => true,
                Method::Get => false,
                Method::Head => false,
                _ => { return Route::MethodNotAllowed; },
            };
            let location = match location_of(&segments) {
                Some(location) => location,
                None => { return Route::BadRequest; },
            };
            let reference = ManifestReference::new(
                location,
                Reference::parse(segments[5].as_str()),
            );
            if storing {
                Route::ManifestPut { reference }
            } else {
                Route::ManifestGet { reference }
            }
        },
    }
}

/// The location named by the third and fourth segment of a path, if both
/// do as file names.
fn location_of(segments: &Vec<String>) -> (location: Option<ImageLocation>)
    requires
        segments@.len() >= 4,
    ensures
        match location {
            Some(found) => found@.is_path_safe() && found@ == (LocationView {
                repository: segments@[2]@,
                image: segments@[3]@,
            }),
            None => !(LocationView {
                repository: segments@[2]@,
                image: segments@[3]@,
            }).is_path_safe(),
        },
{
    if path_safe(segments[2].as_str()) && path_safe(segments[3].as_str()) {
        Some(ImageLocation::new(segments[2].clone(), segments[3].clone()))
    } else {
        None
    }
}

/// Why a request could not be served.
#[derive(Clone, Copy, Debug, PartialEq, Eq, Structural)]
pub enum AppError {
    /// The request asks to append a range of bytes to an upload; only
    /// whole uploads are supported.
    ChunkedUpload,
    /// The request that ends an upload does not say how long its body is.
    MissingContentLength,
    /// The request that ends an upload says so in a way that is no number.
    InvalidContentLength,
    /// The request that ends an upload has a body; a last chunk in that
    /// request is not supported.
    FinalChunk,
    /// There is no such manifest.
    NoSuchManifest,
    /// The stored manifest does not declare its media type.
    MalformedManifest,
    /// The store failed.
    Storage(StorageError),
}

impl AppError {
    /// The status with which the error is reported.
    pub open spec fn status_of(self) -> StatusCode {
        match self {
            AppError::ChunkedUpload => StatusCode::InternalServerError,
            AppError::MissingContentLength => StatusCode::BadRequest,
            AppError::InvalidContentLength => StatusCode::BadRequest,
            AppError::FinalChunk => StatusCode::InternalServerError,
            AppError::NoSuchManifest => StatusCode::NotFound,
            AppError::MalformedManifest => StatusCode::InternalServerError,
            AppError::Storage(StorageError::NotFound) => StatusCode::NotFound,
            AppError::Storage(_) => StatusCode::InternalServerError,
        }
    }

    /// The message with which the error is reported.
    pub open spec fn message_of(self) -> Seq<char> {
        match self {
            AppError::ChunkedUpload => "unsupported feature: chunked uploads"@,
            AppError::MissingContentLength => "missing content length"@,
            AppError::InvalidContentLength => "invalid content length"@,
            AppError::FinalChunk => "unsupported feature: final chunk in the closing request"@,
            AppError::NoSuchManifest => "no such manifest"@,
            AppError::MalformedManifest => "malformed manifest"@,
            AppError::Storage(StorageError::NotFound) => "not found"@,
            AppError::Storage(StorageError::DigestMismatch) => "digest mismatch"@,
            AppError::Storage(StorageError::Io) => "input/output error"@,
            AppError::Storage(StorageError::Malformed) => "malformed"@,
        }
    }

    /// The response that reports the error: its message as plain text.
    pub open spec fn response_of(self) -> ResponseView {
        ResponseView {
            status: self.status_of(),
            headers: seq![
                ("Content-Type"@, "text/plain; charset=utf-8"@),
                ("Content-Length"@, decimal_text(encode_utf8(self.message_of()).len())),
            ],
            body: encode_utf8(self.message_of()),
        }
    }

    /// The status with which the error is reported.
    pub fn status(&self) -> (status: StatusCode)
        ensures
            status == self.status_of(),
    {
        match self {
            AppError::ChunkedUpload => StatusCode::InternalServerError,
            AppError::MissingContentLength => StatusCode::BadRequest,
            AppError::InvalidContentLength => StatusCode::BadRequest,
            AppError::FinalChunk => StatusCode::InternalServerError,
            AppError::NoSuchManifest => StatusCode::NotFound,
            AppError::MalformedManifest => StatusCode::InternalServerError,
            AppError::Storage(StorageError::NotFound) => StatusCode::NotFound,
            AppError::Storage(_) => StatusCode::InternalServerError,
        }
    }

    /// The message with which the error is reported.
    pub fn message(&self) -> (text: &'static str)
        ensures
            text@ == self.message_of(),
    {
        match self {
            AppError::ChunkedUpload => "unsupported feature: chunked uploads",
            AppError::MissingContentLength => "missing content length",
            AppError::InvalidContentLength => "invalid content length",
            AppError::FinalChunk => "unsupported feature: final chunk in the closing request",
            AppError::NoSuchManifest => "no such manifest",
            AppError::MalformedManifest => "malformed manifest",
            AppError::Storage(e) => e.message(),
        }
    }

    /// The response that reports the error.
    pub fn into_response(self) -> (response: Response)
        ensures
            response@ == self.response_of(),
    {
        let body = slice_to_vec(self.message().as_bytes());
        let mut response = Response::new(self.status());
        response.header("Content-Type", "text/plain; charset=utf-8".to_owned());
        response.header("Content-Length", format_decimal(body.len() as u64));
        response.body(body);
        assert(response@.headers =~= self.response_of().headers);
        response
    }
}

/// The value of the header that asks for basic authentication in `realm`.
pub open spec fn challenge_text(realm: Seq<char>) -> Seq<char> {
    "Basic realm=\""@ + realm + "\""@
}

/// The answer to the capability ping, and to any request that lacks
/// valid credentials: the challenge, with `200 OK` for a client that has
/// authenticated and `401 Unauthorized` for any other.
pub open spec fn index_response(realm: Seq<char>, authenticated: bool) -> ResponseView {
    bodiless(
        if authenticated {
            StatusCode::Okay
        } else {
            StatusCode::Unauthorized
        },
        seq![("WWW-Authenticate"@, challenge_text(realm))],
    )
}

/// The answer to a request for a malformed or unsupported path: the
/// status and nothing else.
pub open spec fn refusal(status: StatusCode) -> ResponseView {
    bodiless(status, Seq::empty())
}

/// The answer to a check for the blob `digest`: its size and digest if it
/// is stored, `404 Not Found` otherwise.
pub open spec fn blob_check_response(digest: Seq<u8>, metadata: Option<BlobMetadata>) -> ResponseView {
    match metadata {
        Some(found) => ResponseView {
            status: StatusCode::Okay,
            headers: seq![
                ("Content-Length"@, decimal_text(found.size_bytes() as nat)),
                ("Docker-Content-Digest"@, image_digest_text(digest)),
                ("Content-Type"@, "application/octet-stream"@),
            ],
            body: Seq::empty(),
        },
        None => refusal(StatusCode::NotFound),
    }
}

/// The segments of the path below which the registry serves `location`,
/// followed by `kind` and `name`.
pub open spec fn path_segments(location: LocationView, kind: Seq<char>, name: Seq<char>) -> Seq<
    Seq<char>,
> {
    seq![Seq::<char>::empty(), "v2"@, location.repository, location.image, kind, name]
}

/// The path under which an upload is continued and ended:
/// `/v2/<repository>/<image>/uploads/<upload>`.
pub open spec fn upload_location_text(location: LocationView, upload: Seq<u8>) -> Seq<char> {
    join(path_segments(location, "uploads"@, uuid_text(upload)), '/')
}

/// The path under which a manifest is found by its digest:
/// `/v2/<repository>/<image>/manifests/sha256:<hex>`.
pub open spec fn manifest_location_text(location: LocationView, digest: Seq<u8>) -> Seq<char> {
    join(path_segments(location, "manifests"@, image_digest_text(digest)), '/')
}

/// The path below which the registry serves `location`, followed by
/// `kind` and `name`.
fn path_to(location: &ImageLocation, kind: &str, name: String) -> (path: String)
    ensures
        path@ == join(path_segments(location@, kind@, name@), '/'),
{
    let mut segments: Vec<String> = Vec::new();
    segments.push(String::new());
    segments.push("v2".to_owned());
    segments.push(location.repository().to_owned());
    segments.push(location.image().to_owned());
    segments.push(kind.to_owned());
    segments.push(name);
    assert(texts(segments@) =~= path_segments(location@, kind@, name@));
    join_on(&segments, '/')
}

/// The range of bytes that an upload of `completed` bytes holds, as the
/// `Range` header gives it: from zero to the last byte's index.
pub open spec fn range_text(completed: u64) -> Seq<char> {
    "0-"@ + decimal_text(
        if completed == 0 {
            0nat
        } else {
            (completed - 1) as nat
        },
    )
}

/// The answer to a request that began or continued an upload: where to
/// go on, and, once bytes were received, how many the upload holds.
pub open spec fn upload_response(location: LocationView, completed: Option<u64>, upload: Seq<u8>) -> ResponseView {
    let common = seq![
        ("Location"@, upload_location_text(location, upload)),
        ("Docker-Upload-UUID"@, uuid_text(upload)),
    ];
    match completed {
        Some(bytes) => bodiless(
            StatusCode::NoContent,
            common.push(("Range"@, range_text(bytes))),
        ),
        None => bodiless(StatusCode::Accepted, common),
    }
}

/// The path under which an upload is continued and ended.
pub fn mk_upload_location(location: &ImageLocation, uuid: UploadId) -> (path: String)
    ensures
        path@ == upload_location_text(location@, uuid@),
{
    path_to(location, "uploads", uuid.to_string())
}

/// An upload as the client is told of it.
#[derive(Debug, PartialEq, Eq)]
pub struct UploadState {
    /// The image that the upload belongs to.
    pub location: ImageLocation,
    /// How many bytes the upload holds, once some were received.
    pub completed: Option<u64>,
    /// The upload's id.
    pub upload: UploadId,
}

impl UploadState {
    /// The response that tells the client of the upload.
    pub fn into_response(self) -> (response: Response)
        ensures
            response@ == upload_response(self.location@, self.completed, self.upload@),
    {
        let mut response = Response::new(
            match self.completed {
                Some(_) => StatusCode::NoContent,
                None => StatusCode::Accepted,
            },
        );
        response.header("Location", mk_upload_location(&self.location, self.upload));
        response.header("Docker-Upload-UUID", self.upload.to_string());
        if let Some(completed) = self.completed {
            let last: u64 = if completed == 0 {
                0
            } else {
                completed - 1
            };
            let mut range = "0-".to_owned();
            push_decimal(&mut range, last);
            response.header("Range", range);
        }
        response.no_body();
        assert(response@.headers =~= upload_response(
            self.location@,
            self.completed,
            self.upload@,
        ).headers);
        response
    }
}

/// What becomes of a request to append to an upload: it is refused where
/// it names a range of bytes, and where there is no such upload; else the
/// upload holds `completed` bytes.
pub open spec fn chunk_outcome(has_range: bool, completed: Option<u64>) -> Result<u64, AppError> {
    if has_range {
        Err(AppError::ChunkedUpload)
    } else {
        match completed {
            Some(bytes) => Ok(bytes),
            None => Err(AppError::Storage(StorageError::NotFound)),
        }
    }
}

/// Whether a request may end an upload, going by its `Content-Length`
/// header: the header must be there and say zero.
pub open spec fn closing_length(content_length: Option<Seq<char>>) -> Result<(), AppError> {
    match content_length {
        None => Err(AppError::MissingContentLength),
        Some(text) => match parse_u64(text) {
            None => Err(AppError::InvalidContentLength),
            Some(length) => if length == 0 {
                Ok(())
            } else {
                Err(AppError::FinalChunk)
            },
        },
    }
}

/// What the registry answers when an upload is ended: `201 Created` with
/// the digest where the contents hash to the expected digest, an error
/// otherwise. A request that may not end an upload is refused before the
/// contents are looked at. `contents` is `None` where there is no such
/// upload.
pub open spec fn finalize_response(content_length: Option<Seq<char>>, contents: Option<Seq<u8>>, expected: Seq<u8>) -> Result<
    ResponseView,
    AppError,
> {
    match closing_length(content_length) {
        Err(e) => Err(e),
        Ok(_) => match contents {
            None => Err(AppError::Storage(StorageError::NotFound)),
            Some(bytes) => if sha256(bytes) == expected {
                Ok(
                    bodiless(
                        StatusCode::Created,
                        seq![("Docker-Content-Digest"@, image_digest_text(expected))],
                    ),
                )
            } else {
                Err(AppError::Storage(StorageError::DigestMismatch))
            },
        },
    }
}

/// The file operations by which an upload is ended: none where the
/// request may not end an upload or there is no such upload.
pub open spec fn finalize_plan(
    content_length: Option<Seq<char>>,
    upload: Seq<u8>,
    contents: Option<Seq<u8>>,
    expected: Seq<u8>,
    blob_exists: bool,
) -> Seq<OpView> {
    match (closing_length(content_length), contents) {
        (Ok(_), Some(bytes)) => finalize_ops(upload, expected, sha256(bytes) == expected, blob_exists),
        _ => Seq::empty(),
    }
}

/// What the registry answers when a manifest was stored under `digest`.
pub open spec fn manifest_put_response(location: LocationView, digest: Seq<u8>) -> ResponseView {
    bodiless(
        StatusCode::Created,
        seq![
            ("Location"@, manifest_location_text(location, digest)),
            ("Docker-Content-Digest"@, image_digest_text(digest)),
        ],
    )
}

/// What the registry answers to a request for a manifest, given what
/// looking it up in the store gave: the bytes under the media type that
/// they declare. A manifest that is not found, be it its tag or its
/// bytes, is no such manifest; any other failure of the store is passed
/// on.
pub open spec fn manifest_get_response(found: Result<Option<Seq<u8>>, StorageError>) -> Result<
    ResponseView,
    AppError,
> {
    match found {
        Err(StorageError::NotFound) => Err(AppError::NoSuchManifest),
        Err(e) => Err(AppError::Storage(e)),
        Ok(None) => Err(AppError::NoSuchManifest),
        Ok(Some(bytes)) => match declared_media_type(bytes) {
            None => Err(AppError::MalformedManifest),
            Some(media_type) => Ok(
                ResponseView {
                    status: StatusCode::Okay,
                    headers: seq![
                        ("Content-Length"@, decimal_text(bytes.len())),
                        ("Content-Type"@, media_type),
                    ],
                    body: bytes,
                },
            ),
        },
    }
}

/// An answer, with the response replaced by what it says.
pub open spec fn answered(answer: Result<Response, AppError>) -> Result<ResponseView, AppError> {
    match answer {
        Ok(response) => Ok(response@),
        Err(e) => Err(e),
    }
}

/// How the end of an upload is to be carried out and answered.
#[derive(Debug, PartialEq, Eq)]
pub struct UploadFinalized {
    /// The file operations to carry out before answering.
    pub ops: Vec<StoreOp>,
    /// The answer.
    pub response: Result<Response, AppError>,
}

/// How a manifest is to be stored and the request answered.
#[derive(Debug, PartialEq, Eq)]
pub struct ManifestStored {
    /// The digest of the manifest.
    pub digest: Digest,
    /// The file operations to carry out before answering.
    pub ops: Vec<StoreOp>,
    /// The answer, once the operations have succeeded.
    pub response: Response,
    /// The reference of which the deployment controller is to be told,
    /// once the operations have succeeded.
    pub uploaded: ManifestReference,
}

/// The realm for which a registry asks clients to authenticate unless it
/// is given another.
pub const DEFAULT_REALM: &'static str = "TODO REGISTRY";

/// The registry's front end.
#[derive(Debug)]
pub struct DockerRegistry {
    realm: String,
}

impl DockerRegistry {
    /// The realm for which the registry asks clients to authenticate.
    pub closed spec fn realm_text(&self) -> Seq<char> {
        self.realm@
    }

    /// A registry that asks clients to authenticate for the realm
    /// [`DEFAULT_REALM`].
    pub fn with_default_realm() -> (registry: DockerRegistry)
        ensures
            registry.realm_text() == DEFAULT_REALM@,
    {
        DockerRegistry { realm: DEFAULT_REALM.to_owned() }
    }

    /// A registry that asks clients to authenticate for `realm`.
    pub fn new(realm: String) -> (registry: DockerRegistry)
        ensures
            registry.realm_text() == realm@,
    {
        DockerRegistry { realm }
    }

    /// The header value that asks for basic authentication.
    fn challenge(&self) -> (value: String)
        ensures
            value@ == challenge_text(self.realm_text()),
    {
        let mut value = "Basic realm=\"".to_owned();
        push_text(&mut value, self.realm.as_str());
        push_text(&mut value, "\"");
        value
    }

    /// Answers the capability ping. `authenticated` tells whether the
    /// client's credentials were found valid.
    pub fn index_v2(&self, authenticated: bool) -> (response: Response)
        ensures
            response@ == index_response(self.realm_text(), authenticated),
    {
        let mut response = Response::new(
            if authenticated {
                StatusCode::Okay
            } else {
                StatusCode::Unauthorized
            },
        );
        response.header("WWW-Authenticate", self.challenge());
        response.no_body();
        assert(response@.headers =~= index_response(self.realm_text(), authenticated).headers);
        response
    }

    /// Authenticates a request by its `Authorization` header, if it has
    /// one. A header that cannot be read is a bad request; credentials
    /// that the provider does not accept, or none, are answered with the
    /// challenge.
    pub fn authenticate<A: AuthProvider>(&self, provider: &A, authorization: Option<&[u8]>) -> (outcome:
        Result<ValidCredentials, Response>)
        ensures
            match credentials_of(
                match authorization {
                    Some(value) => Some(value@),
                    None => None,
                },
            ) {
                Err(_) => outcome matches Err(response) && response@ == refusal(
                    StatusCode::BadRequest,
                ),
                Ok(unverified) => match outcome {
                    Ok(creds) => provider.accepts(unverified, Some(creds@)),
                    Err(response) => provider.accepts(unverified, None) && response@
                        == index_response(self.realm_text(), false),
                },
            },
    {
        let unverified = match Unverified::from_request_parts(authorization) {
            Ok(unverified) => unverified,
            Err(_) => { return Err(refuse(StatusCode::BadRequest)); },
        };
        match provider.check_credentials(&unverified) {
            Some(creds) => Ok(creds),
            None => Err(self.index_v2(false)),
        }
    }

    /// Decides whether a client that has authenticated as `creds` may
    /// make the request that goes to `found`. One that may not is answered
    /// with the challenge.
    pub fn authorize<A: AuthProvider>(&self, provider: &A, creds: &ValidCredentials, found: &Route) -> (outcome:
        Result<(), Response>)
        ensures
            match found@.touches() {
                None => outcome is Ok,
                Some(touched) => match outcome {
                    Ok(_) => exists|permissions: Permissions|
                        provider.grants(creds@, touched.0, permissions) && covers(
                            permissions,
                            touched.1,
                        ),
                    Err(response) => response@ == index_response(self.realm_text(), false)
                        && exists|permissions: Permissions|
                        provider.grants(creds@, touched.0, permissions) && !covers(
                            permissions,
                            touched.1,
                        ),
                },
            },
    {
        let location = match found.location() {
            Some(location) => location,
            None => { return Ok(()); },
        };
        let permissions = provider.get_permissions(creds, location);
        if found.is_permitted(permissions) {
            Ok(())
        } else {
            Err(self.index_v2(false))
        }
    }

    /// Answers a check for a blob. `metadata` is what the store knows of
    /// the blob, or `None` if it is not stored.
    pub fn blob_check(&self, image: &ImageDigest, metadata: Option<BlobMetadata>) -> (response:
        Response)
        ensures
            response@ == blob_check_response(image@, metadata),
    {
        match metadata {
            Some(found) => {
                let mut response = Response::new(StatusCode::Okay);
                response.header("Content-Length", format_decimal(found.size()));
                response.header("Docker-Content-Digest", image.to_string());
                response.header("Content-Type", "application/octet-stream".to_owned());
                assert(response@.headers =~= blob_check_response(image@, metadata).headers);
                response
            },
            None => refuse(StatusCode::NotFound),
        }
    }

    /// Describes the upload that was begun for `location` under `upload`.
    pub fn upload_new(&self, location: ImageLocation, upload: UploadId) -> (state: UploadState)
        ensures
            state.location@ == location@,
            state.completed is None,
            state.upload@ == upload@,
    {
        UploadState { location, completed: None, upload }
    }

    /// Judges a request to append its body to the upload `upload`, and
    /// describes the upload. `completed` tells how many bytes the upload
    /// holds, or is `None` if there is no such upload. A request that
    /// names a range of bytes, as `has_range` tells, is refused, and so is
    /// one for an upload that does not exist. The request is to be judged
    /// before anything is appended, and the upload described afterwards.
    pub fn upload_add_chunk(&self, location: ImageLocation, upload: UploadId, has_range: bool, completed: Option<u64>) -> (state:
        Result<UploadState, AppError>)
        ensures
            match state {
                Ok(described) => {
                    &&& chunk_outcome(has_range, completed) == Ok::<u64, AppError>(
                        described.completed->0,
                    )
                    &&& described.location@ == location@
                    &&& described.completed is Some
                    &&& described.upload@ == upload@
                },
                Err(e) => chunk_outcome(has_range, completed) == Err::<u64, AppError>(e),
            },
    {
        if has_range {
            return Err(AppError::ChunkedUpload);
        }
        match completed {
            Some(bytes) => Ok(UploadState { location, completed: Some(bytes), upload }),
            None => Err(AppError::Storage(StorageError::NotFound)),
        }
    }

    /// Checks, by the value of its `Content-Length` header, that a request
    /// may end an upload.
    pub fn check_closing_length(&self, content_length: Option<&str>) -> (checked: Result<(), AppError>)
        ensures
            checked == closing_length(
                match content_length {
                    Some(text) => Some(text@),
                    None => None,
                },
            ),
    {
        match content_length {
            None => Err(AppError::MissingContentLength),
            Some(text) => match read_u64(text) {
                None => Err(AppError::InvalidContentLength),
                Some(num_bytes) => {
                    if num_bytes != 0 {
                        Err(AppError::FinalChunk)
                    } else {
                        Ok(())
                    }
                },
            },
        }
    }

    /// Ends the upload `upload` for a client that expects its contents to
    /// hash to `image_digest`. `contents` holds what the upload's file
    /// holds, or is `None` if there is no such upload; `blob_exists` tells
    /// whether the expected blob is already stored. A request that may
    /// not end an upload leaves the upload as it is.
    pub fn upload_finalize(
        &self,
        upload: UploadId,
        content_length: Option<&str>,
        contents: Option<&[u8]>,
        image_digest: ImageDigest,
        blob_exists: bool,
    ) -> (finalized: UploadFinalized)
        ensures
            answered(finalized.response) == finalize_response(
                match content_length {
                    Some(text) => Some(text@),
                    None => None,
                },
                match contents {
                    Some(bytes) => Some(bytes@),
                    None => None,
                },
                image_digest@,
            ),
            ops_view(finalized.ops@) == finalize_plan(
                match content_length {
                    Some(text) => Some(text@),
                    None => None,
                },
                upload@,
                match contents {
                    Some(bytes) => Some(bytes@),
                    None => None,
                },
                image_digest@,
                blob_exists,
            ),
    {
        match self.check_closing_length(content_length) {
            Err(e) => {
                let ops: Vec<StoreOp> = Vec::new();
                assert(ops_view(ops@) =~= Seq::empty());
                return UploadFinalized { ops, response: Err(e) };
            },
            Ok(_) => {},
        }
        let contents = match contents {
            Some(bytes) => bytes,
            None => {
                let ops: Vec<StoreOp> = Vec::new();
                assert(ops_view(ops@) =~= Seq::empty());
                return UploadFinalized {
                    ops,
                    response: Err(AppError::Storage(StorageError::NotFound)),
                };
            },
        };
        let done = crate::storage::finalize_upload(
            upload,
            contents,
            image_digest.into_digest(),
            blob_exists,
        );
        match done.result {
            Ok(_) => {
                let mut response = Response::new(StatusCode::Created);
                response.header("Docker-Content-Digest", image_digest.to_string());
                response.no_body();
                UploadFinalized { ops: done.ops, response: Ok(response) }
            },
            Err(e) => UploadFinalized { ops: done.ops, response: Err(AppError::Storage(e)) },
        }
    }

    /// Stores the manifest `image_manifest_json` under
    /// `manifest_reference`. The answer is to be given, and the
    /// deployment controller told of the reference, once the operations
    /// have succeeded.
    pub fn manifest_put(
        &self,
        manifest_reference: ManifestReference,
        image_manifest_json: &[u8],
    ) -> (stored: Result<ManifestStored, AppError>)
        ensures
            match stored {
                Ok(plan) => {
                    &&& can_store(manifest_reference@)
                    &&& plan.digest@ == sha256(image_manifest_json@)
                    &&& ops_view(plan.ops@) == put_manifest_ops(
                        manifest_reference@,
                        image_manifest_json@,
                    )
                    &&& plan.response@ == manifest_put_response(
                        manifest_reference@.location,
                        sha256(image_manifest_json@),
                    )
                    &&& plan.uploaded@ == manifest_reference@
                },
                Err(e) => !can_store(manifest_reference@) && e == AppError::Storage(
                    StorageError::Malformed,
                ),
            },
    {
        let (digest, ops) = match crate::storage::put_manifest(
            &manifest_reference,
            image_manifest_json,
        ) {
            Ok(stored) => stored,
            Err(e) => { return Err(AppError::Storage(e)); },
        };
        let written = ImageDigest::new(digest).to_string();
        let url = path_to(manifest_reference.location(), "manifests", written.clone());
        let mut response = Response::new(StatusCode::Created);
        response.header("Location", url);
        response.header("Docker-Content-Digest", written);
        response.no_body();
        assert(response@.headers =~= manifest_put_response(
            manifest_reference@.location,
            digest@,
        ).headers);
        Ok(ManifestStored { digest, ops, response, uploaded: manifest_reference })
    }

    /// Answers a request for a manifest. `found` holds what looking it up
    /// gave: the failure of `storage::get_manifest`, or else the bytes of
    /// the file it led to, `None` if there is no such file.
    pub fn manifest_get(&self, found: Result<Option<Vec<u8>>, StorageError>) -> (answer: Result<
        Response,
        AppError,
    >)
        ensures
            answered(answer) == manifest_get_response(
                match found {
                    Ok(Some(bytes)) => Ok(Some(bytes@)),
                    Ok(None) => Ok(None),
                    Err(e) => Err(e),
                },
            ),
    {
        let manifest_json = match found {
            Ok(Some(bytes)) => bytes,
            Ok(None) => { return Err(AppError::NoSuchManifest); },
            Err(StorageError::NotFound) => { return Err(AppError::NoSuchManifest); },
            Err(e) => { return Err(AppError::Storage(e)); },
        };
        let manifest = match ImageManifest::parse(manifest_json.as_slice()) {
            Some(manifest) => manifest,
            None => { return Err(AppError::MalformedManifest); },
        };
        let mut response = Response::new(StatusCode::Okay);
        response.header("Content-Length", format_decimal(manifest_json.len() as u64));
        response.header("Content-Type", manifest.media_type().to_owned());
        response.body(manifest_json);
        assert(response@.headers =~= manifest_get_response(Ok(Some(manifest_json@)))->Ok_0.headers);
        Ok(response)
    }
}

/// The answer that consists of a status and nothing else.
pub fn refuse(status: StatusCode) -> (response: Response)
    ensures
        response@ == refusal(status),
{
    let mut response = Response::new(status);
    response.no_body();
    response
}

/// The location that the registry gives for a stored manifest leads back
/// to it: a request to fetch that path goes to the manifest of that
/// digest at that location.
pub proof fn lemma_manifest_location_is_served(location: LocationView, digest: Seq<u8>)
    requires
        location.is_path_safe(),
        digest.len() == 32,
    ensures
        route_of(Method::Get, manifest_location_text(location, digest), None)
            == (RouteView::ManifestGet {
            reference: ManifestReferenceView {
                location,
                reference: ReferenceView::Digest(digest),
            },
        }),
{
    reveal_strlit("v2");
    reveal_strlit("blobs");
    reveal_strlit("uploads");
    reveal_strlit("manifests");
    reveal_strlit("sha256:");
    let written = image_digest_text(digest);
    let parts = path_segments(location, "manifests"@, written);
    let path = manifest_location_text(location, digest);
    assert forall|i: int| 0 <= i < parts.len() implies lacks(#[trigger] parts[i], '/') by {
        if i == 2 || i == 3 {
            assert forall|j: int| 0 <= j < parts[i].len() implies parts[i][j] != '/' by {
                assert(!crate::location::is_path_breaking(parts[i][j]));
            }
        } else if i == 5 {
            crate::digest::lemma_hex_round_trip(digest);
            let hex = crate::digest::hex_encode(digest);
            assert forall|j: int| 0 <= j < written.len() implies written[j] != '/' by {
                if j >= 7 {
                    assert(written[j] == hex[j - 7]);
                    assert(crate::digest::is_lower_hex_digit(hex[j - 7] as u8));
                }
            }
        }
    }
    lemma_split_join(parts, '/');
    crate::location::lemma_reference_round_trip(ReferenceView::Digest(digest));
    assert(split(path, '/') == parts);
    assert(parts[4].len() == 9 && "blobs"@.len() == 5 && "uploads"@.len() == 7);
    assert(parts[5].len() == 71);
    assert(parts[2].len() > 0 && parts[3].len() > 0);
    assert(endpoint_of(parts) == Some(Endpoint::Manifest));
}

} // verus!
