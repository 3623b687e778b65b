use rockslide::auth::{Identity, Permissions, ValidCredentials};
use rockslide::digest::{Digest, ImageDigest};
use rockslide::http::{header_value, Method, Response, StatusCode};
use rockslide::location::{ImageLocation, ManifestReference, Reference};
use rockslide::manifest::ImageManifest;
use rockslide::registry::{
    mk_upload_location, refuse, route, AppError, DockerRegistry, Route, UploadState,
    DEFAULT_REALM,
};
use rockslide::storage::{
    begin_new_upload, get_blob, get_blob_metadata, get_manifest, get_writer, tag_pointer,
    BlobMetadata, StorageError, StoreKey, StoreOp, UploadId,
};
use sec::Secret;
use std::collections::HashMap;

const HELLO: &str = "sha256:5891b5b522d5df086d0ff0b110fbd9d21bb4fc7163af34d08286a2e846f6be03";
const ZEROS: &str = "sha256:0000000000000000000000000000000000000000000000000000000000000000";
const UPLOAD: &str = "550e8400-e29b-41d4-a716-446655440000";

fn registry() -> DockerRegistry {
    DockerRegistry::with_default_realm()
}

fn location() -> ImageLocation {
    ImageLocation::new("lib".to_string(), "hello".to_string())
}

fn upload() -> UploadId {
    UploadId::parse(UPLOAD).unwrap()
}

fn header<'a>(response: &'a Response, name: &str) -> Option<&'a str> {
    header_value(&response.headers, name)
}

fn run(files: &mut HashMap<String, Vec<u8>>, ops: &[StoreOp]) {
    for op in ops {
        match op {
            StoreOp::Create(key) => {
                let path = key.path().unwrap();
                assert!(!files.contains_key(&path));
                files.insert(path, Vec::new());
            }
            StoreOp::Write(key, contents) => {
                files.insert(key.path().unwrap(), contents.clone());
            }
            StoreOp::Rename(from, to) => {
                let contents = files.remove(&from.path().unwrap()).unwrap();
                files.insert(to.path().unwrap(), contents);
            }
            StoreOp::Remove(key) => {
                files.remove(&key.path().unwrap());
            }
        }
    }
}

fn manifest_of_200_bytes() -> Vec<u8> {
    let mut body = format!(
        "{{\"schemaVersion\":2,\"mediaType\":\"application/vnd.oci.image.manifest.v1+json\",\"config\":{{\"digest\":\"{}\"}},\"layers\":[]}}",
        HELLO
    );
    while body.len() < 200 {
        body.push(' ');
    }
    body.into_bytes()
}

#[test]
fn unauthenticated_ping() {
    let registry = registry();
    assert_eq!(route(Method::Get, "/v2/", None), Route::Index);
    let master = Secret::new("s3cret".to_string());
    let response = registry.authenticate(&master, None).unwrap_err();
    assert_eq!(response.status, StatusCode::Unauthorized);
    assert_eq!(response.status.as_u16(), 401);
    assert_eq!(header(&response, "WWW-Authenticate"), Some("Basic realm=\"TODO REGISTRY\""));
    assert_eq!(header(&response, "Content-Length"), Some("0"));
    assert!(response.body.is_empty());
    assert_eq!(response, registry.index_v2(false));
}

#[test]
fn authenticated_ping() {
    let registry = registry();
    let master = Secret::new("s3cret".to_string());
    let creds = registry.authenticate(&master, Some(b"Basic OnMzY3JldA==")).unwrap();
    assert_eq!(creds, ValidCredentials(Identity::Anonymous));
    let response = registry.index_v2(true);
    assert_eq!(response.status, StatusCode::Okay);
    assert_eq!(response.status.as_u16(), 200);
    assert_eq!(header(&response, "WWW-Authenticate"), Some("Basic realm=\"TODO REGISTRY\""));
    assert!(response.body.is_empty());
}

#[test]
fn wrong_password_is_challenged() {
    let registry = registry();
    let master = Secret::new("s3cret".to_string());
    // ":secret"
    let response = registry.authenticate(&master, Some(b"Basic OnNlY3JldA==")).unwrap_err();
    assert_eq!(response.status, StatusCode::Unauthorized);
    assert_eq!(header(&response, "www-authenticate"), Some("Basic realm=\"TODO REGISTRY\""));
}

#[test]
fn unreadable_authorization_is_a_bad_request() {
    let registry = registry();
    let response = registry.authenticate(&true, Some(b"Basic ????")).unwrap_err();
    assert_eq!(response.status, StatusCode::BadRequest);
    assert_eq!(response.status.as_u16(), 400);
    assert_eq!(header(&response, "WWW-Authenticate"), None);
    assert_eq!(response, refuse(StatusCode::BadRequest));
}

#[test]
fn default_realm() {
    assert_eq!(DEFAULT_REALM, "TODO REGISTRY");
    assert_eq!(
        DockerRegistry::with_default_realm().index_v2(false),
        DockerRegistry::new("TODO REGISTRY".to_string()).index_v2(false)
    );
}

#[test]
fn realm_is_quoted_in_the_challenge() {
    let response = DockerRegistry::new("my registry".to_string()).index_v2(false);
    assert_eq!(
        response.headers,
        vec![
            ("WWW-Authenticate".to_string(), "Basic realm=\"my registry\"".to_string()),
            ("Content-Length".to_string(), "0".to_string()),
        ]
    );
}

#[test]
fn routes_of_the_registry() {
    assert_eq!(route(Method::Get, "/v2/", None), Route::Index);
    assert_eq!(route(Method::Head, "/v2/", None), Route::Index);
    assert_eq!(
        route(Method::Head, &format!("/v2/lib/hello/blobs/{}", HELLO), None),
        Route::BlobCheck {
            location: location(),
            digest: ImageDigest::from_str(HELLO).unwrap()
        }
    );
    assert_eq!(
        route(Method::Post, "/v2/lib/hello/blobs/uploads/", None),
        Route::UploadNew { location: location() }
    );
    assert_eq!(
        route(Method::Patch, &format!("/v2/lib/hello/uploads/{}", UPLOAD), None),
        Route::UploadAddChunk { location: location(), upload: upload() }
    );
    assert_eq!(
        route(Method::Put, &format!("/v2/lib/hello/uploads/{}", UPLOAD), Some(HELLO)),
        Route::UploadFinalize {
            location: location(),
            upload: upload(),
            digest: ImageDigest::from_str(HELLO).unwrap()
        }
    );
    assert_eq!(
        route(Method::Put, "/v2/lib/hello/manifests/prod", None),
        Route::ManifestPut {
            reference: ManifestReference::new(location(), Reference::Tag("prod".to_string()))
        }
    );
    assert_eq!(
        route(Method::Get, &format!("/v2/lib/hello/manifests/{}", HELLO), None),
        Route::ManifestGet {
            reference: ManifestReference::new(
                location(),
                Reference::Digest(Digest::of(b"hello\n"))
            )
        }
    );
    assert_eq!(
        route(Method::Head, "/v2/lib/hello/manifests/prod", None),
        Route::ManifestGet {
            reference: ManifestReference::new(location(), Reference::Tag("prod".to_string()))
        }
    );
}

#[test]
fn paths_that_are_not_the_registrys() {
    for path in ["", "/", "/v2", "/v1/", "/v2/lib", "/v2/lib/hello", "/v2/lib/hello/blobs",
        "/v2/lib/hello/blobs/", "/v2/lib/hello/tags/list", "/v2//hello/manifests/prod",
        "/v2/lib//manifests/prod", "/v2/lib/hello/manifests/", "/v2/lib/hello/manifests/prod/",
        "/v2/lib/hello/manifests/a/b", "v2/lib/hello/manifests/prod", "/index.html",
        "/v2/lib/hello/blobs/uploads/x", "/v2/a/b/c/manifests/prod"] {
        assert_eq!(route(Method::Get, path, None), Route::Unmatched, "{}", path);
    }
}

#[test]
fn methods_that_are_not_served() {
    assert_eq!(route(Method::Post, "/v2/", None), Route::MethodNotAllowed);
    assert_eq!(
        route(Method::Get, &format!("/v2/lib/hello/blobs/{}", HELLO), None),
        Route::MethodNotAllowed
    );
    assert_eq!(route(Method::Get, "/v2/lib/hello/blobs/uploads/", None), Route::MethodNotAllowed);
    assert_eq!(
        route(Method::Get, &format!("/v2/lib/hello/uploads/{}", UPLOAD), None),
        Route::MethodNotAllowed
    );
    assert_eq!(route(Method::Delete, "/v2/lib/hello/manifests/prod", None), Route::MethodNotAllowed);
    assert_eq!(route(Method::Other, "/v2/lib/hello/manifests/prod", None), Route::MethodNotAllowed);
    // the method is looked at before the names
    assert_eq!(route(Method::Get, "/v2/lib/hello/blobs/nonsense", None), Route::MethodNotAllowed);
}

#[test]
fn malformed_requests() {
    assert_eq!(route(Method::Head, "/v2/lib/hello/blobs/nonsense", None), Route::BadRequest);
    assert_eq!(route(Method::Head, "/v2/lib/hello/blobs/uploads", None), Route::BadRequest);
    assert_eq!(
        route(Method::Head, &format!("/v2/lib/hello/blobs/{}", HELLO.to_uppercase()), None),
        Route::BadRequest
    );
    assert_eq!(route(Method::Patch, "/v2/lib/hello/uploads/nonsense", None), Route::BadRequest);
    let finalize = format!("/v2/lib/hello/uploads/{}", UPLOAD);
    assert_eq!(route(Method::Put, &finalize, None), Route::BadRequest);
    assert_eq!(route(Method::Put, &finalize, Some("")), Route::BadRequest);
    assert_eq!(route(Method::Put, &finalize, Some(&HELLO[7..])), Route::BadRequest);
    assert_eq!(route(Method::Put, "/v2/../hello/manifests/prod", None), Route::BadRequest);
    assert_eq!(route(Method::Get, "/v2/lib/./manifests/prod", None), Route::BadRequest);
    assert_eq!(route(Method::Post, "/v2/li\\b/hello/blobs/uploads/", None), Route::BadRequest);
}

#[test]
fn locations_of_routes() {
    let blob = route(Method::Head, &format!("/v2/lib/hello/blobs/{}", HELLO), None);
    assert_eq!(blob.location(), Some(&location()));
    let put = route(Method::Put, "/v2/lib/hello/manifests/prod", None);
    assert_eq!(put.location(), Some(&location()));
    assert_eq!(Route::Index.location(), None);
    assert_eq!(Route::BadRequest.location(), None);
    assert_eq!(Route::MethodNotAllowed.location(), None);
    assert_eq!(Route::Unmatched.location(), None);
}

#[test]
fn reading_and_writing_routes() {
    let upload_url = format!("/v2/lib/hello/uploads/{}", UPLOAD);
    let reading = [
        route(Method::Head, &format!("/v2/lib/hello/blobs/{}", HELLO), None),
        route(Method::Get, "/v2/lib/hello/manifests/prod", None),
    ];
    let writing = [
        route(Method::Post, "/v2/lib/hello/blobs/uploads/", None),
        route(Method::Patch, &upload_url, None),
        route(Method::Put, &upload_url, Some(HELLO)),
        route(Method::Put, "/v2/lib/hello/manifests/prod", None),
    ];
    for found in &reading {
        assert!(found.is_permitted(Permissions::Read));
        assert!(found.is_permitted(Permissions::ReadWrite));
        assert!(!found.is_permitted(Permissions::WriteOnly));
        assert!(!found.is_permitted(Permissions::NoAccess));
    }
    for found in &writing {
        assert!(found.is_permitted(Permissions::WriteOnly));
        assert!(found.is_permitted(Permissions::ReadWrite));
        assert!(!found.is_permitted(Permissions::Read));
        assert!(!found.is_permitted(Permissions::NoAccess));
    }
    for found in [Route::Index, Route::BadRequest, Route::MethodNotAllowed, Route::Unmatched] {
        assert!(found.is_permitted(Permissions::NoAccess));
    }
}

#[test]
fn whoever_is_let_in_may_do_everything() {
    let registry = registry();
    let master = Secret::new("s3cret".to_string());
    let creds = registry.authenticate(&master, Some(b"Basic OnMzY3JldA==")).unwrap();
    for found in [
        Route::Index,
        route(Method::Head, &format!("/v2/lib/hello/blobs/{}", HELLO), None),
        route(Method::Put, "/v2/lib/hello/manifests/prod", None),
    ] {
        assert_eq!(registry.authorize(&master, &creds, &found), Ok(()));
    }
}

#[test]
fn upload_location() {
    assert_eq!(
        mk_upload_location(&location(), upload()),
        format!("/v2/lib/hello/uploads/{}", UPLOAD)
    );
}

#[test]
fn upload_state_responses() {
    let begun =
        UploadState { location: location(), completed: None, upload: upload() }.into_response();
    assert_eq!(begun.status, StatusCode::Accepted);
    assert_eq!(
        begun.headers,
        vec![
            ("Location".to_string(), format!("/v2/lib/hello/uploads/{}", UPLOAD)),
            ("Docker-Upload-UUID".to_string(), UPLOAD.to_string()),
            ("Content-Length".to_string(), "0".to_string()),
        ]
    );
    assert!(begun.body.is_empty());
    let received = UploadState { location: location(), completed: Some(6), upload: upload() }
        .into_response();
    assert_eq!(received.status, StatusCode::NoContent);
    assert_eq!(
        received.headers,
        vec![
            ("Location".to_string(), format!("/v2/lib/hello/uploads/{}", UPLOAD)),
            ("Docker-Upload-UUID".to_string(), UPLOAD.to_string()),
            ("Range".to_string(), "0-5".to_string()),
            ("Content-Length".to_string(), "0".to_string()),
        ]
    );
}

#[test]
fn range_of_small_uploads() {
    for (completed, range) in [(0u64, "0-0"), (1, "0-0"), (2, "0-1"), (1000, "0-999")] {
        let response =
            UploadState { location: location(), completed: Some(completed), upload: upload() }
                .into_response();
        assert_eq!(header(&response, "Range"), Some(range));
    }
    let response =
        UploadState { location: location(), completed: Some(u64::MAX), upload: upload() }
            .into_response();
    assert_eq!(header(&response, "Range"), Some("0-18446744073709551614"));
}

#[test]
fn chunked_uploads_are_refused() {
    let registry = registry();
    assert_eq!(
        registry.upload_add_chunk(location(), upload(), true, Some(0)),
        Err(AppError::ChunkedUpload)
    );
    assert_eq!(
        registry.upload_add_chunk(location(), upload(), true, None),
        Err(AppError::ChunkedUpload)
    );
    assert_eq!(
        registry.upload_add_chunk(location(), upload(), false, Some(6)),
        Ok(UploadState { location: location(), completed: Some(6), upload: upload() })
    );
    let response = AppError::ChunkedUpload.into_response();
    assert_eq!(response.status.as_u16(), 500);
    assert_eq!(response.body, b"unsupported feature: chunked uploads");
}

#[test]
fn closing_request_must_be_empty() {
    let registry = registry();
    assert_eq!(registry.check_closing_length(Some("0")), Ok(()));
    assert_eq!(registry.check_closing_length(Some("000")), Ok(()));
    assert_eq!(registry.check_closing_length(None), Err(AppError::MissingContentLength));
    assert_eq!(registry.check_closing_length(Some("")), Err(AppError::InvalidContentLength));
    assert_eq!(registry.check_closing_length(Some("zero")), Err(AppError::InvalidContentLength));
    assert_eq!(registry.check_closing_length(Some("-0")), Err(AppError::InvalidContentLength));
    assert_eq!(registry.check_closing_length(Some("6")), Err(AppError::FinalChunk));
}

#[test]
fn closing_request_is_checked_before_the_upload_is_touched() {
    let finalized = registry().upload_finalize(
        upload(),
        None,
        Some(b"hello\n"),
        ImageDigest::from_str(HELLO).unwrap(),
        false,
    );
    assert_eq!(finalized.response, Err(AppError::MissingContentLength));
    assert!(finalized.ops.is_empty());
    let finalized = registry().upload_finalize(
        upload(),
        Some("6"),
        Some(b"hello\n"),
        ImageDigest::from_str(ZEROS).unwrap(),
        false,
    );
    assert_eq!(finalized.response, Err(AppError::FinalChunk));
    assert!(finalized.ops.is_empty());
    // the request is judged before the upload is looked for
    let finalized = registry().upload_finalize(
        upload(),
        None,
        None,
        ImageDigest::from_str(HELLO).unwrap(),
        false,
    );
    assert_eq!(finalized.response, Err(AppError::MissingContentLength));
}

#[test]
fn uploads_that_do_not_exist() {
    let registry = registry();
    assert_eq!(
        registry.upload_add_chunk(location(), upload(), false, None),
        Err(AppError::Storage(StorageError::NotFound))
    );
    let finalized = registry.upload_finalize(
        upload(),
        Some("0"),
        None,
        ImageDigest::from_str(HELLO).unwrap(),
        false,
    );
    assert_eq!(finalized.response, Err(AppError::Storage(StorageError::NotFound)));
    assert!(finalized.ops.is_empty());
    assert_eq!(AppError::Storage(StorageError::NotFound).into_response().status.as_u16(), 404);
}

#[test]
fn refused_routes() {
    assert_eq!(Route::BadRequest.refused(), Some(refuse(StatusCode::BadRequest)));
    assert_eq!(Route::MethodNotAllowed.refused(), Some(refuse(StatusCode::MethodNotAllowed)));
    assert_eq!(Route::MethodNotAllowed.refused().unwrap().status.as_u16(), 405);
    assert_eq!(Route::Index.refused(), None);
    assert_eq!(Route::Unmatched.refused(), None);
    assert_eq!(route(Method::Put, "/v2/lib/hello/manifests/prod", None).refused(), None);
}

#[test]
fn errors_and_their_status() {
    for (error, status, message) in [
        (AppError::ChunkedUpload, 500, "unsupported feature: chunked uploads"),
        (AppError::MissingContentLength, 400, "missing content length"),
        (AppError::InvalidContentLength, 400, "invalid content length"),
        (AppError::FinalChunk, 500, "unsupported feature: final chunk in the closing request"),
        (AppError::NoSuchManifest, 404, "no such manifest"),
        (AppError::MalformedManifest, 500, "malformed manifest"),
        (AppError::Storage(StorageError::NotFound), 404, "not found"),
        (AppError::Storage(StorageError::DigestMismatch), 500, "digest mismatch"),
        (AppError::Storage(StorageError::Io), 500, "input/output error"),
        (AppError::Storage(StorageError::Malformed), 500, "malformed"),
    ] {
        assert_eq!(error.status().as_u16(), status);
        assert_eq!(error.message(), message);
        let response = error.into_response();
        assert_eq!(response.status.as_u16(), status);
        assert_eq!(response.body, message.as_bytes());
        assert_eq!(header(&response, "Content-Length"), Some(message.len().to_string().as_str()));
        assert_eq!(header(&response, "Content-Type"), Some("text/plain; charset=utf-8"));
    }
}

#[test]
fn status_numbers() {
    for (status, code) in [
        (StatusCode::Okay, 200),
        (StatusCode::Created, 201),
        (StatusCode::Accepted, 202),
        (StatusCode::NoContent, 204),
        (StatusCode::BadRequest, 400),
        (StatusCode::Unauthorized, 401),
        (StatusCode::NotFound, 404),
        (StatusCode::MethodNotAllowed, 405),
        (StatusCode::InternalServerError, 500),
        (StatusCode::BadGateway, 502),
    ] {
        assert_eq!(status.as_u16(), code);
        let response = refuse(status);
        assert_eq!(response.status, status);
        assert_eq!(response.headers, vec![("Content-Length".to_string(), "0".to_string())]);
        assert!(response.body.is_empty());
    }
}

#[test]
fn first_header_of_a_name() {
    let headers = vec![
        ("Host".to_string(), "a".to_string()),
        ("X-Other".to_string(), "b".to_string()),
        ("host".to_string(), "c".to_string()),
    ];
    assert_eq!(header_value(&headers, "HOST"), Some("a"));
    assert_eq!(header_value(&headers, "x-other"), Some("b"));
    assert_eq!(header_value(&headers, "missing"), None);
    assert_eq!(header_value(&Vec::new(), "host"), None);
}

#[test]
fn blob_check_responses() {
    let registry = registry();
    let digest = ImageDigest::from_str(HELLO).unwrap();
    let found = registry.blob_check(&digest, Some(BlobMetadata::new(6)));
    assert_eq!(found.status, StatusCode::Okay);
    assert_eq!(
        found.headers,
        vec![
            ("Content-Length".to_string(), "6".to_string()),
            ("Docker-Content-Digest".to_string(), HELLO.to_string()),
            ("Content-Type".to_string(), "application/octet-stream".to_string()),
        ]
    );
    assert!(found.body.is_empty());
    let missing = registry.blob_check(&digest, None);
    assert_eq!(missing.status.as_u16(), 404);
    assert_eq!(missing, refuse(StatusCode::NotFound));
}

#[test]
fn blob_round_trip() {
    let registry = registry();
    let master = Secret::new("s3cret".to_string());
    let mut files: HashMap<String, Vec<u8>> = HashMap::new();

    // POST /v2/lib/hello/blobs/uploads/
    let location = match route(Method::Post, "/v2/lib/hello/blobs/uploads/", None) {
        Route::UploadNew { location } => location,
        other => panic!("{:?}", other),
    };
    registry.authenticate(&master, Some(b"Basic OnMzY3JldA==")).unwrap();
    let (id, op) = begin_new_upload();
    run(&mut files, &[op]);
    let response = registry.upload_new(location, id).into_response();
    assert_eq!(response.status.as_u16(), 202);
    let upload_url = header(&response, "Location").unwrap().to_string();
    assert_eq!(upload_url, format!("/v2/lib/hello/uploads/{}", id.to_string()));
    assert_eq!(header(&response, "Docker-Upload-UUID"), Some(id.to_string().as_str()));

    // PATCH <Location> with the body "hello\n"
    let (location, upload) = match route(Method::Patch, &upload_url, None) {
        Route::UploadAddChunk { location, upload } => (location, upload),
        other => panic!("{:?}", other),
    };
    assert_eq!(upload, id);
    let writer = get_writer(upload).path().unwrap();
    let before = files.get(&writer).map(|held| held.len() as u64);
    assert!(registry.upload_add_chunk(location.clone(), upload, false, before).is_ok());
    files.get_mut(&writer).unwrap().extend_from_slice(b"hello\n");
    let completed = files.get(&writer).map(|held| held.len() as u64);
    let response =
        registry.upload_add_chunk(location, upload, false, completed).unwrap().into_response();
    assert_eq!(response.status.as_u16(), 204);
    assert_eq!(header(&response, "Range"), Some("0-5"));

    // PUT <Location>?digest=sha256:5891... with Content-Length: 0
    let (upload, digest) = match route(Method::Put, &upload_url, Some(HELLO)) {
        Route::UploadFinalize { upload, digest, .. } => (upload, digest),
        other => panic!("{:?}", other),
    };
    let contents = files.get(&get_writer(upload).path().unwrap()).cloned();
    let exists = files.contains_key(&get_blob(digest.into_digest()).path().unwrap());
    let finalized =
        registry.upload_finalize(upload, Some("0"), contents.as_deref(), digest, exists);
    run(&mut files, &finalized.ops);
    let response = finalized.response.unwrap();
    assert_eq!(response.status.as_u16(), 201);
    assert_eq!(header(&response, "Docker-Content-Digest"), Some(HELLO));
    assert_eq!(header(&response, "Content-Length"), Some("0"));

    // HEAD /v2/lib/hello/blobs/sha256:5891...
    let digest = match route(Method::Head, &format!("/v2/lib/hello/blobs/{}", HELLO), None) {
        Route::BlobCheck { digest, .. } => digest,
        other => panic!("{:?}", other),
    };
    let size = files.get(&get_blob(digest.into_digest()).path().unwrap()).map(|b| b.len() as u64);
    let response = registry.blob_check(&digest, get_blob_metadata(size));
    assert_eq!(response.status.as_u16(), 200);
    assert_eq!(header(&response, "Content-Length"), Some("6"));
    assert_eq!(header(&response, "Docker-Content-Digest"), Some(HELLO));
    assert_eq!(files.len(), 1);
}

#[test]
fn digest_mismatch() {
    let registry = registry();
    let mut files: HashMap<String, Vec<u8>> = HashMap::new();
    let (id, op) = begin_new_upload();
    run(&mut files, &[op]);
    files.get_mut(&get_writer(id).path().unwrap()).unwrap().extend_from_slice(b"hello\n");

    let upload_url = mk_upload_location(&location(), id);
    let (upload, digest) = match route(Method::Put, &upload_url, Some(ZEROS)) {
        Route::UploadFinalize { upload, digest, .. } => (upload, digest),
        other => panic!("{:?}", other),
    };
    let contents = files.get(&get_writer(upload).path().unwrap()).cloned();
    let exists = files.contains_key(&get_blob(digest.into_digest()).path().unwrap());
    let finalized =
        registry.upload_finalize(upload, Some("0"), contents.as_deref(), digest, exists);
    run(&mut files, &finalized.ops);
    assert_eq!(finalized.response, Err(AppError::Storage(StorageError::DigestMismatch)));
    let response = AppError::Storage(StorageError::DigestMismatch).into_response();
    assert_eq!(response.status.as_u16(), 500);
    assert_eq!(response.body, b"digest mismatch");
    // the upload is purged and nothing was committed
    assert!(files.is_empty());

    let digest = match route(Method::Head, &format!("/v2/lib/hello/blobs/{}", ZEROS), None) {
        Route::BlobCheck { digest, .. } => digest,
        other => panic!("{:?}", other),
    };
    let size = files.get(&get_blob(digest.into_digest()).path().unwrap()).map(|b| b.len() as u64);
    let response = registry.blob_check(&digest, get_blob_metadata(size));
    assert_eq!(response.status.as_u16(), 404);
}

#[test]
fn manifest_and_tag() {
    let registry = registry();
    let mut files: HashMap<String, Vec<u8>> = HashMap::new();
    let body = manifest_of_200_bytes();
    assert_eq!(body.len(), 200);

    // PUT /v2/lib/hello/manifests/prod
    let reference = match route(Method::Put, "/v2/lib/hello/manifests/prod", None) {
        Route::ManifestPut { reference } => reference,
        other => panic!("{:?}", other),
    };
    let stored = registry.manifest_put(reference, &body).unwrap();
    run(&mut files, &stored.ops);
    assert_eq!(stored.response.status.as_u16(), 201);
    let written = ImageDigest::new(Digest::of(&body)).to_string();
    assert_eq!(stored.digest, Digest::of(&body));
    assert_eq!(header(&stored.response, "Docker-Content-Digest"), Some(written.as_str()));
    assert_eq!(
        header(&stored.response, "Location"),
        Some(format!("/v2/lib/hello/manifests/{}", written).as_str())
    );
    assert_eq!(header(&stored.response, "Content-Length"), Some("0"));
    assert_eq!(
        stored.uploaded,
        ManifestReference::new(location(), Reference::Tag("prod".to_string()))
    );

    // GET by tag and by digest
    for path in
        ["/v2/lib/hello/manifests/prod".to_string(), format!("/v2/lib/hello/manifests/{}", written)]
    {
        let reference = match route(Method::Get, &path, None) {
            Route::ManifestGet { reference } => reference,
            other => panic!("{:?}", other),
        };
        let pointer = tag_pointer(&reference).and_then(|key| files.get(&key.path().unwrap()));
        let found = get_manifest(&reference, pointer.map(|p| p.as_slice()));
        assert_eq!(found, Ok(StoreKey::Revision(location(), Digest::of(&body))));
        let bytes = found.map(|key| files.get(&key.path().unwrap()).cloned());
        let response = registry.manifest_get(bytes).unwrap();
        assert_eq!(response.status.as_u16(), 200);
        assert_eq!(response.body, body);
        assert_eq!(
            header(&response, "Content-Type"),
            Some("application/vnd.oci.image.manifest.v1+json")
        );
        assert_eq!(header(&response, "Content-Length"), Some("200"));
    }
}

#[test]
fn retagging_replaces_the_pointer() {
    let registry = registry();
    let mut files: HashMap<String, Vec<u8>> = HashMap::new();
    let reference = ManifestReference::new(location(), Reference::Tag("prod".to_string()));
    let first = b"{\"mediaType\":\"one\"}";
    let second = b"{\"mediaType\":\"two\"}";
    run(&mut files, &registry.manifest_put(reference.clone(), first).unwrap().ops);
    run(&mut files, &registry.manifest_put(reference.clone(), second).unwrap().ops);
    let pointer = files.get(&tag_pointer(&reference).unwrap().path().unwrap());
    let found = get_manifest(&reference, pointer.map(|p| p.as_slice())).unwrap();
    assert_eq!(files[&found.path().unwrap()], second);
    // the first revision is still there under its digest
    let by_digest = ManifestReference::new(location(), Reference::Digest(Digest::of(first)));
    let found = get_manifest(&by_digest, None).unwrap();
    assert_eq!(files[&found.path().unwrap()], first);
}

#[test]
fn manifest_is_still_found_by_digest_after_its_tag_moved() {
    let registry = registry();
    let mut files: HashMap<String, Vec<u8>> = HashMap::new();
    let first = manifest_of_200_bytes();
    let mut second = manifest_of_200_bytes();
    second.push(b' ');
    let prod = ManifestReference::new(location(), Reference::Tag("prod".to_string()));
    let stored = registry.manifest_put(prod.clone(), &first).unwrap();
    run(&mut files, &stored.ops);
    let written = header(&stored.response, "Docker-Content-Digest").unwrap().to_string();
    run(&mut files, &registry.manifest_put(prod.clone(), &second).unwrap().ops);

    let by_digest = match route(Method::Get, &format!("/v2/lib/hello/manifests/{}", written), None)
    {
        Route::ManifestGet { reference } => reference,
        other => panic!("{:?}", other),
    };
    let found = get_manifest(&by_digest, None).map(|key| files.get(&key.path().unwrap()).cloned());
    assert_eq!(registry.manifest_get(found).unwrap().body, first);
    let pointer = files.get(&tag_pointer(&prod).unwrap().path().unwrap());
    let found = get_manifest(&prod, pointer.map(|p| p.as_slice()))
        .map(|key| files.get(&key.path().unwrap()).cloned());
    assert_eq!(registry.manifest_get(found).unwrap().body, second);
}

#[test]
fn missing_and_malformed_manifests() {
    let registry = registry();
    assert_eq!(registry.manifest_get(Ok(None)), Err(AppError::NoSuchManifest));
    assert_eq!(
        registry.manifest_get(Err(StorageError::NotFound)),
        Err(AppError::NoSuchManifest)
    );
    assert_eq!(
        registry.manifest_get(Err(StorageError::Malformed)),
        Err(AppError::Storage(StorageError::Malformed))
    );
    assert_eq!(
        registry.manifest_get(Err(StorageError::Io)),
        Err(AppError::Storage(StorageError::Io))
    );
    // a tag that was never written
    let reference = ManifestReference::new(location(), Reference::Tag("never".to_string()));
    assert_eq!(
        registry.manifest_get(get_manifest(&reference, None).map(|_| None)),
        Err(AppError::NoSuchManifest)
    );
    let config = format!("\"config\":{{\"digest\":\"{}\"}}", HELLO);
    for document in [
        String::new(),
        "not json".to_string(),
        "[]".to_string(),
        "{}".to_string(),
        "{\"mediaType\":\"x\"}".to_string(),
        format!("{{\"mediaType\":7,{},\"layers\":[]}}", config),
        format!("{{\"mediatype\":\"x\",{},\"layers\":[]}}", config),
        format!("{{{},\"layers\":[]}}", config),
        format!("{{\"mediaType\":\"x\",{}}}", config),
        format!("{{\"mediaType\":\"x\",{},\"layers\":{{}}}}", config),
        "{\"mediaType\":\"x\",\"layers\":[]}".to_string(),
        "{\"mediaType\":\"x\",\"config\":{\"digest\":\"sha256:00\"},\"layers\":[]}".to_string(),
        format!("{{\"mediaType\":\"x\",{},\"layers\":[{{}}]}}", config),
        format!("{{\"mediaType\":\"x\",{},\"layers\":[{{\"digest\":\"nonsense\"}}]}}", config),
        format!("{{\"mediaType\":\"x\",{},\"layers\":[]}} trailing", config),
    ] {
        assert_eq!(
            registry.manifest_get(Ok(Some(document.clone().into_bytes()))),
            Err(AppError::MalformedManifest),
            "{}",
            document
        );
    }
}

#[test]
fn manifest_put_refuses_names_that_are_no_file_names() {
    let reference = ManifestReference::new(location(), Reference::Tag("..".to_string()));
    assert_eq!(
        registry().manifest_put(reference, b"{}").unwrap_err(),
        AppError::Storage(StorageError::Malformed)
    );
}

#[test]
fn what_is_read_of_a_manifest() {
    let layer_one = ImageDigest::new(Digest::of(b"one")).to_string();
    let layer_two = ImageDigest::new(Digest::of(b"two")).to_string();
    let document = format!(
        "{{\"schemaVersion\": 2, \"mediaType\": \"application/vnd.docker.distribution.manifest.v2+json\", \"config\": {{\"size\": 7, \"digest\": \"{}\"}}, \"layers\": [{{\"digest\": \"{}\"}}, {{\"size\": 1, \"digest\": \"{}\"}}]}}",
        HELLO, layer_one, layer_two
    );
    let manifest = ImageManifest::parse(document.as_bytes()).unwrap();
    assert_eq!(manifest.media_type(), "application/vnd.docker.distribution.manifest.v2+json");
    assert_eq!(manifest.config(), Digest::of(b"hello\n"));
    assert_eq!(manifest.layers(), &vec![Digest::of(b"one"), Digest::of(b"two")]);
}

#[test]
fn manifest_with_many_layers() {
    let mut layers = Vec::new();
    let mut written = Vec::new();
    for i in 0..12u8 {
        let digest = Digest::of(&[i]);
        written.push(format!("{{\"digest\":\"{}\"}}", ImageDigest::new(digest).to_string()));
        layers.push(digest);
    }
    let document = format!(
        "{{\"mediaType\":\"\",\"config\":{{\"digest\":\"{}\"}},\"layers\":[{}]}}",
        HELLO,
        written.join(",")
    );
    let manifest = ImageManifest::parse(document.as_bytes()).unwrap();
    assert_eq!(manifest.media_type(), "");
    assert_eq!(manifest.layers(), &layers);
}

#[test]
fn manifest_without_its_parts() {
    assert_eq!(ImageManifest::parse(b"{\"schemaVersion\": 2}"), None);
    assert_eq!(ImageManifest::parse(b"{\"mediaType\": \"x\"}"), None);
    assert_eq!(ImageManifest::parse(b""), None);
}
