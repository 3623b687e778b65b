use rockslide::digest::Digest;
use rockslide::location::{ImageLocation, ManifestReference, Reference};
use rockslide::storage::{
    begin_new_upload, finalize_upload, get_blob, get_blob_metadata, get_manifest, get_writer,
    put_manifest, tag_pointer, BlobMetadata, StorageError, StoreKey, StoreOp, UploadId,
};
use std::collections::HashMap;

fn lib_hello() -> ImageLocation {
    ImageLocation::new("lib".to_string(), "hello".to_string())
}

fn carry_out(files: &mut HashMap<String, Vec<u8>>, ops: &[StoreOp]) -> bool {
    for op in ops {
        match op {
            StoreOp::Create(key) => {
                let path = key.path().unwrap();
                if files.contains_key(&path) {
                    return false;
                }
                files.insert(path, Vec::new());
            }
            StoreOp::Write(key, contents) => {
                files.insert(key.path().unwrap(), contents.clone());
            }
            StoreOp::Rename(from, to) => {
                let contents = match files.remove(&from.path().unwrap()) {
                    Some(contents) => contents,
                    None => return false,
                };
                files.insert(to.path().unwrap(), contents);
            }
            StoreOp::Remove(key) => {
                files.remove(&key.path().unwrap());
            }
        }
    }
    true
}

fn every_blob_is_addressed(files: &HashMap<String, Vec<u8>>) -> bool {
    files.iter().all(|(path, contents)| match path.strip_prefix("blobs/") {
        Some(name) => Digest::of(contents).to_hex() == name,
        None => true,
    })
}

fn every_tag_resolves(files: &HashMap<String, Vec<u8>>) -> bool {
    files.iter().all(|(path, contents)| match path.find("/tags/") {
        Some(at) => {
            let revision =
                format!("{}/revisions/{}", &path[..at], String::from_utf8_lossy(contents));
            files.contains_key(&revision)
        }
        None => true,
    })
}

#[test]
fn upload_id_text() {
    let id = UploadId::from_bytes([
        0x55, 0x0e, 0x84, 0x00, 0xe2, 0x9b, 0x41, 0xd4, 0xa7, 0x16, 0x44, 0x66, 0x55, 0x44, 0x00,
        0x00,
    ]);
    assert_eq!(id.to_string(), "550e8400-e29b-41d4-a716-446655440000");
    assert_eq!(UploadId::parse("550e8400-e29b-41d4-a716-446655440000"), Some(id));
    assert_eq!(UploadId::parse("550E8400-E29B-41D4-A716-446655440000"), Some(id));
    assert_eq!(UploadId::parse("550e8400e29b41d4a716446655440000"), Some(id));
}

#[test]
fn upload_id_refused() {
    assert_eq!(UploadId::parse(""), None);
    assert_eq!(UploadId::parse("uploads"), None);
    assert_eq!(UploadId::parse("550e8400-e29b-41d4-a716-44665544000"), None);
    assert_eq!(UploadId::parse("550e8400-e29b-41d4-a716-44665544000g"), None);
}

#[test]
fn upload_id_round_trip() {
    for _ in 0..16 {
        let id = UploadId::fresh();
        assert_eq!(UploadId::parse(&id.to_string()), Some(id));
    }
}

#[test]
fn fresh_upload_ids_are_random_uuids() {
    for _ in 0..64 {
        let written = UploadId::fresh().to_string();
        assert_eq!(written.len(), 36);
        // the version
        assert_eq!(&written[14..15], "4");
        // the variant
        assert!(["8", "9", "a", "b"].contains(&&written[19..20]), "{}", written);
    }
    let (id, _) = begin_new_upload();
    assert_eq!(&id.to_string()[14..15], "4");
}

#[test]
fn fresh_upload_ids_differ() {
    let (first, _) = begin_new_upload();
    let (second, _) = begin_new_upload();
    assert_ne!(first, second);
}

#[test]
fn begin_creates_the_upload() {
    let (id, op) = begin_new_upload();
    assert_eq!(op, StoreOp::Create(StoreKey::Upload(id)));
    let mut files = HashMap::new();
    assert!(carry_out(&mut files, &[op]));
    assert_eq!(files.get(&format!("uploads/{}", id.to_string())), Some(&Vec::new()));
    // an id in use is not handed out twice
    assert!(!carry_out(&mut files, &[StoreOp::Create(StoreKey::Upload(id))]));
}

#[test]
fn store_paths() {
    let digest = Digest::of(b"hello\n");
    let hex = "5891b5b522d5df086d0ff0b110fbd9d21bb4fc7163af34d08286a2e846f6be03";
    let id = UploadId::from_bytes([0x11; 16]);
    assert_eq!(StoreKey::Blob(digest).path(), Some(format!("blobs/{}", hex)));
    assert_eq!(
        StoreKey::Upload(id).path(),
        Some("uploads/11111111-1111-1111-1111-111111111111".to_string())
    );
    assert_eq!(
        StoreKey::Revision(lib_hello(), digest).path(),
        Some(format!("manifests/lib/hello/revisions/{}", hex))
    );
    assert_eq!(
        StoreKey::Tag(lib_hello(), "prod".to_string()).path(),
        Some("manifests/lib/hello/tags/prod".to_string())
    );
    assert_eq!(
        StoreKey::Staging(lib_hello(), "prod".to_string()).path(),
        Some("manifests/lib/hello/staging/prod".to_string())
    );
    assert_eq!(get_writer(id), StoreKey::Upload(id));
    assert_eq!(get_blob(digest), StoreKey::Blob(digest));
}

#[test]
fn names_that_are_no_file_names_have_no_path() {
    let digest = Digest::of(b"x");
    let up = ImageLocation::new("..".to_string(), "hello".to_string());
    let nested = ImageLocation::new("lib".to_string(), "a/b".to_string());
    assert_eq!(StoreKey::Revision(up.clone(), digest).path(), None);
    assert_eq!(StoreKey::Tag(nested, "prod".to_string()).path(), None);
    assert_eq!(StoreKey::Tag(lib_hello(), "".to_string()).path(), None);
    assert_eq!(StoreKey::Tag(lib_hello(), "a/../b".to_string()).path(), None);
    assert_eq!(StoreKey::Staging(up, "prod".to_string()).path(), None);
}

#[test]
fn finalize_commits_matching_upload() {
    let id = UploadId::from_bytes([7; 16]);
    let expected = Digest::of(b"hello\n");
    let finalized = finalize_upload(id, b"hello\n", expected, false);
    assert_eq!(finalized.result, Ok(()));
    assert_eq!(
        finalized.ops,
        vec![StoreOp::Rename(StoreKey::Upload(id), StoreKey::Blob(expected))]
    );
}

#[test]
fn finalize_drops_duplicate() {
    let id = UploadId::from_bytes([7; 16]);
    let expected = Digest::of(b"hello\n");
    let finalized = finalize_upload(id, b"hello\n", expected, true);
    assert_eq!(finalized.result, Ok(()));
    assert_eq!(finalized.ops, vec![StoreOp::Remove(StoreKey::Upload(id))]);
}

#[test]
fn finalize_rejects_mismatch() {
    let id = UploadId::from_bytes([7; 16]);
    let claimed = Digest::new([0; 32]);
    for blob_exists in [false, true] {
        let finalized = finalize_upload(id, b"hello\n", claimed, blob_exists);
        assert_eq!(finalized.result, Err(StorageError::DigestMismatch));
        assert_eq!(finalized.ops, vec![StoreOp::Remove(StoreKey::Upload(id))]);
    }
}

#[test]
fn mismatch_leaves_no_blob() {
    let mut files = HashMap::new();
    let (id, op) = begin_new_upload();
    assert!(carry_out(&mut files, &[op]));
    files.get_mut(&get_writer(id).path().unwrap()).unwrap().extend_from_slice(b"hello\n");
    let claimed = Digest::new([0; 32]);
    let contents = files[&get_writer(id).path().unwrap()].clone();
    let exists = files.contains_key(&get_blob(claimed).path().unwrap());
    let finalized = finalize_upload(id, &contents, claimed, exists);
    assert_eq!(finalized.result, Err(StorageError::DigestMismatch));
    assert!(carry_out(&mut files, &finalized.ops));
    assert!(files.is_empty());
}

#[test]
fn committed_blobs_are_addressed_by_content() {
    let mut files = HashMap::new();
    for contents in [&b"hello\n"[..], b"", b"layer one", b"hello\n"] {
        let (id, op) = begin_new_upload();
        assert!(carry_out(&mut files, &[op]));
        let upload = get_writer(id).path().unwrap();
        files.get_mut(&upload).unwrap().extend_from_slice(contents);
        let expected = Digest::of(contents);
        let exists = files.contains_key(&get_blob(expected).path().unwrap());
        let stored = files[&upload].clone();
        let finalized = finalize_upload(id, &stored, expected, exists);
        assert_eq!(finalized.result, Ok(()));
        assert!(carry_out(&mut files, &finalized.ops));
        assert!(!files.contains_key(&upload));
        assert_eq!(files[&get_blob(expected).path().unwrap()], contents);
        assert!(every_blob_is_addressed(&files));
    }
    assert_eq!(files.len(), 3);
}

#[test]
fn blob_metadata() {
    assert_eq!(get_blob_metadata(None), None);
    assert_eq!(get_blob_metadata(Some(6)), Some(BlobMetadata::new(6)));
    assert_eq!(get_blob_metadata(Some(6)).unwrap().size(), 6);
}

#[test]
fn put_manifest_by_tag() {
    let reference = ManifestReference::new(lib_hello(), Reference::Tag("prod".to_string()));
    let bytes = b"{\"mediaType\":\"x\"}";
    let digest = Digest::of(bytes);
    let (stored, ops) = put_manifest(&reference, bytes).unwrap();
    assert_eq!(stored, digest);
    assert_eq!(
        ops,
        vec![
            StoreOp::Write(StoreKey::Revision(lib_hello(), digest), bytes.to_vec()),
            StoreOp::Write(StoreKey::Blob(digest), bytes.to_vec()),
            StoreOp::Write(
                StoreKey::Staging(lib_hello(), "prod".to_string()),
                digest.to_hex().into_bytes()
            ),
            StoreOp::Rename(
                StoreKey::Staging(lib_hello(), "prod".to_string()),
                StoreKey::Tag(lib_hello(), "prod".to_string())
            ),
        ]
    );
}

#[test]
fn put_manifest_by_digest() {
    let bytes = b"{}";
    let digest = Digest::of(bytes);
    let reference = ManifestReference::new(lib_hello(), Reference::Digest(digest));
    let (stored, ops) = put_manifest(&reference, bytes).unwrap();
    assert_eq!(stored, digest);
    assert_eq!(
        ops,
        vec![
            StoreOp::Write(StoreKey::Revision(lib_hello(), digest), bytes.to_vec()),
            StoreOp::Write(StoreKey::Blob(digest), bytes.to_vec()),
        ]
    );
}

#[test]
fn put_manifest_refuses_names_that_are_no_file_names() {
    let up = ImageLocation::new("..".to_string(), "hello".to_string());
    assert_eq!(
        put_manifest(&ManifestReference::new(up, Reference::Tag("prod".to_string())), b"{}"),
        Err(StorageError::Malformed)
    );
    assert_eq!(
        put_manifest(
            &ManifestReference::new(lib_hello(), Reference::Tag("a/b".to_string())),
            b"{}"
        ),
        Err(StorageError::Malformed)
    );
}

#[test]
fn tags_point_to_stored_revisions() {
    let mut files = HashMap::new();
    let prod = ManifestReference::new(lib_hello(), Reference::Tag("prod".to_string()));
    let dev = ManifestReference::new(lib_hello(), Reference::Tag("dev".to_string()));
    for (reference, bytes) in [(&prod, &b"one"[..]), (&dev, b"two"), (&prod, b"three")] {
        let (_, ops) = put_manifest(reference, bytes).unwrap();
        // the store is in order after each operation, not only after the last
        for op in ops {
            assert!(carry_out(&mut files, &[op]));
            assert!(every_tag_resolves(&files));
            assert!(every_blob_is_addressed(&files));
        }
    }
    assert_eq!(
        files["manifests/lib/hello/tags/prod"],
        Digest::of(b"three").to_hex().into_bytes()
    );
    assert_eq!(files["manifests/lib/hello/tags/dev"], Digest::of(b"two").to_hex().into_bytes());
    assert!(!files.keys().any(|path| path.contains("/staging/")));
}

#[test]
fn get_manifest_by_digest() {
    let digest = Digest::of(b"one");
    let reference = ManifestReference::new(lib_hello(), Reference::Digest(digest));
    assert_eq!(tag_pointer(&reference), None);
    assert_eq!(get_manifest(&reference, None), Ok(StoreKey::Revision(lib_hello(), digest)));
}

#[test]
fn get_manifest_by_tag() {
    let digest = Digest::of(b"one");
    let reference = ManifestReference::new(lib_hello(), Reference::Tag("prod".to_string()));
    assert_eq!(tag_pointer(&reference), Some(StoreKey::Tag(lib_hello(), "prod".to_string())));
    assert_eq!(
        get_manifest(&reference, Some(digest.to_hex().as_bytes())),
        Ok(StoreKey::Revision(lib_hello(), digest))
    );
}

#[test]
fn get_manifest_failures() {
    let reference = ManifestReference::new(lib_hello(), Reference::Tag("prod".to_string()));
    assert_eq!(get_manifest(&reference, None), Err(StorageError::NotFound));
    assert_eq!(get_manifest(&reference, Some(b"")), Err(StorageError::Malformed));
    assert_eq!(get_manifest(&reference, Some(b"not a digest")), Err(StorageError::Malformed));
    let upper = Digest::of(b"one").to_hex().to_uppercase();
    assert_eq!(get_manifest(&reference, Some(upper.as_bytes())), Err(StorageError::Malformed));
    let trailing = format!("{}\n", Digest::of(b"one").to_hex());
    assert_eq!(
        get_manifest(&reference, Some(trailing.as_bytes())),
        Err(StorageError::Malformed)
    );
}

#[test]
fn stored_manifest_is_found_again() {
    let mut files = HashMap::new();
    let reference = ManifestReference::new(lib_hello(), Reference::Tag("prod".to_string()));
    let (digest, ops) = put_manifest(&reference, b"manifest").unwrap();
    assert!(carry_out(&mut files, &ops));
    let pointer = files.get(&tag_pointer(&reference).unwrap().path().unwrap()).cloned();
    let by_tag = get_manifest(&reference, pointer.as_deref()).unwrap();
    assert_eq!(files[&by_tag.path().unwrap()], b"manifest");
    let by_digest =
        get_manifest(&ManifestReference::new(lib_hello(), Reference::Digest(digest)), None)
            .unwrap();
    assert_eq!(files[&by_digest.path().unwrap()], b"manifest");
}

#[test]
fn storage_error_messages() {
    assert_eq!(StorageError::NotFound.message(), "not found");
    assert_eq!(StorageError::DigestMismatch.message(), "digest mismatch");
    assert_eq!(StorageError::Io.message(), "input/output error");
    assert_eq!(StorageError::Malformed.message(), "malformed");
}
