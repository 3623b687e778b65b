//! Content-addressed storage of blobs and manifests.
//!
//! The store is a directory, but nothing here touches it. Each operation
//! is given what was found on disk and answers with the file operations
//! to carry out, in order. [`Files`] models what the directory holds, and
//! the lemmas of this module show that the operations keep it consistent.

use crate::digest::{
    all_lower_hex_digits, hex_decode, hex_encode, lemma_hex_round_trip, sha256, Digest,
};
use crate::location::{
    is_path_safe, path_safe, ImageLocation, LocationView, ManifestReference,
    ManifestReferenceView, Reference, ReferenceView,
};
use crate::text::{join, join_on, lacks, split, texts};
use uuid::Uuid;
use vstd::prelude::*;
use vstd::slice::slice_to_vec;
use vstd::utf8::encode_utf8;

verus! {

/// The sixteen bytes that `Uuid::parse_str` reads from `text`, if it
/// accepts the text.
pub uninterp spec fn parsed_uuid(text: Seq<char>) -> Option<Seq<u8>>;

/// The hyphenated form of a UUID: its bytes in lowercase hexadecimal, in
/// groups of 8, 4, 4, 4 and 12 digits.
pub open spec fn uuid_text(bytes: Seq<u8>) -> Seq<char> {
    let hex = hex_encode(bytes);
    hex.subrange(0, 8) + seq!['-'] + hex.subrange(8, 12) + seq!['-'] + hex.subrange(12, 16)
        + seq!['-'] + hex.subrange(16, 20) + seq!['-'] + hex.subrange(20, 32)
}

/// Whether `bytes` are those of a random UUID, as RFC 4122 lays it out:
/// sixteen bytes, of which the seventh begins with the version, 4, and
/// the ninth with the two bits of the variant, 1 and 0. The other 122 bits
/// are free.
pub open spec fn is_version_4(bytes: Seq<u8>) -> bool {
    &&& bytes.len() == 16
    &&& 0x40 <= bytes[6] <= 0x4f
    &&& 0x80 <= bytes[8] <= 0xbf
}

/// Sixteen bytes that make a random UUID.
///
/// Wraps `Uuid::new_v4`, which draws 128 random bits and then sets the
/// version to 4 and the variant to that of RFC 4122. So much holds of
/// every outcome; the other bits differ from call to call.
#[verifier::external_body]
fn random_uuid() -> (bytes: [u8; 16])
    ensures
        is_version_4(bytes@),
{
    Uuid::new_v4().into_bytes()
}

/// Reads a UUID.
///
/// Wraps `Uuid::parse_str`, which accepts the hyphenated form among
/// others. What it reads is a function of the text alone.
#[verifier::external_body]
fn parse_uuid(text: &str) -> (id: Option<[u8; 16]>)
    ensures
        match id {
            Some(bytes) => parsed_uuid(text@) == Some(bytes@),
            None => parsed_uuid(text@) is None,
        },
{
    match Uuid::parse_str(text) {
        Ok(uuid) => Some(uuid.into_bytes()),
        Err(_) => None,
    }
}

/// Writes a UUID in hyphenated form.
///
/// Wraps the `Display` of `Uuid`, which writes the sixteen bytes as
/// lowercase hexadecimal digits with hyphens after the 8th, 12th, 16th and
/// 20th digit.
#[verifier::external_body]
fn format_uuid(bytes: &[u8; 16]) -> (text: String)
    ensures
        text@ == uuid_text(bytes@),
{
    Uuid::from_bytes(*bytes).to_string()
}

/// The name of an upload in progress.
#[derive(Clone, Copy, Debug, PartialEq, Eq, Hash)]
pub struct UploadId {
    bytes: [u8; 16],
}

impl View for UploadId {
    type V = Seq<u8>;

    closed spec fn view(&self) -> Seq<u8> {
        self.bytes@
    }
}

impl UploadId {
    /// Every upload id is 16 bytes long.
    pub proof fn lemma_len(self)
        ensures
            self@.len() == 16,
    {
        broadcast use vstd::array::array_len_matches_n;

    }

    /// A new upload id: a random UUID, drawn anew at each call.
    pub fn fresh() -> (id: UploadId)
        ensures
            is_version_4(id@),
    {
        UploadId { bytes: random_uuid() }
    }

    /// The upload id with these bytes.
    pub fn from_bytes(bytes: [u8; 16]) -> (id: UploadId)
        ensures
            id@ == bytes@,
    {
        UploadId { bytes }
    }

    /// Reads an upload id as a UUID.
    pub fn parse(text: &str) -> (id: Option<UploadId>)
        ensures
            match id {
                Some(found) => parsed_uuid(text@) == Some(found@),
                None => parsed_uuid(text@) is None,
            },
    {
        match parse_uuid(text) {
            Some(bytes) => Some(UploadId { bytes }),
            None => None,
        }
    }

    /// The upload id as a hyphenated UUID.
    pub fn to_string(&self) -> (text: String)
        ensures
            text@ == uuid_text(self@),
    {
        format_uuid(&self.bytes)
    }
}

/// The name of a file in the store.
pub enum KeyView {
    /// A committed blob, by its digest.
    Blob(Seq<u8>),
    /// An upload in progress, by its id.
    Upload(Seq<u8>),
    /// The bytes of a manifest of a location, by their digest.
    Revision(LocationView, Seq<u8>),
    /// The pointer of a tag of a location to a manifest.
    Tag(LocationView, Seq<char>),
    /// A tag pointer that is being written and not yet in place.
    Staging(LocationView, Seq<char>),
}

/// What the store holds: the contents of each file.
pub type Files = Map<KeyView, Seq<u8>>;

/// What a tag's pointer file holds when the tag points to `digest`: the
/// digest in hexadecimal.
pub open spec fn pointer_bytes(digest: Seq<u8>) -> Seq<u8> {
    encode_utf8(hex_encode(digest))
}

/// The digest that a pointer file with these contents points to.
pub open spec fn read_pointer(contents: Seq<u8>) -> Option<Seq<u8>> {
    if contents.len() == 64 && all_lower_hex_digits(contents) {
        Some(hex_decode(contents))
    } else {
        None
    }
}

/// Whether a pointer file with these contents points to `digest`, and the
/// revision `digest` is stored at `location`.
pub open spec fn points_to(files: Files, location: LocationView, contents: Seq<u8>, digest: Seq<u8>) -> bool {
    contents == pointer_bytes(digest) && files.contains_key(KeyView::Revision(location, digest))
}

/// Whether a pointer file with these contents points to a revision that
/// is stored at `location`.
pub open spec fn is_pointer(files: Files, location: LocationView, contents: Seq<u8>) -> bool {
    exists|digest: Seq<u8>| points_to(files, location, contents, digest)
}

/// Whether the file `key` is as it should be: a blob or a revision hashes
/// to the digest it is stored under, and a tag points to a revision that
/// is stored at the same location.
pub open spec fn entry_ok(files: Files, key: KeyView) -> bool {
    match key {
        KeyView::Blob(digest) => sha256(files[key]) == digest,
        KeyView::Revision(location, digest) => sha256(files[key]) == digest,
        KeyView::Tag(location, tag) => is_pointer(files, location, files[key]),
        KeyView::Upload(_) => true,
        KeyView::Staging(_, _) => true,
    }
}

/// Whether every file of the store is as it should be.
pub open spec fn consistent(files: Files) -> bool {
    forall|key: KeyView| files.contains_key(key) ==> #[trigger] entry_ok(files, key)
}

/// A file operation.
pub enum OpView {
    /// Create the file, empty. Fails, and changes nothing, if it exists.
    Create(KeyView),
    /// Append to the file. Fails, and changes nothing, if it does not exist.
    Append(KeyView, Seq<u8>),
    /// Write the file, replacing what was there.
    Write(KeyView, Seq<u8>),
    /// Move the first file to the place of the second, replacing what was
    /// there. Fails, and changes nothing, if the first does not exist.
    Rename(KeyView, KeyView),
    /// Delete the file, if it exists.
    Remove(KeyView),
}

/// The store after `op`.
pub open spec fn apply(files: Files, op: OpView) -> Files {
    match op {
        OpView::Create(key) => if files.contains_key(key) {
            files
        } else {
            files.insert(key, Seq::empty())
        },
        OpView::Append(key, data) => if files.contains_key(key) {
            files.insert(key, files[key] + data)
        } else {
            files
        },
        OpView::Write(key, contents) => files.insert(key, contents),
        OpView::Rename(from, to) => if files.contains_key(from) {
            files.remove(from).insert(to, files[from])
        } else {
            files
        },
        OpView::Remove(key) => files.remove(key),
    }
}

/// The store after all of `ops`, in order.
pub open spec fn apply_all(files: Files, ops: Seq<OpView>) -> Files
    decreases ops.len(),
{
    if ops.len() == 0 {
        files
    } else {
        apply(apply_all(files, ops.drop_last()), ops.last())
    }
}

/// The name of a file in the store.
#[derive(Debug, PartialEq, Eq)]
pub enum StoreKey {
    /// A committed blob, by its digest.
    Blob(Digest),
    /// An upload in progress, by its id.
    Upload(UploadId),
    /// The bytes of a manifest of a location, by their digest.
    Revision(ImageLocation, Digest),
    /// The pointer of a tag of a location to a manifest.
    Tag(ImageLocation, String),
    /// A tag pointer that is being written and not yet in place.
    Staging(ImageLocation, String),
}

impl View for StoreKey {
    type V = KeyView;

    open spec fn view(&self) -> KeyView {
        match self {
            StoreKey::Blob(digest) => KeyView::Blob(digest@),
            StoreKey::Upload(id) => KeyView::Upload(id@),
            StoreKey::Revision(location, digest) => KeyView::Revision(location@, digest@),
            StoreKey::Tag(location, tag) => KeyView::Tag(location@, tag@),
            StoreKey::Staging(location, tag) => KeyView::Staging(location@, tag@),
        }
    }
}

/// A file operation to carry out.
#[derive(Debug, PartialEq, Eq)]
pub enum StoreOp {
    /// Create the file, empty; fail if it exists.
    Create(StoreKey),
    /// Write the file, replacing what was there.
    Write(StoreKey, Vec<u8>),
    /// Move the first file to the place of the second, replacing what was
    /// there.
    Rename(StoreKey, StoreKey),
    /// Delete the file, if it exists.
    Remove(StoreKey),
}

impl View for StoreOp {
    type V = OpView;

    open spec fn view(&self) -> OpView {
        match self {
            StoreOp::Create(key) => OpView::Create(key@),
            StoreOp::Write(key, contents) => OpView::Write(key@, contents@),
            StoreOp::Rename(from, to) => OpView::Rename(from@, to@),
            StoreOp::Remove(key) => OpView::Remove(key@),
        }
    }
}

/// What a list of operations says.
pub open spec fn ops_view(ops: Seq<StoreOp>) -> Seq<OpView> {
    Seq::new(ops.len(), |i: int| ops[i]@)
}

/// Why a storage operation failed.
#[derive(Clone, Copy, Debug, PartialEq, Eq, Structural)]
pub enum StorageError {
    /// There is no such blob, upload or manifest.
    NotFound,
    /// The uploaded bytes do not hash to the digest that the client named.
    DigestMismatch,
    /// The file system failed.
    Io,
    /// A name cannot be stored, or stored data cannot be read.
    Malformed,
}

impl StorageError {
    /// A short description of the error.
    pub fn message(&self) -> (text: &'static str)
        ensures
            text@ == match *self {
                StorageError::NotFound => "not found"@,
                StorageError::DigestMismatch => "digest mismatch"@,
                StorageError::Io => "input/output error"@,
                StorageError::Malformed => "malformed"@,
            },
    {
        match self {
            StorageError::NotFound => "not found",
            StorageError::DigestMismatch => "digest mismatch",
            StorageError::Io => "input/output error",
            StorageError::Malformed => "malformed",
        }
    }
}

/// What is known of a committed blob.
#[derive(Clone, Copy, Debug, PartialEq, Eq, Structural)]
pub struct BlobMetadata {
    size: u64,
}

impl BlobMetadata {
    /// Metadata of a blob of `size` bytes.
    pub fn new(size: u64) -> (metadata: BlobMetadata)
        ensures
            metadata.size_bytes() == size,
    {
        BlobMetadata { size }
    }

    /// The size of the blob in bytes.
    pub closed spec fn size_bytes(&self) -> u64 {
        self.size
    }

    /// The size of the blob in bytes.
    pub fn size(&self) -> (size: u64)
        ensures
            size == self.size_bytes(),
    {
        self.size
    }
}

/// Begins an upload under a new, random id. The operation creates the
/// upload's file and fails if the id is in use.
pub fn begin_new_upload() -> (begun: (UploadId, StoreOp))
    ensures
        is_version_4(begun.0@),
        begun.1@ == OpView::Create(KeyView::Upload(begun.0@)),
{
    let id = UploadId::fresh();
    (id, StoreOp::Create(StoreKey::Upload(id)))
}

/// The file to which the bytes of `upload` are appended.
pub fn get_writer(upload: UploadId) -> (key: StoreKey)
    ensures
        key@ == KeyView::Upload(upload@),
{
    StoreKey::Upload(upload)
}

/// The file that holds the blob `digest`.
pub fn get_blob(digest: Digest) -> (key: StoreKey)
    ensures
        key@ == KeyView::Blob(digest@),
{
    StoreKey::Blob(digest)
}

/// The operations that end an upload: where the contents hash to the
/// expected digest, the upload becomes the blob, or is dropped if the blob
/// is there already; where they do not, the upload is dropped.
pub open spec fn finalize_ops(upload: Seq<u8>, expected: Seq<u8>, matches: bool, blob_exists: bool) -> Seq<
    OpView,
> {
    if matches && !blob_exists {
        seq![OpView::Rename(KeyView::Upload(upload), KeyView::Blob(expected))]
    } else {
        seq![OpView::Remove(KeyView::Upload(upload))]
    }
}

/// How an upload ends.
#[derive(Debug, PartialEq, Eq)]
pub struct Finalized {
    /// The file operations to carry out.
    pub ops: Vec<StoreOp>,
    /// Whether the upload was accepted.
    pub result: Result<(), StorageError>,
}

/// Ends `upload`, whose file holds `contents`, for a client that expects
/// them to hash to `expected`. `blob_exists` tells whether that blob is
/// already stored.
pub fn finalize_upload(upload: UploadId, contents: &[u8], expected: Digest, blob_exists: bool) -> (finalized:
    Finalized)
    ensures
        ops_view(finalized.ops@) == finalize_ops(
            upload@,
            expected@,
            sha256(contents@) == expected@,
            blob_exists,
        ),
        finalized.result == if sha256(contents@) == expected@ {
            Ok::<(), StorageError>(())
        } else {
            Err::<(), StorageError>(StorageError::DigestMismatch)
        },
{
    let computed = Digest::of(contents);
    let mut ops: Vec<StoreOp> = Vec::new();
    if computed.same_as(&expected) {
        if blob_exists {
            ops.push(StoreOp::Remove(StoreKey::Upload(upload)));
        } else {
            ops.push(StoreOp::Rename(StoreKey::Upload(upload), StoreKey::Blob(expected)));
        }
        assert(ops_view(ops@) =~= finalize_ops(upload@, expected@, true, blob_exists));
        Finalized { ops, result: Ok(()) }
    } else {
        ops.push(StoreOp::Remove(StoreKey::Upload(upload)));
        assert(ops_view(ops@) =~= finalize_ops(upload@, expected@, false, blob_exists));
        Finalized { ops, result: Err(StorageError::DigestMismatch) }
    }
}

/// What is known of a blob whose file was found to have `size` bytes, or
/// not found.
pub fn get_blob_metadata(size: Option<u64>) -> (metadata: Option<BlobMetadata>)
    ensures
        match size {
            Some(bytes) => metadata matches Some(found) && found.size_bytes() == bytes,
            None => metadata is None,
        },
{
    match size {
        Some(bytes) => Some(BlobMetadata::new(bytes)),
        None => None,
    }
}

/// Whether a manifest can be stored under `reference`: the parts of its
/// location, and its tag if it has one, must do as file names.
pub open spec fn can_store(reference: ManifestReferenceView) -> bool {
    &&& reference.location.is_path_safe()
    &&& match reference.reference {
        ReferenceView::Tag(tag) => is_path_safe(tag),
        ReferenceView::Digest(_) => true,
    }
}

/// The operations that store the manifest `bytes` under `reference`: the
/// revision and the blob are written first; then, for a tag, the pointer
/// is written aside and moved into place.
pub open spec fn put_manifest_ops(reference: ManifestReferenceView, bytes: Seq<u8>) -> Seq<OpView> {
    let digest = sha256(bytes);
    let stored = seq![
        OpView::Write(KeyView::Revision(reference.location, digest), bytes),
        OpView::Write(KeyView::Blob(digest), bytes),
    ];
    match reference.reference {
        ReferenceView::Tag(tag) => stored + seq![
            OpView::Write(KeyView::Staging(reference.location, tag), pointer_bytes(digest)),
            OpView::Rename(
                KeyView::Staging(reference.location, tag),
                KeyView::Tag(reference.location, tag),
            ),
        ],
        ReferenceView::Digest(_) => stored,
    }
}

/// Stores the manifest `bytes` under `manifest_reference` and returns its
/// digest with the file operations to carry out. A name that cannot be
/// stored is refused as malformed.
pub fn put_manifest(manifest_reference: &ManifestReference, bytes: &[u8]) -> (stored: Result<
    (Digest, Vec<StoreOp>),
    StorageError,
>)
    ensures
        match stored {
            Ok((digest, ops)) => {
                &&& can_store(manifest_reference@)
                &&& digest@ == sha256(bytes@)
                &&& ops_view(ops@) == put_manifest_ops(manifest_reference@, bytes@)
            },
            Err(e) => !can_store(manifest_reference@) && e == StorageError::Malformed,
        },
{
    let location = manifest_reference.location();
    if !location.is_path_safe() {
        return Err(StorageError::Malformed);
    }
    let digest = Digest::of(bytes);
    let mut ops: Vec<StoreOp> = Vec::new();
    match manifest_reference.reference() {
        Reference::Tag(tag) => {
            if !path_safe(tag.as_str()) {
                return Err(StorageError::Malformed);
            }
            ops.push(StoreOp::Write(StoreKey::Revision(location.clone(), digest), slice_to_vec(bytes)));
            ops.push(StoreOp::Write(StoreKey::Blob(digest), slice_to_vec(bytes)));
            let pointer = digest.to_hex();
            ops.push(
                StoreOp::Write(
                    StoreKey::Staging(location.clone(), tag.clone()),
                    slice_to_vec(pointer.as_str().as_bytes()),
                ),
            );
            ops.push(
                StoreOp::Rename(
                    StoreKey::Staging(location.clone(), tag.clone()),
                    StoreKey::Tag(location.clone(), tag.clone()),
                ),
            );
            assert(ops_view(ops@) =~= put_manifest_ops(manifest_reference@, bytes@));
        },
        Reference::Digest(_) => {
            ops.push(StoreOp::Write(StoreKey::Revision(location.clone(), digest), slice_to_vec(bytes)));
            ops.push(StoreOp::Write(StoreKey::Blob(digest), slice_to_vec(bytes)));
            assert(ops_view(ops@) =~= put_manifest_ops(manifest_reference@, bytes@));
        },
    }
    Ok((digest, ops))
}

/// The file in which a tag's pointer is kept, or `None` for a reference
/// by digest, which needs no pointer.
pub fn tag_pointer(manifest_reference: &ManifestReference) -> (key: Option<StoreKey>)
    ensures
        match manifest_reference@.reference {
            ReferenceView::Tag(tag) => key matches Some(found) && found@ == KeyView::Tag(
                manifest_reference@.location,
                tag,
            ),
            ReferenceView::Digest(_) => key is None,
        },
{
    match manifest_reference.reference() {
        Reference::Tag(tag) => Some(
            StoreKey::Tag(manifest_reference.location().clone(), tag.clone()),
        ),
        Reference::Digest(_) => None,
    }
}

/// The revision that `reference` leads to: for a digest that revision, for
/// a tag the one its pointer names. `pointer` holds the contents of the
/// tag's pointer file, or `None` where there is no such file.
pub open spec fn resolve(reference: ManifestReferenceView, pointer: Option<Seq<u8>>) -> Result<
    KeyView,
    StorageError,
> {
    match reference.reference {
        ReferenceView::Digest(digest) => Ok(KeyView::Revision(reference.location, digest)),
        ReferenceView::Tag(_) => match pointer {
            None => Err(StorageError::NotFound),
            Some(contents) => match read_pointer(contents) {
                Some(digest) => Ok(KeyView::Revision(reference.location, digest)),
                None => Err(StorageError::Malformed),
            },
        },
    }
}

/// What finding a key gave, with the key replaced by what it says.
pub open spec fn found_key(found: Result<StoreKey, StorageError>) -> Result<KeyView, StorageError> {
    match found {
        Ok(key) => Ok(key@),
        Err(e) => Err(e),
    }
}

/// Finds the file that holds the manifest `manifest_reference`. For a
/// tag, `pointer` holds what the tag's pointer file was found to hold.
pub fn get_manifest(manifest_reference: &ManifestReference, pointer: Option<&[u8]>) -> (found:
    Result<StoreKey, StorageError>)
    ensures
        found_key(found) == resolve(
            manifest_reference@,
            match pointer {
                Some(contents) => Some(contents@),
                None => None,
            },
        ),
{
    match manifest_reference.reference() {
        Reference::Digest(digest) => Ok(
            StoreKey::Revision(manifest_reference.location().clone(), *digest),
        ),
        Reference::Tag(_) => match pointer {
            None => Err(StorageError::NotFound),
            Some(contents) => match Digest::from_hex(contents) {
                Some(digest) => Ok(
                    StoreKey::Revision(manifest_reference.location().clone(), digest),
                ),
                None => Err(StorageError::Malformed),
            },
        },
    }
}

/// The bytes of the blob stored under `digest`, if there is one.
pub open spec fn blob(files: Files, digest: Seq<u8>) -> Option<Seq<u8>> {
    if files.contains_key(KeyView::Blob(digest)) {
        Some(files[KeyView::Blob(digest)])
    } else {
        None
    }
}

/// Whether `key` names a file on which nothing else depends: an upload
/// in progress or a pointer being written.
pub open spec fn is_scratch(key: KeyView) -> bool {
    key is Upload || key is Staging
}

/// Whether `contents` may be put in the place of `key` in `files`.
pub open spec fn fits(files: Files, key: KeyView, contents: Seq<u8>) -> bool {
    match key {
        KeyView::Blob(digest) => sha256(contents) == digest,
        KeyView::Revision(location, digest) => sha256(contents) == digest,
        KeyView::Tag(location, tag) => is_pointer(files, location, contents),
        KeyView::Upload(_) => true,
        KeyView::Staging(_, _) => true,
    }
}

/// Whether `op` is safe in `files`: it creates, extends, moves away or
/// deletes scratch files only, and what it writes or moves into a place
/// fits there.
pub open spec fn safe(files: Files, op: OpView) -> bool {
    match op {
        OpView::Create(key) => is_scratch(key),
        OpView::Append(key, _) => is_scratch(key),
        OpView::Write(key, contents) => fits(files, key, contents),
        OpView::Rename(from, to) => is_scratch(from) && (files.contains_key(from) ==> fits(
            files,
            to,
            files[from],
        )),
        OpView::Remove(key) => is_scratch(key),
    }
}

/// A safe operation keeps the store consistent.
pub proof fn lemma_safe_op_keeps_consistency(files: Files, op: OpView)
    requires
        consistent(files),
        safe(files, op),
    ensures
        consistent(apply(files, op)),
{
    let after = apply(files, op);
    assert forall|key: KeyView| after.contains_key(key) implies #[trigger] entry_ok(after, key) by {
        if files.contains_key(key) {
            assert(entry_ok(files, key));
        }
        match key {
            KeyView::Tag(location, tag) => {
                if files.contains_key(key) && after[key] == files[key] {
                    let digest = choose|digest: Seq<u8>|
                        points_to(files, location, files[key], digest);
                    assert(points_to(after, location, after[key], digest));
                } else {
                    let digest = choose|digest: Seq<u8>|
                        points_to(files, location, after[key], digest);
                    assert(points_to(after, location, after[key], digest));
                }
            },
            _ => {},
        }
    }
}

/// In a consistent store every blob is stored under the hash of its
/// bytes.
pub proof fn lemma_blobs_are_content_addressed(files: Files, digest: Seq<u8>)
    requires
        consistent(files),
        files.contains_key(KeyView::Blob(digest)),
    ensures
        sha256(files[KeyView::Blob(digest)]) == digest,
{
    assert(entry_ok(files, KeyView::Blob(digest)));
}

/// In a consistent store every tag points to a manifest that is stored at
/// the same location, under the hash of its bytes.
pub proof fn lemma_tags_resolve(files: Files, location: LocationView, tag: Seq<char>)
    requires
        consistent(files),
        files.contains_key(KeyView::Tag(location, tag)),
    ensures
        exists|digest: Seq<u8>|
            points_to(files, location, files[KeyView::Tag(location, tag)], digest) && sha256(
                files[KeyView::Revision(location, digest)],
            ) == digest,
{
    assert(entry_ok(files, KeyView::Tag(location, tag)));
    let digest = choose|digest: Seq<u8>|
        points_to(files, location, files[KeyView::Tag(location, tag)], digest);
    assert(entry_ok(files, KeyView::Revision(location, digest)));
}

/// A pointer file reads back as the digest it was written for.
pub proof fn lemma_pointer_round_trip(digest: Seq<u8>)
    requires
        digest.len() == 32,
    ensures
        read_pointer(pointer_bytes(digest)) == Some(digest),
{
    lemma_hex_round_trip(digest);
}

/// Beginning an upload and appending to it keep the store consistent,
/// and an upload never gets shorter.
pub proof fn lemma_uploading_keeps_consistency(files: Files, upload: Seq<u8>, data: Seq<u8>)
    requires
        consistent(files),
    ensures
        consistent(apply(files, OpView::Create(KeyView::Upload(upload)))),
        consistent(apply(files, OpView::Append(KeyView::Upload(upload), data))),
        files.contains_key(KeyView::Upload(upload)) ==> apply(
            files,
            OpView::Append(KeyView::Upload(upload), data),
        )[KeyView::Upload(upload)].len() == files[KeyView::Upload(upload)].len() + data.len(),
{
    lemma_safe_op_keeps_consistency(files, OpView::Create(KeyView::Upload(upload)));
    lemma_safe_op_keeps_consistency(files, OpView::Append(KeyView::Upload(upload), data));
}

/// Uploads that are open at the same time have different ids: when an
/// upload has been begun under `first`, beginning another under `second`
/// succeeds only if the two differ.
pub proof fn lemma_open_uploads_differ(files: Files, first: Seq<u8>, second: Seq<u8>)
    requires
        !apply(files, OpView::Create(KeyView::Upload(first))).contains_key(
            KeyView::Upload(second),
        ),
    ensures
        first != second,
{
}

/// Ending an upload keeps the store consistent and removes the upload.
/// Where the contents hash to the expected digest, the blob is stored
/// under it afterwards. Where they do not, no blob is added, changed or
/// removed: in particular none appears under the expected digest.
pub proof fn lemma_finalize_upload(files: Files, upload: Seq<u8>, expected: Seq<u8>)
    requires
        consistent(files),
        files.contains_key(KeyView::Upload(upload)),
    ensures
        ({
            let matches = sha256(files[KeyView::Upload(upload)]) == expected;
            let after = apply_all(
                files,
                finalize_ops(
                    upload,
                    expected,
                    matches,
                    files.contains_key(KeyView::Blob(expected)),
                ),
            );
            &&& consistent(after)
            &&& !after.contains_key(KeyView::Upload(upload))
            &&& matches ==> after.contains_key(KeyView::Blob(expected)) && sha256(
                after[KeyView::Blob(expected)],
            ) == expected
            &&& !matches ==> forall|digest: Seq<u8>| #[trigger]
                blob(after, digest) == blob(files, digest)
        }),
{
    let matches = sha256(files[KeyView::Upload(upload)]) == expected;
    let blob_exists = files.contains_key(KeyView::Blob(expected));
    let ops = finalize_ops(upload, expected, matches, blob_exists);
    assert(ops.drop_last() =~= Seq::<OpView>::empty());
    assert(apply_all(files, ops.drop_last()) == files);
    let after = apply(files, ops.last());
    assert(apply_all(files, ops) == after);
    lemma_safe_op_keeps_consistency(files, ops.last());
    if blob_exists {
        lemma_blobs_are_content_addressed(files, expected);
    }
}

/// The pointer to a stored revision fits in the place of a tag.
proof fn lemma_pointer_fits(files: Files, location: LocationView, tag: Seq<char>, digest: Seq<u8>)
    requires
        files.contains_key(KeyView::Revision(location, digest)),
    ensures
        fits(files, KeyView::Tag(location, tag), pointer_bytes(digest)),
{
    assert(points_to(files, location, pointer_bytes(digest), digest));
}

/// Storing a manifest keeps the store consistent after each of its
/// operations, so also if it is interrupted between two of them. When all
/// are done, the manifest is stored at its location and as a blob under
/// the hash of its bytes, and a tag it was stored under points to it.
pub proof fn lemma_put_manifest(files: Files, reference: ManifestReferenceView, bytes: Seq<u8>)
    requires
        consistent(files),
    ensures
        forall|n: int|
            0 <= n <= put_manifest_ops(reference, bytes).len() ==> consistent(
                #[trigger] apply_all(files, put_manifest_ops(reference, bytes).take(n)),
            ),
        ({
            let after = apply_all(files, put_manifest_ops(reference, bytes));
            let digest = sha256(bytes);
            &&& after.contains_key(KeyView::Revision(reference.location, digest))
            &&& after[KeyView::Revision(reference.location, digest)] == bytes
            &&& after.contains_key(KeyView::Blob(digest))
            &&& after[KeyView::Blob(digest)] == bytes
            &&& reference.reference matches ReferenceView::Tag(tag) ==> {
                &&& after.contains_key(KeyView::Tag(reference.location, tag))
                &&& after[KeyView::Tag(reference.location, tag)] == pointer_bytes(digest)
            }
        }),
{
    let ops = put_manifest_ops(reference, bytes);
    let digest = sha256(bytes);
    let f0 = files;
    assert(ops.take(0) =~= Seq::<OpView>::empty());
    assert(apply_all(files, ops.take(0)) == f0);
    let f1 = apply(f0, ops[0]);
    lemma_safe_op_keeps_consistency(f0, ops[0]);
    assert(ops.take(1).drop_last() =~= ops.take(0));
    assert(apply_all(files, ops.take(1)) == f1);
    let f2 = apply(f1, ops[1]);
    lemma_safe_op_keeps_consistency(f1, ops[1]);
    assert(ops.take(2).drop_last() =~= ops.take(1));
    assert(apply_all(files, ops.take(2)) == f2);
    match reference.reference {
        ReferenceView::Tag(tag) => {
            let f3 = apply(f2, ops[2]);
            lemma_safe_op_keeps_consistency(f2, ops[2]);
            assert(ops.take(3).drop_last() =~= ops.take(2));
            assert(apply_all(files, ops.take(3)) == f3);
            let f4 = apply(f3, ops[3]);
            let revision = KeyView::Revision(reference.location, digest);
            let staging = KeyView::Staging(reference.location, tag);
            assert(ops[0] == OpView::Write(revision, bytes));
            assert(ops[2] == OpView::Write(staging, pointer_bytes(digest)));
            assert(ops[3] == OpView::Rename(staging, KeyView::Tag(reference.location, tag)));
            assert(f1.contains_key(revision));
            assert(f2.contains_key(revision));
            assert(f3.contains_key(revision));
            assert(f3[staging] == pointer_bytes(digest));
            lemma_pointer_fits(f3, reference.location, tag, digest);
            lemma_safe_op_keeps_consistency(f3, ops[3]);
            assert(ops.take(4).drop_last() =~= ops.take(3));
            assert(apply_all(files, ops.take(4)) == f4);
            assert(ops.take(4) =~= ops);
            assert forall|n: int| 0 <= n <= ops.len() implies consistent(
                #[trigger] apply_all(files, ops.take(n)),
            ) by {
                assert(n == 0 || n == 1 || n == 2 || n == 3 || n == 4);
            }
        },
        ReferenceView::Digest(_) => {
            assert(ops.take(2) =~= ops);
            assert forall|n: int| 0 <= n <= ops.len() implies consistent(
                #[trigger] apply_all(files, ops.take(n)),
            ) by {
                assert(n == 0 || n == 1 || n == 2);
            }
        },
    }
}

/// Something that happens to the store.
pub enum StepView {
    /// An upload is begun under this id.
    Begin(Seq<u8>),
    /// These bytes are appended to the upload of this id.
    Append(Seq<u8>, Seq<u8>),
    /// The upload of this id is ended, expecting this digest.
    Finalize(Seq<u8>, Seq<u8>),
    /// These bytes are stored as a manifest under this reference.
    PutManifest(ManifestReferenceView, Seq<u8>),
}

/// The file operations by which `step` is carried out on `files`.
pub open spec fn step_ops(files: Files, step: StepView) -> Seq<OpView> {
    match step {
        StepView::Begin(upload) => seq![OpView::Create(KeyView::Upload(upload))],
        StepView::Append(upload, data) => seq![OpView::Append(KeyView::Upload(upload), data)],
        StepView::Finalize(upload, expected) => if files.contains_key(KeyView::Upload(upload)) {
            finalize_ops(
                upload,
                expected,
                sha256(files[KeyView::Upload(upload)]) == expected,
                files.contains_key(KeyView::Blob(expected)),
            )
        } else {
            Seq::empty()
        },
        StepView::PutManifest(reference, bytes) => put_manifest_ops(reference, bytes),
    }
}

/// The store after `steps`, in order.
pub open spec fn after_steps(files: Files, steps: Seq<StepView>) -> Files
    decreases steps.len(),
{
    if steps.len() == 0 {
        files
    } else {
        let before = after_steps(files, steps.drop_last());
        apply_all(before, step_ops(before, steps.last()))
    }
}

/// Whatever is uploaded, ended and stored, in whatever order, the store
/// that was empty at first is consistent afterwards: every blob hashes
/// to its digest and every tag points to a stored manifest.
pub proof fn lemma_store_stays_consistent(steps: Seq<StepView>)
    ensures
        consistent(after_steps(Map::empty(), steps)),
    decreases steps.len(),
{
    if steps.len() > 0 {
        lemma_store_stays_consistent(steps.drop_last());
        let before = after_steps(Map::empty(), steps.drop_last());
        let ops = step_ops(before, steps.last());
        match steps.last() {
            StepView::Begin(upload) => {
                assert(ops.drop_last() =~= Seq::<OpView>::empty());
                assert(apply_all(before, ops.drop_last()) == before);
                lemma_safe_op_keeps_consistency(before, ops.last());
            },
            StepView::Append(upload, data) => {
                assert(ops.drop_last() =~= Seq::<OpView>::empty());
                assert(apply_all(before, ops.drop_last()) == before);
                lemma_safe_op_keeps_consistency(before, ops.last());
            },
            StepView::Finalize(upload, expected) => {
                if before.contains_key(KeyView::Upload(upload)) {
                    lemma_finalize_upload(before, upload, expected);
                }
            },
            StepView::PutManifest(reference, bytes) => {
                lemma_put_manifest(before, reference, bytes);
                assert(ops.take(ops.len() as int) =~= ops);
            },
        }
    }
}

/// A stored manifest stays what it is: whatever happens to the store
/// next, the revision `digest` of `location` is still stored afterwards,
/// and with the same bytes, unless a manifest with that very digest is
/// stored at that location, whose bytes it then holds.
pub proof fn lemma_revisions_are_kept(files: Files, step: StepView, location: LocationView, digest: Seq<
    u8,
>)
    requires
        files.contains_key(KeyView::Revision(location, digest)),
    ensures
        ({
            let revision = KeyView::Revision(location, digest);
            let after = apply_all(files, step_ops(files, step));
            &&& after.contains_key(revision)
            &&& after[revision] == files[revision] || (step matches StepView::PutManifest(
                reference,
                bytes,
            ) && reference.location == location && sha256(bytes) == digest && after[revision]
                == bytes)
        }),
{
    let revision = KeyView::Revision(location, digest);
    let ops = step_ops(files, step);
    match step {
        StepView::PutManifest(reference, bytes) => {
            let f1 = apply(files, ops[0]);
            let f2 = apply(f1, ops[1]);
            assert(ops.take(0) =~= Seq::<OpView>::empty());
            assert(ops.take(1).drop_last() =~= ops.take(0));
            assert(ops.take(2).drop_last() =~= ops.take(1));
            assert(apply_all(files, ops.take(0)) == files);
            assert(apply_all(files, ops.take(1)) == f1);
            assert(apply_all(files, ops.take(2)) == f2);
            match reference.reference {
                ReferenceView::Tag(tag) => {
                    let f3 = apply(f2, ops[2]);
                    let f4 = apply(f3, ops[3]);
                    assert(ops.take(3).drop_last() =~= ops.take(2));
                    assert(ops.take(4).drop_last() =~= ops.take(3));
                    assert(apply_all(files, ops.take(3)) == f3);
                    assert(apply_all(files, ops.take(4)) == f4);
                    assert(ops.take(4) =~= ops);
                },
                ReferenceView::Digest(_) => {
                    assert(ops.take(2) =~= ops);
                },
            }
        },
        _ => {
            if ops.len() > 0 {
                assert(ops.drop_last() =~= Seq::<OpView>::empty());
                assert(apply_all(files, ops.drop_last()) == files);
            }
        },
    }
}

/// Whether looking up a manifest led to a file of `files` that holds
/// `bytes`.
pub open spec fn holds(files: Files, found: Result<KeyView, StorageError>, bytes: Seq<u8>) -> bool {
    match found {
        Ok(key) => files.contains_key(key) && files[key] == bytes,
        Err(_) => false,
    }
}

/// A manifest that was stored is found again: by its digest, and by the
/// tag it was stored under.
pub proof fn lemma_stored_manifest_is_found(files: Files, reference: ManifestReferenceView, bytes: Seq<
    u8,
>)
    requires
        consistent(files),
        sha256(bytes).len() == 32,
    ensures
        ({
            let after = apply_all(files, put_manifest_ops(reference, bytes));
            let by_digest = ManifestReferenceView {
                location: reference.location,
                reference: ReferenceView::Digest(sha256(bytes)),
            };
            let pointer = match reference.reference {
                ReferenceView::Tag(tag) => Some(after[KeyView::Tag(reference.location, tag)]),
                ReferenceView::Digest(_) => None,
            };
            &&& holds(after, resolve(by_digest, None), bytes)
            &&& reference.reference is Tag ==> holds(after, resolve(reference, pointer), bytes)
        }),
{
    lemma_put_manifest(files, reference, bytes);
    lemma_pointer_round_trip(sha256(bytes));
}

/// The components of the path of the file `key`, below the store's
/// directory.
pub open spec fn path_parts(key: KeyView) -> Seq<Seq<char>> {
    match key {
        KeyView::Blob(digest) => seq!["blobs"@, hex_encode(digest)],
        KeyView::Upload(id) => seq!["uploads"@, uuid_text(id)],
        KeyView::Revision(location, digest) => seq![
            "manifests"@,
            location.repository,
            location.image,
            "revisions"@,
            hex_encode(digest),
        ],
        KeyView::Tag(location, tag) => seq![
            "manifests"@,
            location.repository,
            location.image,
            "tags"@,
            tag,
        ],
        KeyView::Staging(location, tag) => seq![
            "manifests"@,
            location.repository,
            location.image,
            "staging"@,
            tag,
        ],
    }
}

/// The path of the file `key`, below the store's directory.
pub open spec fn path_of(key: KeyView) -> Seq<char> {
    join(path_parts(key), '/')
}

/// Whether `key` can name a file: digests and ids have their length, and
/// names do as path components.
pub open spec fn is_storable(key: KeyView) -> bool {
    match key {
        KeyView::Blob(digest) => digest.len() == 32,
        KeyView::Upload(id) => id.len() == 16,
        KeyView::Revision(location, digest) => location.is_path_safe() && digest.len() == 32,
        KeyView::Tag(location, tag) => location.is_path_safe() && is_path_safe(tag),
        KeyView::Staging(location, tag) => location.is_path_safe() && is_path_safe(tag),
    }
}

impl StoreKey {
    /// The path of the file below the store's directory, with `/` between
    /// its components; `None` for a name that cannot be a file's.
    pub fn path(&self) -> (path: Option<String>)
        ensures
            match path {
                Some(text) => is_storable(self@) && text@ == path_of(self@),
                None => !is_storable(self@),
            },
    {
        let mut parts: Vec<String> = Vec::new();
        match self {
            StoreKey::Blob(digest) => {
                proof {
                    digest.lemma_len();
                }
                parts.push("blobs".to_owned());
                parts.push(digest.to_hex());
            },
            StoreKey::Upload(id) => {
                proof {
                    id.lemma_len();
                }
                parts.push("uploads".to_owned());
                parts.push(id.to_string());
            },
            StoreKey::Revision(location, digest) => {
                proof {
                    digest.lemma_len();
                }
                if !location.is_path_safe() {
                    return None;
                }
                parts.push("manifests".to_owned());
                parts.push(location.repository().to_owned());
                parts.push(location.image().to_owned());
                parts.push("revisions".to_owned());
                parts.push(digest.to_hex());
            },
            StoreKey::Tag(location, tag) => {
                if !location.is_path_safe() || !path_safe(tag.as_str()) {
                    return None;
                }
                parts.push("manifests".to_owned());
                parts.push(location.repository().to_owned());
                parts.push(location.image().to_owned());
                parts.push("tags".to_owned());
                parts.push(tag.clone());
            },
            StoreKey::Staging(location, tag) => {
                if !location.is_path_safe() || !path_safe(tag.as_str()) {
                    return None;
                }
                parts.push("manifests".to_owned());
                parts.push(location.repository().to_owned());
                parts.push(location.image().to_owned());
                parts.push("staging".to_owned());
                parts.push(tag.clone());
            },
        }
        assert(texts(parts@) =~= path_parts(self@));
        Some(join_on(&parts, '/'))
    }
}

/// Hexadecimal text holds neither slashes nor hyphens.
proof fn lemma_hex_is_plain(bytes: Seq<u8>)
    ensures
        lacks(hex_encode(bytes), '/'),
        lacks(hex_encode(bytes), '-'),
{
    let hex = hex_encode(bytes);
    assert forall|i: int| 0 <= i < hex.len() implies hex[i] != '/' && hex[i] != '-' by {
        let nibble: int = if i % 2 == 0 {
            bytes[i / 2] as int / 16
        } else {
            bytes[i / 2] as int % 16
        };
        assert(0 <= nibble < 16);
        assert(hex[i] == crate::digest::hex_alphabet()[nibble]);
    }
}

/// Different ids are written differently as UUIDs, and a written UUID
/// holds no slash.
proof fn lemma_uuid_text(a: Seq<u8>, b: Seq<u8>)
    requires
        a.len() == 16,
        b.len() == 16,
    ensures
        lacks(uuid_text(a), '/'),
        uuid_text(a) == uuid_text(b) ==> a == b,
{
    lemma_hex_is_plain(a);
    let ha = hex_encode(a);
    let hb = hex_encode(b);
    let ta = uuid_text(a);
    let tb = uuid_text(b);
    assert(ta.len() == 36);
    assert forall|j: int| 0 <= j < 36 implies ta[j] != '/' by {
        if j == 8 || j == 13 || j == 18 || j == 23 {
        } else {
            let i = if j < 8 {
                j
            } else if j < 13 {
                j - 1
            } else if j < 18 {
                j - 2
            } else if j < 23 {
                j - 3
            } else {
                j - 4
            };
            assert(ta[j] == ha[i]);
        }
    }
    if ta == tb {
        assert(ha =~= hb) by {
            assert forall|i: int| 0 <= i < 32 implies ha[i] == hb[i] by {
                let j = if i < 8 {
                    i
                } else if i < 12 {
                    i + 1
                } else if i < 16 {
                    i + 2
                } else if i < 20 {
                    i + 3
                } else {
                    i + 4
                };
                assert(ha[i] == ta[j]);
                assert(hb[i] == tb[j]);
            }
        }
        crate::digest::lemma_hex_encode_injective(a, b);
    }
}

/// A name that does as a path component holds no slash.
proof fn lemma_path_safe_lacks_slash(name: Seq<char>)
    requires
        is_path_safe(name),
    ensures
        lacks(name, '/'),
{
    assert forall|i: int| 0 <= i < name.len() implies name[i] != '/' by {
        assert(!crate::location::is_path_breaking(name[i]));
    }
}

/// The components of a file's path hold no slash, so that the path can
/// be taken apart again.
proof fn lemma_path_parts_are_plain(key: KeyView)
    requires
        is_storable(key),
    ensures
        forall|i: int|
            0 <= i < path_parts(key).len() ==> lacks(#[trigger] path_parts(key)[i], '/'),
        split(path_of(key), '/') == path_parts(key),
{
    reveal_strlit("blobs");
    reveal_strlit("uploads");
    reveal_strlit("manifests");
    reveal_strlit("revisions");
    reveal_strlit("tags");
    reveal_strlit("staging");
    match key {
        KeyView::Blob(digest) => {
            lemma_hex_is_plain(digest);
        },
        KeyView::Upload(id) => {
            lemma_uuid_text(id, id);
        },
        KeyView::Revision(location, digest) => {
            lemma_hex_is_plain(digest);
            lemma_path_safe_lacks_slash(location.repository);
            lemma_path_safe_lacks_slash(location.image);
        },
        KeyView::Tag(location, tag) => {
            lemma_path_safe_lacks_slash(location.repository);
            lemma_path_safe_lacks_slash(location.image);
            lemma_path_safe_lacks_slash(tag);
        },
        KeyView::Staging(location, tag) => {
            lemma_path_safe_lacks_slash(location.repository);
            lemma_path_safe_lacks_slash(location.image);
            lemma_path_safe_lacks_slash(tag);
        },
    }
    crate::text::lemma_split_join(path_parts(key), '/');
}

/// Different files have different paths: blobs, uploads, revisions, tags
/// and pointers being written never get in each other's way on disk.
pub proof fn lemma_paths_are_distinct(a: KeyView, b: KeyView)
    requires
        is_storable(a),
        is_storable(b),
        path_of(a) == path_of(b),
    ensures
        a == b,
{
    lemma_path_parts_are_plain(a);
    lemma_path_parts_are_plain(b);
    let pa = path_parts(a);
    let pb = path_parts(b);
    assert(pa == pb);
    reveal_strlit("blobs");
    reveal_strlit("uploads");
    reveal_strlit("manifests");
    reveal_strlit("revisions");
    reveal_strlit("tags");
    reveal_strlit("staging");
    assert(pa[0] == pb[0]);
    assert("blobs"@[0] != "uploads"@[0]);
    assert("revisions"@[0] != "tags"@[0]);
    assert("revisions"@[0] != "staging"@[0]);
    assert("tags"@[0] != "staging"@[0]);
    match (a, b) {
        (KeyView::Blob(x), KeyView::Blob(y)) => {
            assert(pa[1] == pb[1]);
            crate::digest::lemma_hex_encode_injective(x, y);
        },
        (KeyView::Upload(x), KeyView::Upload(y)) => {
            assert(pa[1] == pb[1]);
            lemma_uuid_text(x, y);
        },
        (KeyView::Revision(l, x), KeyView::Revision(m, y)) => {
            assert(pa[1] == pb[1] && pa[2] == pb[2] && pa[4] == pb[4]);
            crate::digest::lemma_hex_encode_injective(x, y);
        },
        (KeyView::Tag(l, x), KeyView::Tag(m, y)) => {
            assert(pa[1] == pb[1] && pa[2] == pb[2] && pa[4] == pb[4]);
        },
        (KeyView::Staging(l, x), KeyView::Staging(m, y)) => {
            assert(pa[1] == pb[1] && pa[2] == pb[2] && pa[4] == pb[4]);
        },
        _ => {
            assert(pa.len() == pb.len());
            if pa.len() == 5 {
                assert(pa[3] == pb[3]);
            }
        },
    }
}

} // verus!
