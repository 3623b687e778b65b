//! The little that the registry reads of an image manifest: its media
//! type, and the digests of its configuration and of its layers.

use crate::digest::{parse_image_digest, Digest, ImageDigest};
use crate::text::{decimal_text, push_decimal, push_text};
use vstd::prelude::*;
use vstd::utf8::encode_utf8;

verus! {

/// What a JSON pointer leads to in a document.
#[derive(Debug, PartialEq, Eq)]
pub enum Found {
    /// A string.
    Text(String),
    /// An array of this many members.
    Items(usize),
    /// Something else, or nothing, or the document is not JSON.
    Other,
}

/// What a [`Found`] says.
pub enum FoundView {
    Text(Seq<char>),
    Items(usize),
    Other,
}

impl View for Found {
    type V = FoundView;

    open spec fn view(&self) -> FoundView {
        match self {
            Found::Text(text) => FoundView::Text(text@),
            Found::Items(count) => FoundView::Items(*count),
            Found::Other => FoundView::Other,
        }
    }
}

/// What `serde_json` finds in the JSON document `document` at the JSON
/// pointer `pointer`.
pub uninterp spec fn json_at(document: Seq<u8>, pointer: Seq<char>) -> FoundView;

/// Looks up a JSON pointer in a document.
///
/// Wraps `serde_json::from_slice` for a `serde_json::Value`, and then
/// `Value::pointer`. A string and an array are told apart from anything
/// else, which includes a document that is not JSON and a pointer that
/// leads nowhere. The answer is a function of the two arguments alone.
#[verifier::external_body]
fn look_up(document: &[u8], pointer: &str) -> (found: Found)
    ensures
        found@ == json_at(document@, pointer@),
{
    match serde_json::from_slice::<serde_json::Value>(document) {
        Ok(parsed) => match parsed.pointer(pointer) {
            Some(serde_json::Value::String(text)) => Found::Text(text.clone()),
            Some(serde_json::Value::Array(items)) => Found::Items(items.len()),
            _ => Found::Other,
        },
        Err(_) => Found::Other,
    }
}

/// The string at `pointer` in `document`, if there is one.
pub open spec fn json_string_at(document: Seq<u8>, pointer: Seq<char>) -> Option<Seq<char>> {
    match json_at(document, pointer) {
        FoundView::Text(text) => Some(text),
        _ => None,
    }
}

/// The length of the array at `pointer` in `document`, if there is one.
pub open spec fn json_array_len_at(document: Seq<u8>, pointer: Seq<char>) -> Option<usize> {
    match json_at(document, pointer) {
        FoundView::Items(count) => Some(count),
        _ => None,
    }
}

/// The digest written at `pointer` in `document`, as `sha256:<hex>`.
pub open spec fn digest_at(document: Seq<u8>, pointer: Seq<char>) -> Option<Seq<u8>> {
    match json_string_at(document, pointer) {
        Some(text) => match parse_image_digest(encode_utf8(text)) {
            Ok(bytes) => Some(bytes),
            Err(_) => None,
        },
        None => None,
    }
}

/// The JSON pointer to the digest of the layer number `i`.
pub open spec fn layer_pointer(i: nat) -> Seq<char> {
    "/layers/"@ + decimal_text(i) + "/digest"@
}

/// What an [`ImageManifest`] holds.
pub struct ManifestView {
    pub media_type: Seq<char>,
    pub config: Seq<u8>,
    pub layers: Seq<Seq<u8>>,
}

/// What the registry reads of the manifest `document`: the string
/// `mediaType`, the digest `config.digest`, and the digest of every member
/// of the array `layers`. A document that lacks one of them is no
/// manifest.
pub open spec fn manifest_of(document: Seq<u8>) -> Option<ManifestView> {
    match (
        json_string_at(document, "/mediaType"@),
        digest_at(document, "/config/digest"@),
        json_array_len_at(document, "/layers"@),
    ) {
        (Some(media_type), Some(config), Some(count)) => if forall|i: nat|
            i < count ==> (#[trigger] digest_at(document, layer_pointer(i))) is Some {
            Some(
                ManifestView {
                    media_type,
                    config,
                    layers: Seq::new(
                        count as nat,
                        |i: int| digest_at(document, layer_pointer(i as nat))->0,
                    ),
                },
            )
        } else {
            None
        },
        _ => None,
    }
}

/// The media type that a manifest declares for itself.
pub open spec fn declared_media_type(document: Seq<u8>) -> Option<Seq<char>> {
    match manifest_of(document) {
        Some(manifest) => Some(manifest.media_type),
        None => None,
    }
}

/// The bytes of each of `digests`.
pub open spec fn digest_bytes(digests: Seq<Digest>) -> Seq<Seq<u8>> {
    Seq::new(digests.len(), |i: int| digests[i]@)
}

/// An image manifest, as far as the registry looks into it.
#[derive(Debug, PartialEq, Eq)]
pub struct ImageManifest {
    media_type: String,
    config: Digest,
    layers: Vec<Digest>,
}

impl View for ImageManifest {
    type V = ManifestView;

    closed spec fn view(&self) -> ManifestView {
        ManifestView {
            media_type: self.media_type@,
            config: self.config@,
            layers: digest_bytes(self.layers@),
        }
    }
}

/// Reads the digest at a JSON pointer.
fn read_digest_at(document: &[u8], pointer: &str) -> (digest: Option<Digest>)
    ensures
        match digest {
            Some(found) => digest_at(document@, pointer@) == Some(found@),
            None => digest_at(document@, pointer@) is None,
        },
{
    match look_up(document, pointer) {
        Found::Text(text) => match ImageDigest::from_str(text.as_str()) {
            Ok(image_digest) => Some(image_digest.into_digest()),
            Err(_) => None,
        },
        _ => None,
    }
}

impl ImageManifest {
    /// Reads a manifest. A document without the string `mediaType`, the
    /// digest `config.digest` or the array `layers`, each member with its
    /// digest, is malformed.
    pub fn parse(bytes: &[u8]) -> (manifest: Option<ImageManifest>)
        ensures
            match manifest {
                Some(read) => manifest_of(bytes@) == Some(read@),
                None => manifest_of(bytes@) is None,
            },
    {
        let media_type = match look_up(bytes, "/mediaType") {
            Found::Text(media_type) => media_type,
            _ => { return None; },
        };
        let config = match read_digest_at(bytes, "/config/digest") {
            Some(config) => config,
            None => { return None; },
        };
        let count = match look_up(bytes, "/layers") {
            Found::Items(count) => count,
            _ => { return None; },
        };
        let mut layers: Vec<Digest> = Vec::new();
        let mut i: usize = 0;
        while i < count
            invariant
                0 <= i <= count,
                layers@.len() == i,
                json_array_len_at(bytes@, "/layers"@) == Some(count),
                forall|j: nat| j < i ==> (#[trigger] digest_at(bytes@, layer_pointer(j))) is Some,
                forall|j: int|
                    0 <= j < i ==> (#[trigger] layers@[j])@ == digest_at(
                        bytes@,
                        layer_pointer(j as nat),
                    )->0,
            decreases count - i,
        {
            let mut pointer = "/layers/".to_owned();
            push_decimal(&mut pointer, i as u64);
            push_text(&mut pointer, "/digest");
            assert(pointer@ == layer_pointer(i as nat));
            match read_digest_at(bytes, pointer.as_str()) {
                Some(layer) => {
                    layers.push(layer);
                },
                None => {
                    return None;
                },
            }
            i += 1;
        }
        let manifest = ImageManifest { media_type, config, layers };
        assert(manifest@.layers =~= manifest_of(bytes@)->0.layers);
        Some(manifest)
    }

    /// The media type of the manifest.
    pub fn media_type(&self) -> (media_type: &str)
        ensures
            media_type@ == self@.media_type,
    {
        self.media_type.as_str()
    }

    /// The digest of the image's configuration.
    pub fn config(&self) -> (config: Digest)
        ensures
            config@ == self@.config,
    {
        self.config
    }

    /// The digests of the image's layers, in order.
    pub fn layers(&self) -> (layers: &Vec<Digest>)
        ensures
            digest_bytes(layers@) == self@.layers,
    {
        &self.layers
    }
}

} // verus!
