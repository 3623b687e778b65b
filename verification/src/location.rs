//! Names of images and of their manifests.

use crate::digest::{
    image_digest_text, lemma_parse_inverts_format, parse_image_digest, Digest, ImageDigest,
};
use crate::text::chars_of;
use vstd::prelude::*;
use vstd::utf8::encode_utf8;

verus! {

/// Whether `name` can be used as a single path component: it is not empty,
/// is neither `.` nor `..`, and holds no slash, backslash or NUL.
pub open spec fn is_path_safe(name: Seq<char>) -> bool {
    &&& name.len() > 0
    &&& name != seq!['.']
    &&& name != seq!['.', '.']
    &&& forall|i: int| 0 <= i < name.len() ==> !is_path_breaking(#[trigger] name[i])
}

/// Whether `c` would end or escape a path component.
pub open spec fn is_path_breaking(c: char) -> bool {
    c == '/' || c == '\\' || c == '\0'
}

/// Checks whether `name` can be used as a single path component.
pub fn path_safe(name: &str) -> (safe: bool)
    ensures
        safe == is_path_safe(name@),
{
    let chars = chars_of(name);
    let n = chars.len();
    if n == 0 {
        return false;
    }
    if n == 1 && chars[0] == '.' {
        assert(chars@ =~= seq!['.']);
        return false;
    }
    if n == 2 && chars[0] == '.' && chars[1] == '.' {
        assert(chars@ =~= seq!['.', '.']);
        return false;
    }
    let mut i: usize = 0;
    while i < n
        invariant
            0 <= i <= n,
            n == chars.len(),
            chars@ == name@,
            forall|j: int| 0 <= j < i ==> !is_path_breaking(#[trigger] chars@[j]),
        decreases n - i,
    {
        let c = chars[i];
        if c == '/' || c == '\\' || c == '\0' {
            assert(is_path_breaking(chars@[i as int]));
            return false;
        }
        i += 1;
    }
    assert(chars@ != seq!['.']) by {
        if chars@ == seq!['.'] {
            assert(chars@.len() == 1);
            assert(chars@[0] == '.');
        }
    }
    assert(chars@ != seq!['.', '.']) by {
        if chars@ == seq!['.', '.'] {
            assert(chars@.len() == 2);
            assert(chars@[0] == '.');
            assert(chars@[1] == '.');
        }
    }
    true
}

/// What an [`ImageLocation`] names.
pub struct LocationView {
    pub repository: Seq<char>,
    pub image: Seq<char>,
}

impl LocationView {
    /// Whether both parts can be used as path components.
    pub open spec fn is_path_safe(self) -> bool {
        is_path_safe(self.repository) && is_path_safe(self.image)
    }
}

/// A repository and an image within it: a named family of images.
#[derive(Debug, PartialEq, Eq, Hash)]
pub struct ImageLocation {
    repository: String,
    image: String,
}

impl View for ImageLocation {
    type V = LocationView;

    closed spec fn view(&self) -> LocationView {
        LocationView { repository: self.repository@, image: self.image@ }
    }
}

impl Clone for ImageLocation {
    fn clone(&self) -> (copy: Self)
        ensures
            copy@ == self@,
    {
        ImageLocation { repository: self.repository.clone(), image: self.image.clone() }
    }
}

impl ImageLocation {
    /// Names the image `image` of the repository `repository`.
    pub fn new(repository: String, image: String) -> (location: ImageLocation)
        ensures
            location@.repository == repository@,
            location@.image == image@,
    {
        ImageLocation { repository, image }
    }

    /// The repository.
    pub fn repository(&self) -> (repository: &str)
        ensures
            repository@ == self@.repository,
    {
        self.repository.as_str()
    }

    /// The image.
    pub fn image(&self) -> (image: &str)
        ensures
            image@ == self@.image,
    {
        self.image.as_str()
    }

    /// Checks whether both parts can be used as path components.
    pub fn is_path_safe(&self) -> (safe: bool)
        ensures
            safe == self@.is_path_safe(),
    {
        path_safe(self.repository.as_str()) && path_safe(self.image.as_str())
    }
}

/// What a [`Reference`] names.
pub enum ReferenceView {
    Tag(Seq<char>),
    Digest(Seq<u8>),
}

/// The written form of a reference: a tag as it is, a digest as
/// `sha256:<hex>`.
pub open spec fn reference_text(reference: ReferenceView) -> Seq<char> {
    match reference {
        ReferenceView::Tag(tag) => tag,
        ReferenceView::Digest(bytes) => image_digest_text(bytes),
    }
}

/// What a written reference stands for: a digest where the text is a
/// well-formed digest, a tag otherwise.
pub open spec fn parse_reference(text: Seq<char>) -> ReferenceView {
    match parse_image_digest(encode_utf8(text)) {
        Ok(bytes) => ReferenceView::Digest(bytes),
        Err(_) => ReferenceView::Tag(text),
    }
}

/// Whether a reference is read back as itself: a digest of 32 bytes, or a
/// tag that does not read as a digest.
pub open spec fn is_canonical(reference: ReferenceView) -> bool {
    match reference {
        ReferenceView::Tag(tag) => parse_image_digest(encode_utf8(tag)) is Err,
        ReferenceView::Digest(bytes) => bytes.len() == 32,
    }
}

/// A manifest within a location, named by tag or by digest.
#[derive(Debug, PartialEq, Eq, Hash)]
pub enum Reference {
    /// A mutable, human-readable label.
    Tag(String),
    /// An immutable content address.
    Digest(Digest),
}

impl View for Reference {
    type V = ReferenceView;

    open spec fn view(&self) -> ReferenceView {
        match self {
            Reference::Tag(tag) => ReferenceView::Tag(tag@),
            Reference::Digest(digest) => ReferenceView::Digest(digest@),
        }
    }
}

impl Clone for Reference {
    fn clone(&self) -> (copy: Self)
        ensures
            copy@ == self@,
    {
        match self {
            Reference::Tag(tag) => Reference::Tag(tag.clone()),
            Reference::Digest(digest) => Reference::Digest(*digest),
        }
    }
}

impl Reference {
    /// A reference by tag.
    pub fn new_tag(tag: String) -> (reference: Reference)
        ensures
            reference@ == ReferenceView::Tag(tag@),
    {
        Reference::Tag(tag)
    }

    /// A reference by digest.
    pub fn new_digest(digest: Digest) -> (reference: Reference)
        ensures
            reference@ == ReferenceView::Digest(digest@),
    {
        Reference::Digest(digest)
    }

    /// Reads a reference: a well-formed digest is a digest, anything else a tag.
    pub fn parse(text: &str) -> (reference: Reference)
        ensures
            reference@ == parse_reference(text@),
    {
        match ImageDigest::from_str(text) {
            Ok(image_digest) => Reference::Digest(image_digest.into_digest()),
            Err(_) => Reference::Tag(text.to_owned()),
        }
    }

    /// The written form of the reference.
    pub fn to_string(&self) -> (text: String)
        ensures
            text@ == reference_text(self@),
    {
        match self {
            Reference::Tag(tag) => tag.clone(),
            Reference::Digest(digest) => ImageDigest::new(*digest).to_string(),
        }
    }

    /// Whether this is the tag `tag`.
    pub fn is_tag(&self, tag: &str) -> (yes: bool)
        ensures
            yes == (self@ == ReferenceView::Tag(tag@)),
    {
        match self {
            Reference::Tag(own) => crate::text::same_text(own.as_str(), tag),
            Reference::Digest(_) => false,
        }
    }
}

/// Reading the written form of a reference gives the reference back,
/// provided it is canonical: for a digest of 32 bytes always, for a tag
/// unless the tag itself reads as a digest.
pub proof fn lemma_reference_round_trip(reference: ReferenceView)
    requires
        is_canonical(reference),
    ensures
        parse_reference(reference_text(reference)) == reference,
{
    match reference {
        ReferenceView::Tag(tag) => {},
        ReferenceView::Digest(bytes) => {
            lemma_parse_inverts_format(bytes);
        },
    }
}

/// What a [`ManifestReference`] names.
pub struct ManifestReferenceView {
    pub location: LocationView,
    pub reference: ReferenceView,
}

/// The full name of a manifest: where it lives and which one it is.
#[derive(Debug, PartialEq, Eq, Hash)]
pub struct ManifestReference {
    location: ImageLocation,
    reference: Reference,
}

impl View for ManifestReference {
    type V = ManifestReferenceView;

    closed spec fn view(&self) -> ManifestReferenceView {
        ManifestReferenceView { location: self.location@, reference: self.reference@ }
    }
}

impl Clone for ManifestReference {
    fn clone(&self) -> (copy: Self)
        ensures
            copy@ == self@,
    {
        ManifestReference { location: self.location.clone(), reference: self.reference.clone() }
    }
}

impl ManifestReference {
    /// Names the manifest `reference` at `location`.
    pub fn new(location: ImageLocation, reference: Reference) -> (manifest_reference: Self)
        ensures
            manifest_reference@.location == location@,
            manifest_reference@.reference == reference@,
    {
        ManifestReference { location, reference }
    }

    /// Where the manifest lives.
    pub fn location(&self) -> (location: &ImageLocation)
        ensures
            location@ == self@.location,
    {
        &self.location
    }

    /// Which manifest it is.
    pub fn reference(&self) -> (reference: &Reference)
        ensures
            reference@ == self@.reference,
    {
        &self.reference
    }
}

} // verus!
