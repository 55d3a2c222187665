//! File identities and stored entries. An identity is an optional package
//! tag plus a virtual path; an entry keeps the raw bytes of a resource as
//! ground truth together with a decoded text view when the bytes are valid
//! UTF-8.

use vstd::prelude::*;
use vstd::utf8::{decode_utf8, valid_utf8};
use crate::vpath::VirtualPath;

verus! {

/// The identity of one resource: an optional package tag (resources supplied
/// at construction never carry one) and a normalized virtual path.
pub struct FileIdentity {
    /// Package tag; `Some` only for identities that refer into an external
    /// package, which this environment does not serve.
    pub package: Option<String>,
    /// The resource's normalized path.
    pub path: VirtualPath,
}

/// The mathematical identity value: package tag and path segments.
pub type IdentityModel = (Option<Seq<char>>, Seq<Seq<char>>);

impl View for FileIdentity {
    type V = IdentityModel;

    open spec fn view(&self) -> IdentityModel {
        (
            match self.package {
                Some(ref p) => Some(p@),
                None => None,
            },
            self.path@,
        )
    }
}

impl FileIdentity {
    /// An identity without a package tag, from a raw name.
    pub fn local(name: &str) -> (r: FileIdentity)
        ensures
            r@ == (None::<Seq<char>>, crate::vpath::normalized_segments(name@)),
    {
        FileIdentity { package: None, path: VirtualPath::new(name) }
    }
}

/// One stored resource: the raw bytes, always present, and the decoded text
/// exactly when the bytes are valid UTF-8.
pub struct FileEntry {
    /// Decoded text view; present exactly when `bytes` are valid UTF-8.
    pub text: Option<String>,
    /// The original bytes, the ground truth of the entry.
    pub bytes: Vec<u8>,
}

/// The mathematical value of an entry: decoded text, if any, and raw bytes.
pub type EntryModel = (Option<Seq<char>>, Seq<u8>);

impl View for FileEntry {
    type V = EntryModel;

    open spec fn view(&self) -> EntryModel {
        (
            match self.text {
                Some(ref t) => Some(t@),
                None => None,
            },
            self.bytes@,
        )
    }
}

/// The entry a resource's bytes decode to: text present exactly on valid
/// UTF-8, and then equal to the decoded bytes.
pub open spec fn entry_of_bytes(bytes: Seq<u8>) -> EntryModel {
    (
        if valid_utf8(bytes) {
            Some(decode_utf8(bytes))
        } else {
            None
        },
        bytes,
    )
}

/// Relies on `std::str::from_utf8`: returns `Ok` exactly when the bytes are
/// valid UTF-8, and then the string whose characters decode those bytes.
#[verifier::external_body]
fn utf8_to_str(bytes: &[u8]) -> (r: Option<&str>)
    ensures
        r is Some <==> valid_utf8(bytes@),
        r matches Some(s) ==> s@ == decode_utf8(bytes@),
{
    std::str::from_utf8(bytes).ok()
}

impl FileEntry {
    /// Stores the given bytes, decoding a text view when they are valid
    /// UTF-8.
    pub fn from_bytes(bytes: Vec<u8>) -> (r: FileEntry)
        ensures
            r@ == entry_of_bytes(bytes@),
    {
        let text: Option<String> = match utf8_to_str(bytes.as_slice()) {
            Some(s) => Some(s.to_owned()),
            None => None,
        };
        FileEntry { text, bytes }
    }
}

/// Why a snapshot could not be built.
#[derive(Clone, Copy, PartialEq, Eq, Structural, Debug)]
pub enum BuildError {
    /// No supplied resource resolves to the reserved main-entry path with
    /// decodable text.
    MissingMainEntry,
    /// The font buffers yield no face at all.
    MissingFonts,
    /// A declared face of a font buffer failed to construct.
    MalformedFont { buffer: usize, face: u32 },
}

/// Why a query against a built snapshot returned no value.
#[derive(Clone, Copy, PartialEq, Eq, Structural, Debug)]
pub enum LookupError {
    /// The requested identity is not part of the snapshot.
    NotFound,
    /// The entry exists but has no text view (binary content requested as
    /// text).
    NotText,
    /// The identity refers into an external package, a capability this
    /// environment declares but does not serve.
    PackageUnsupported,
}

} // verus!
