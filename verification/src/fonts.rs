//! Font decoding: each supplied buffer yields one face, or as many as a
//! font-collection container declares. Faces are addressed by their position
//! in the flattened list, in buffer order; a face that fails to construct
//! aborts the whole decode, so that indices never silently shift.

use vstd::prelude::*;
use crate::entry::BuildError;

verus! {

/// Declares `typst::text::Font`, one opaque constructed face, to the
/// verifier.
#[verifier::external_type_specification]
#[verifier::external_body]
pub struct ExFont(typst::text::Font);

/// Declares `typst::text::FontBook`, the opaque derived metadata catalog, to
/// the verifier.
#[verifier::external_type_specification]
#[verifier::external_body]
pub struct ExFontBook(typst::text::FontBook);

/// What `ttf_parser::fonts_in_collection` reads from a buffer: the declared
/// face count of a collection container, `None` otherwise.
pub uninterp spec fn collection_count(bytes: Seq<u8>) -> Option<u32>;

/// Whether face `index` of a buffer constructs successfully.
pub uninterp spec fn font_parses(bytes: Seq<u8>, index: u32) -> bool;

/// Relies on `ttf_parser::fonts_in_collection`: reports the number of faces
/// a font-collection buffer declares, `None` for a single-face or
/// unrecognized buffer; the result depends on the bytes alone.
#[verifier::external_body]
fn probe_collection(data: &Vec<u8>) -> (r: Option<u32>)
    ensures
        r == collection_count(data@),
{
    ttf_parser::fonts_in_collection(data.as_slice())
}

/// Relies on `typst::text::Font::new`: whether the face at `index` of a
/// buffer constructs depends on the bytes and the index alone.
#[verifier::external_body]
fn parse_face(data: &Vec<u8>, index: u32) -> (r: Option<typst::text::Font>)
    ensures
        r is Some <==> font_parses(data@, index),
{
    typst::text::Font::new(typst::foundations::Bytes::from(data.as_slice()), index)
}

/// Relies on the derived `Clone` of `typst::text::Font`, which hands back an
/// equal face.
pub assume_specification[ <typst::text::Font as Clone>::clone ](f: &typst::text::Font) -> (r:
    typst::text::Font)
    ensures
        r == *f,
;

/// Relies on `typst::text::FontBook::from_fonts`: derives the catalog of
/// per-face metadata from the face list.
#[verifier::external_body]
fn book_from_fonts(fonts: &Vec<typst::text::Font>) -> (r: typst::text::FontBook) {
    typst::text::FontBook::from_fonts(fonts)
}

/// How many faces one buffer contributes: what a collection declares, one
/// otherwise.
pub open spec fn buffer_face_count(bytes: Seq<u8>) -> u32 {
    match collection_count(bytes) {
        Some(n) => n,
        None => 1u32,
    }
}

/// The planned provenance of the flattened face list: for every buffer, in
/// order, one pair `(buffer index, face index)` per declared face.
pub open spec fn face_plan(bufs: Seq<Seq<u8>>) -> Seq<(int, int)>
    decreases bufs.len(),
{
    if bufs.len() == 0 {
        Seq::<(int, int)>::empty()
    } else {
        face_plan(bufs.drop_last()) + Seq::new(
            buffer_face_count(bufs.last()) as nat,
            |j: int| ((bufs.len() - 1) as int, j),
        )
    }
}

/// Every planned face of every buffer constructs.
pub open spec fn all_faces_parse(bufs: Seq<Seq<u8>>) -> bool {
    forall|b: int, f: int|
        0 <= b < bufs.len() && 0 <= f < buffer_face_count(bufs[b]) ==> #[trigger] font_parses(
            bufs[b],
            f as u32,
        )
}

/// Every planned face strictly before `(b, f)` in buffer-then-face order
/// constructs.
pub open spec fn faces_parse_before(bufs: Seq<Seq<u8>>, b: int, f: int) -> bool {
    forall|b2: int, f2: int|
        0 <= b2 < bufs.len() && 0 <= f2 < buffer_face_count(bufs[b2]) && (b2 < b || (b2 == b && f2
            < f)) ==> #[trigger] font_parses(bufs[b2], f2 as u32)
}

/// One decoded, individually addressable font face.
pub struct FontFace {
    /// The constructed face.
    pub data: typst::text::Font,
    /// Index of the buffer this face came from.
    pub buffer: usize,
    /// Face index within that buffer.
    pub face: u32,
}

/// The provenance pairs of a face list.
pub open spec fn provenance(faces: Seq<FontFace>) -> Seq<(int, int)> {
    faces.map_values(|fc: FontFace| (fc.buffer as int, fc.face as int))
}

/// Decodes every buffer into its declared faces, flattened in input order.
/// Fails on the first face that does not construct: a malformed font is not
/// silently skipped, since omission would shift all later indices.
pub fn decode_faces(buffers: &Vec<Vec<u8>>) -> (r: Result<Vec<FontFace>, BuildError>)
    ensures
        match r {
            Ok(faces) => {
                &&& all_faces_parse(buffers.deep_view())
                &&& provenance(faces@) == face_plan(buffers.deep_view())
            },
            Err(e) => match e {
                BuildError::MalformedFont { buffer, face } => {
                    &&& (buffer as int) < buffers.deep_view().len()
                    &&& (face as int) < buffer_face_count(buffers.deep_view()[buffer as int])
                    &&& !font_parses(buffers.deep_view()[buffer as int], face)
                    &&& faces_parse_before(buffers.deep_view(), buffer as int, face as int)
                },
                _ => false,
            },
        },
{
    let ghost bufs = buffers.deep_view();
    let mut faces: Vec<FontFace> = Vec::new();
    let mut bi: usize = 0;
    proof {
        assert(provenance(faces@) =~= face_plan(bufs.take(0)));
    }
    while bi < buffers.len()
        invariant
            bi <= buffers.len(),
            bufs == buffers.deep_view(),
            provenance(faces@) == face_plan(bufs.take(bi as int)),
            faces_parse_before(bufs, bi as int, 0),
        decreases buffers.len() - bi,
    {
        let count: u32 = match probe_collection(&buffers[bi]) {
            Some(n) => n,
            None => 1,
        };
        proof {
            assert(buffers@[bi as int]@ == bufs[bi as int]);
            assert(count == buffer_face_count(bufs[bi as int]));
        }
        let mut fi: u32 = 0;
        proof {
            assert(face_plan(bufs.take(bi as int)) + Seq::new(0nat, |j: int| (bi as int, j))
                =~= face_plan(bufs.take(bi as int)));
        }
        while fi < count
            invariant
                fi <= count,
                bi < buffers.len(),
                bufs == buffers.deep_view(),
                count == buffer_face_count(bufs[bi as int]),
                provenance(faces@) == face_plan(bufs.take(bi as int)) + Seq::new(
                    fi as nat,
                    |j: int| (bi as int, j),
                ),
                faces_parse_before(bufs, bi as int, fi as int),
            decreases count - fi,
        {
            match parse_face(&buffers[bi], fi) {
                Some(font) => {
                    let ghost before = faces@;
                    faces.push(FontFace { data: font, buffer: bi, face: fi });
                    proof {
                        assert(buffers@[bi as int]@ == bufs[bi as int]);
                        assert(font_parses(bufs[bi as int], fi));
                        assert(provenance(faces@) =~= provenance(before).push(
                            (bi as int, fi as int),
                        ));
                        assert(provenance(faces@) =~= face_plan(bufs.take(bi as int)) + Seq::new(
                            (fi + 1) as nat,
                            |j: int| (bi as int, j),
                        ));
                    }
                },
                None => {
                    proof {
                        assert(buffers@[bi as int]@ == bufs[bi as int]);
                    }
                    return Err(BuildError::MalformedFont { buffer: bi, face: fi });
                },
            }
            fi += 1;
        }
        proof {
            assert(bufs.take(bi + 1).drop_last() =~= bufs.take(bi as int));
            assert(bufs.take(bi + 1).last() == bufs[bi as int]);
            assert(face_plan(bufs.take(bi + 1)) == face_plan(bufs.take(bi as int)) + Seq::new(
                count as nat,
                |j: int| (bi as int, j),
            ));
        }
        bi += 1;
    }
    proof {
        assert(bufs.take(buffers.len() as int) =~= bufs);
        assert(all_faces_parse(bufs)) by {
            assert forall|b: int, f: int|
                0 <= b < bufs.len() && 0 <= f < buffer_face_count(bufs[b]) implies #[trigger] font_parses(
                bufs[b],
                f as u32,
            ) by {
                assert(faces_parse_before(bufs, buffers.len() as int, 0));
            }
        }
    }
    Ok(faces)
}

/// Builds the metadata catalog of a face list.
pub(crate) fn build_catalog(faces: &Vec<FontFace>) -> typst::text::FontBook {
    let mut fonts: Vec<typst::text::Font> = Vec::new();
    let mut i: usize = 0;
    while i < faces.len()
        decreases faces.len() - i,
    {
        fonts.push(faces[i].data.clone());
        i += 1;
    }
    book_from_fonts(&fonts)
}

/// Every planned pair addresses an existing buffer and a declared face of
/// it.
pub proof fn lemma_face_plan_bounds(bufs: Seq<Seq<u8>>)
    ensures
        forall|k: int|
            0 <= k < face_plan(bufs).len() ==> {
                &&& 0 <= #[trigger] face_plan(bufs)[k].0 < bufs.len()
                &&& 0 <= face_plan(bufs)[k].1 < buffer_face_count(bufs[face_plan(bufs)[k].0])
            },
    decreases bufs.len(),
{
    if bufs.len() > 0 {
        lemma_face_plan_bounds(bufs.drop_last());
        assert forall|k: int| 0 <= k < face_plan(bufs).len() implies {
            &&& 0 <= #[trigger] face_plan(bufs)[k].0 < bufs.len()
            &&& 0 <= face_plan(bufs)[k].1 < buffer_face_count(bufs[face_plan(bufs)[k].0])
        } by {
            let prev = face_plan(bufs.drop_last());
            if k < prev.len() {
                assert(face_plan(bufs)[k] == prev[k]);
                assert(bufs.drop_last()[prev[k].0] == bufs[prev[k].0]);
            } else {
                assert(face_plan(bufs)[k] == ((bufs.len() - 1) as int, k - prev.len()));
                assert(bufs.last() == bufs[bufs.len() - 1]);
            }
        }
    }
}

/// No two planned faces share a provenance pair: each position in the
/// flattened list addresses a distinct face.
pub proof fn lemma_face_plan_distinct(bufs: Seq<Seq<u8>>)
    ensures
        forall|i: int, j: int|
            0 <= i < j < face_plan(bufs).len() ==> #[trigger] face_plan(bufs)[i]
                != #[trigger] face_plan(bufs)[j],
    decreases bufs.len(),
{
    if bufs.len() > 0 {
        lemma_face_plan_distinct(bufs.drop_last());
        lemma_face_plan_bounds(bufs.drop_last());
        let prev = face_plan(bufs.drop_last());
        assert forall|i: int, j: int|
            0 <= i < j < face_plan(bufs).len() implies #[trigger] face_plan(bufs)[i]
            != #[trigger] face_plan(bufs)[j] by {
            if i < prev.len() && j >= prev.len() {
                assert(face_plan(bufs)[i] == prev[i]);
                assert(prev[i].0 < bufs.drop_last().len());
                assert(face_plan(bufs)[j].0 == bufs.len() - 1);
            } else if i >= prev.len() {
                assert(face_plan(bufs)[i].1 == i - prev.len());
                assert(face_plan(bufs)[j].1 == j - prev.len());
            }
        }
    }
}

/// A face list whose provenance follows the plan holds pairwise-distinct
/// faces: each in-range index addresses its own face, never another's.
pub proof fn lemma_planned_faces_distinct(faces: Seq<FontFace>, bufs: Seq<Seq<u8>>)
    requires
        provenance(faces) == face_plan(bufs),
    ensures
        forall|i: int, j: int|
            0 <= i < j < faces.len() ==> #[trigger] faces[i] != #[trigger] faces[j],
{
    lemma_face_plan_distinct(bufs);
    assert forall|i: int, j: int|
        0 <= i < j < faces.len() implies #[trigger] faces[i] != #[trigger] faces[j] by {
        assert(provenance(faces)[i] == (faces[i].buffer as int, faces[i].face as int));
        assert(provenance(faces)[j] == (faces[j].buffer as int, faces[j].face as int));
        assert(face_plan(bufs)[i] != face_plan(bufs)[j]);
    }
}

/// With no buffers at all, the plan is empty: an empty font-buffer set can
/// never yield a face.
pub proof fn lemma_no_buffers_no_faces(bufs: Seq<Seq<u8>>)
    requires
        bufs.len() == 0,
    ensures
        face_plan(bufs).len() == 0,
{
}

} // verus!
