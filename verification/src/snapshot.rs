//! The environment snapshot: an immutable bundle of resources, decoded font
//! faces, a designated main entry, a derived font catalog, the standard
//! library definition and one captured reference timestamp, built once and
//! then only queried.

use vstd::prelude::*;
use crate::date::{date_at_offset, requested_offset, shiftable_timestamp, Date};
use crate::date::{civil_date_of, representable_offset};
use crate::entry::{entry_of_bytes, BuildError, EntryModel, FileEntry, FileIdentity, LookupError};
use crate::fonts::{
    all_faces_parse, buffer_face_count, build_catalog, decode_faces, face_plan, font_parses,
    provenance, FontFace,
};
use crate::vpath::{normalized_segments, VirtualPath};

verus! {

/// Declares `typst::Library`, the opaque standard-library definition, to the
/// verifier.
#[verifier::external_type_specification]
#[verifier::external_body]
pub struct ExLibrary(typst::Library);

/// Relies on `typst::Library::default`: builds the standard library
/// definition, an opaque value handed to the compiler unchanged.
#[verifier::external_body]
fn standard_library() -> typst::Library {
    typst::Library::default()
}

/// The reserved path of the designated main entry.
pub open spec fn main_path() -> Seq<Seq<char>> {
    normalized_segments("main.typ"@)
}

/// The entry table an input set denotes: one entry per normalized path, the
/// later of two same-named resources winning.
pub open spec fn entries_model_of(resources: Seq<(Seq<char>, Seq<u8>)>) -> Map<
    Seq<Seq<char>>,
    EntryModel,
>
    decreases resources.len(),
{
    if resources.len() == 0 {
        Map::<Seq<Seq<char>>, EntryModel>::empty()
    } else {
        entries_model_of(resources.drop_last()).insert(
            normalized_segments(resources.last().0),
            entry_of_bytes(resources.last().1),
        )
    }
}

/// Whether a table holds a main entry with decodable text: the condition
/// under which construction can designate a main source.
pub open spec fn has_main_entry(m: Map<Seq<Seq<char>>, EntryModel>) -> bool {
    m.contains_key(main_path()) && m[main_path()].0 is Some
}

/// The table an entry list denotes.
pub open spec fn list_model(list: Seq<(VirtualPath, FileEntry)>) -> Map<Seq<Seq<char>>, EntryModel>
    decreases list.len(),
{
    if list.len() == 0 {
        Map::<Seq<Seq<char>>, EntryModel>::empty()
    } else {
        list_model(list.drop_last()).insert(list.last().0@, list.last().1@)
    }
}

/// Keys of an entry list are pairwise distinct.
pub open spec fn distinct_keys(list: Seq<(VirtualPath, FileEntry)>) -> bool {
    forall|i: int, j: int|
        0 <= i < j < list.len() ==> #[trigger] list[i].0@ != #[trigger] list[j].0@
}

/// Every entry of a list is the one its own bytes decode to.
pub open spec fn entries_decoded(list: Seq<(VirtualPath, FileEntry)>) -> bool {
    forall|i: int| 0 <= i < list.len() ==> #[trigger] list[i].1@ == entry_of_bytes(list[i].1@.1)
}

proof fn lemma_list_model_get(list: Seq<(VirtualPath, FileEntry)>, i: int)
    requires
        0 <= i < list.len(),
        distinct_keys(list),
    ensures
        list_model(list).contains_key(list[i].0@),
        list_model(list)[list[i].0@] == list[i].1@,
    decreases list.len(),
{
    if i < list.len() - 1 {
        assert(list.drop_last()[i] == list[i]);
        lemma_list_model_get(list.drop_last(), i);
        assert(list[i].0@ != list[list.len() - 1].0@);
        assert(list.last() == list[list.len() - 1]);
    } else {
        assert(list.last() == list[i]);
    }
}

proof fn lemma_list_model_absent(list: Seq<(VirtualPath, FileEntry)>, key: Seq<Seq<char>>)
    requires
        forall|i: int| 0 <= i < list.len() ==> #[trigger] list[i].0@ != key,
    ensures
        !list_model(list).contains_key(key),
    decreases list.len(),
{
    if list.len() > 0 {
        assert(forall|i: int|
            0 <= i < list.drop_last().len() ==> #[trigger] list.drop_last()[i].0@ != key);
        lemma_list_model_absent(list.drop_last(), key);
        assert(list.last() == list[list.len() - 1]);
    }
}

proof fn lemma_list_model_update(
    list: Seq<(VirtualPath, FileEntry)>,
    j: int,
    p: VirtualPath,
    e: FileEntry,
)
    requires
        0 <= j < list.len(),
        distinct_keys(list),
        p@ == list[j].0@,
    ensures
        list_model(list.update(j, (p, e))) == list_model(list).insert(p@, e@),
    decreases list.len(),
{
    let upd = list.update(j, (p, e));
    if j == list.len() - 1 {
        assert(upd.drop_last() =~= list.drop_last());
        assert(upd.last() == (p, e));
        assert(list.last() == list[j]);
        assert(list_model(list.drop_last()).insert(list[j].0@, list[j].1@).insert(p@, e@)
            =~= list_model(list.drop_last()).insert(p@, e@));
    } else {
        assert(upd.drop_last() =~= list.drop_last().update(j, (p, e)));
        assert(upd.last() == list.last());
        assert(list.drop_last()[j] == list[j]);
        lemma_list_model_update(list.drop_last(), j, p, e);
        let base = list_model(list.drop_last());
        let lk = list[list.len() - 1].0@;
        let lv = list[list.len() - 1].1@;
        assert(list.last() == list[list.len() - 1]);
        assert(p@ != lk);
        assert(list_model(upd) == base.insert(p@, e@).insert(lk, lv));
        assert(base.insert(p@, e@).insert(lk, lv) =~= base.insert(lk, lv).insert(p@, e@));
    }
}

/// When no supplied name normalizes to the reserved main path, the denoted
/// table has no main entry: construction must then report it missing,
/// however many other resources were supplied.
pub proof fn lemma_missing_main(resources: Seq<(Seq<char>, Seq<u8>)>)
    requires
        forall|i: int|
            0 <= i < resources.len() ==> #[trigger] normalized_segments(resources[i].0)
                != main_path(),
    ensures
        !entries_model_of(resources).contains_key(main_path()),
    decreases resources.len(),
{
    if resources.len() > 0 {
        assert(forall|i: int|
            0 <= i < resources.drop_last().len() ==> #[trigger] normalized_segments(
                resources.drop_last()[i].0,
            ) != main_path());
        lemma_missing_main(resources.drop_last());
        assert(resources.last() == resources[resources.len() - 1]);
    }
}

/// The entry a supplied resource denotes — its own bytes, decoded — as long
/// as no later resource shares its normalized name.
pub proof fn lemma_entries_model_get(resources: Seq<(Seq<char>, Seq<u8>)>, i: int)
    requires
        0 <= i < resources.len(),
        forall|j: int|
            i < j < resources.len() ==> #[trigger] normalized_segments(resources[j].0)
                != normalized_segments(resources[i].0),
    ensures
        entries_model_of(resources).contains_key(normalized_segments(resources[i].0)),
        entries_model_of(resources)[normalized_segments(resources[i].0)] == entry_of_bytes(
            resources[i].1,
        ),
    decreases resources.len(),
{
    if i < resources.len() - 1 {
        assert(resources.drop_last()[i] == resources[i]);
        assert(forall|j: int|
            i < j < resources.drop_last().len() ==> #[trigger] normalized_segments(
                resources.drop_last()[j].0,
            ) != normalized_segments(resources[i].0));
        lemma_entries_model_get(resources.drop_last(), i);
        assert(resources.last() == resources[resources.len() - 1]);
        assert(normalized_segments(resources[resources.len() - 1].0) != normalized_segments(
            resources[i].0,
        ));
    } else {
        assert(resources.last() == resources[i]);
    }
}

/// An owned copy of a byte vector.
fn copy_bytes(src: &Vec<u8>) -> (r: Vec<u8>)
    ensures
        r@ == src@,
{
    let mut out: Vec<u8> = Vec::new();
    let n = src.len();
    let mut i: usize = 0;
    while i < n
        invariant
            i <= n,
            n == src@.len(),
            out@ == src@.take(i as int),
        decreases n - i,
    {
        out.push(src[i]);
        proof {
            assert(out@ =~= src@.take(i + 1));
        }
        i += 1;
    }
    proof {
        assert(out@ =~= src@);
    }
    out
}

/// Index of the entry stored under a path, if any.
fn find_in(list: &Vec<(VirtualPath, FileEntry)>, path: &VirtualPath) -> (r: Option<usize>)
    ensures
        match r {
            Some(i) => i < list@.len() && list@[i as int].0@ == path@,
            None => forall|i: int| 0 <= i < list@.len() ==> #[trigger] list@[i].0@ != path@,
        },
{
    let n = list.len();
    let mut i: usize = 0;
    while i < n
        invariant
            i <= n,
            n == list@.len(),
            forall|k: int| 0 <= k < i ==> #[trigger] list@[k].0@ != path@,
        decreases n - i,
    {
        if list[i].0.matches(path) {
            return Some(i);
        }
        i += 1;
    }
    None
}

/// The immutable environment snapshot.
pub struct Snapshot {
    entries: Vec<(VirtualPath, FileEntry)>,
    main_text: String,
    fonts: Vec<FontFace>,
    catalog: typst::text::FontBook,
    stdlib: typst::Library,
    reference_time: i64,
}

impl Snapshot {
    /// The entry table of this snapshot.
    pub closed spec fn entries_map(&self) -> Map<Seq<Seq<char>>, EntryModel> {
        list_model(self.entries@)
    }

    /// The designated main entry's text.
    pub closed spec fn main_text_model(&self) -> Seq<char> {
        self.main_text@
    }

    /// The flattened face list.
    pub closed spec fn faces_list(&self) -> Seq<FontFace> {
        self.fonts@
    }

    /// The derived metadata catalog.
    pub closed spec fn catalog_value(&self) -> typst::text::FontBook {
        self.catalog
    }

    /// The standard library definition.
    pub closed spec fn stdlib_value(&self) -> typst::Library {
        self.stdlib
    }

    /// The captured reference timestamp.
    pub closed spec fn time_model(&self) -> int {
        self.reference_time as int
    }

    /// Well-formedness: distinct decoded entries, a present main entry whose
    /// text the snapshot designates, at least one face, and a reference
    /// timestamp every representable offset can shift.
    pub closed spec fn wf(&self) -> bool {
        &&& distinct_keys(self.entries@)
        &&& entries_decoded(self.entries@)
        &&& self.entries_map().contains_key(main_path())
        &&& self.entries_map()[main_path()].0 == Some(self.main_text@)
        &&& self.fonts@.len() > 0
        &&& shiftable_timestamp(self.reference_time as int)
    }

    /// Builds a snapshot from named resources, font buffers and a reference
    /// timestamp. Fails fatally — producing no partial snapshot — on a
    /// declared face that does not construct, on a face list that comes out
    /// empty, and on a missing (or text-less) main entry, in that order of
    /// checks.
    pub fn build(
        resources: &Vec<(String, Vec<u8>)>,
        font_buffers: &Vec<Vec<u8>>,
        reference_time: i64,
    ) -> (r: Result<Snapshot, BuildError>)
        requires
            shiftable_timestamp(reference_time as int),
        ensures
            match r {
                Ok(s) => {
                    &&& s.wf()
                    &&& s.entries_map() == entries_model_of(resources.deep_view())
                    &&& has_main_entry(entries_model_of(resources.deep_view()))
                    &&& Some(s.main_text_model()) == entries_model_of(
                        resources.deep_view(),
                    )[main_path()].0
                    &&& all_faces_parse(font_buffers.deep_view())
                    &&& provenance(s.faces_list()) == face_plan(font_buffers.deep_view())
                    &&& face_plan(font_buffers.deep_view()).len() > 0
                    &&& s.time_model() == reference_time
                },
                Err(e) => match e {
                    BuildError::MalformedFont { buffer, face } => {
                        &&& (buffer as int) < font_buffers.deep_view().len()
                        &&& (face as int) < buffer_face_count(
                            font_buffers.deep_view()[buffer as int],
                        )
                        &&& !font_parses(font_buffers.deep_view()[buffer as int], face)
                        &&& crate::fonts::faces_parse_before(
                            font_buffers.deep_view(),
                            buffer as int,
                            face as int,
                        )
                    },
                    BuildError::MissingFonts => {
                        &&& all_faces_parse(font_buffers.deep_view())
                        &&& face_plan(font_buffers.deep_view()).len() == 0
                    },
                    BuildError::MissingMainEntry => {
                        &&& all_faces_parse(font_buffers.deep_view())
                        &&& face_plan(font_buffers.deep_view()).len() > 0
                        &&& !has_main_entry(entries_model_of(resources.deep_view()))
                    },
                },
            },
    {
        let ghost rs = resources.deep_view();
        let fonts = match decode_faces(font_buffers) {
            Ok(fonts) => fonts,
            Err(e) => {
                return Err(e);
            },
        };
        proof {
            assert(provenance(fonts@).len() == fonts@.len());
        }
        if fonts.len() == 0 {
            return Err(BuildError::MissingFonts);
        }

        let mut entries: Vec<(VirtualPath, FileEntry)> = Vec::new();
        let n = resources.len();
        proof {
            assert(list_model(entries@) =~= entries_model_of(rs.take(0)));
        }
        let mut i: usize = 0;
        while i < n
            invariant
                i <= n,
                n == resources@.len(),
                rs == resources.deep_view(),
                distinct_keys(entries@),
                entries_decoded(entries@),
                list_model(entries@) == entries_model_of(rs.take(i as int)),
            decreases n - i,
        {
            let name = VirtualPath::new(resources[i].0.as_str());
            let entry = FileEntry::from_bytes(copy_bytes(&resources[i].1));
            proof {
                assert(rs[i as int] == (resources@[i as int].0@, resources@[i as int].1@));
                assert(entry@ == entry_of_bytes(entry@.1));
            }
            let ghost before = entries@;
            match find_in(&entries, &name) {
                Some(j) => {
                    proof {
                        lemma_list_model_update(before, j as int, name, entry);
                    }
                    entries.set(j, (name, entry));
                    proof {
                        assert(forall|a: int|
                            0 <= a < entries@.len() && a != j ==> entries@[a] == before[a]);
                        assert(entries@[j as int].0@ == before[j as int].0@);
                        assert(distinct_keys(entries@));
                        assert(entries_decoded(entries@));
                    }
                },
                None => {
                    entries.push((name, entry));
                    proof {
                        assert(entries@.drop_last() =~= before);
                        assert(entries@.last() == (name, entry));
                        assert(distinct_keys(entries@));
                        assert(entries_decoded(entries@));
                    }
                },
            }
            proof {
                assert(rs.take(i + 1).drop_last() =~= rs.take(i as int));
                assert(rs.take(i + 1).last() == rs[i as int]);
                assert(list_model(entries@) =~= entries_model_of(rs.take(i + 1)));
            }
            i += 1;
        }
        proof {
            assert(rs.take(n as int) =~= rs);
        }

        let main_probe = VirtualPath::new("main.typ");
        let idx = match find_in(&entries, &main_probe) {
            Some(i) => i,
            None => {
                proof {
                    lemma_list_model_absent(entries@, main_path());
                }
                return Err(BuildError::MissingMainEntry);
            },
        };
        proof {
            lemma_list_model_get(entries@, idx as int);
        }
        let main_text = match &entries[idx].1.text {
            Some(t) => t.clone(),
            None => {
                return Err(BuildError::MissingMainEntry);
            },
        };
        let catalog = build_catalog(&fonts);
        let stdlib = standard_library();
        Ok(Snapshot { entries, main_text, fonts, catalog, stdlib, reference_time })
    }

    /// The standard library definition: a pure accessor.
    pub fn library(&self) -> (r: &typst::Library)
        ensures
            *r == self.stdlib_value(),
    {
        &self.stdlib
    }

    /// The derived font metadata catalog: a pure accessor.
    pub fn font_catalog(&self) -> (r: &typst::text::FontBook)
        ensures
            *r == self.catalog_value(),
    {
        &self.catalog
    }

    /// The number of decoded faces, the exclusive upper bound of valid font
    /// indices.
    pub fn face_count(&self) -> (r: usize)
        ensures
            r == self.faces_list().len(),
    {
        self.fonts.len()
    }

    /// The designated main entry's text: guaranteed present by
    /// construction.
    pub fn main(&self) -> (r: &String)
        requires
            self.wf(),
        ensures
            r@ == self.main_text_model(),
    {
        &self.main_text
    }

    /// The text of the resource stored under an identity. Package-tagged
    /// identities are unsupported by this environment; an unknown identity
    /// or one stored without a text view is a typed lookup miss.
    pub fn resolve_source(&self, id: &FileIdentity) -> (r: Result<&String, LookupError>)
        requires
            self.wf(),
        ensures
            match r {
                Ok(t) => {
                    &&& id@.0 is None
                    &&& self.entries_map().contains_key(id@.1)
                    &&& self.entries_map()[id@.1].0 == Some(t@)
                },
                Err(e) => match e {
                    LookupError::PackageUnsupported => id@.0 is Some,
                    LookupError::NotFound => id@.0 is None && !self.entries_map().contains_key(
                        id@.1,
                    ),
                    LookupError::NotText => {
                        &&& id@.0 is None
                        &&& self.entries_map().contains_key(id@.1)
                        &&& self.entries_map()[id@.1].0 is None
                    },
                },
            },
    {
        if id.package.is_some() {
            return Err(LookupError::PackageUnsupported);
        }
        match find_in(&self.entries, &id.path) {
            Some(i) => {
                proof {
                    lemma_list_model_get(self.entries@, i as int);
                }
                match &self.entries[i].1.text {
                    Some(t) => Ok(t),
                    None => Err(LookupError::NotText),
                }
            },
            None => {
                proof {
                    lemma_list_model_absent(self.entries@, id@.1);
                }
                Err(LookupError::NotFound)
            },
        }
    }

    /// The raw bytes of the resource stored under an identity, whether or
    /// not a text view also exists: the ground truth of the entry,
    /// byte-for-byte as supplied.
    pub fn resolve_bytes(&self, id: &FileIdentity) -> (r: Result<&Vec<u8>, LookupError>)
        requires
            self.wf(),
        ensures
            match r {
                Ok(b) => {
                    &&& id@.0 is None
                    &&& self.entries_map().contains_key(id@.1)
                    &&& self.entries_map()[id@.1].1 == b@
                },
                Err(e) => match e {
                    LookupError::PackageUnsupported => id@.0 is Some,
                    LookupError::NotFound => id@.0 is None && !self.entries_map().contains_key(
                        id@.1,
                    ),
                    LookupError::NotText => false,
                },
            },
    {
        if id.package.is_some() {
            return Err(LookupError::PackageUnsupported);
        }
        match find_in(&self.entries, &id.path) {
            Some(i) => {
                proof {
                    lemma_list_model_get(self.entries@, i as int);
                }
                Ok(&self.entries[i].1.bytes)
            },
            None => {
                proof {
                    lemma_list_model_absent(self.entries@, id@.1);
                }
                Err(LookupError::NotFound)
            },
        }
    }

    /// The face at a font index: present exactly for indices below the face
    /// count; an out-of-range index is a soft "no such font", never an
    /// abort.
    pub fn font(&self, index: usize) -> (r: Option<&FontFace>)
        ensures
            match r {
                Some(f) => index < self.faces_list().len() && *f == self.faces_list()[index as int],
                None => index >= self.faces_list().len(),
            },
    {
        if index < self.fonts.len() {
            Some(&self.fonts[index])
        } else {
            None
        }
    }

    /// The calendar date of the captured reference timestamp at the
    /// requested whole-hour offset (the default offset when none is given);
    /// "unavailable" exactly for offsets outside the representable range.
    pub fn today(&self, offset: Option<i64>) -> (r: Option<Date>)
        requires
            self.wf(),
        ensures
            match r {
                Some(d) => {
                    &&& representable_offset(requested_offset(offset))
                    &&& (d.year, d.month, d.day) == civil_date_of(
                        self.time_model() + requested_offset(offset) * 3600,
                    )
                },
                None => !representable_offset(requested_offset(offset)),
            },
    {
        date_at_offset(self.reference_time, offset)
    }
}

} // verus!
