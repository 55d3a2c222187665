use typst2pdf::date::{MAX_TIMESTAMP, MIN_TIMESTAMP};
use typst2pdf::{BuildError, Date, FileIdentity, LookupError, Snapshot, VirtualPath};

/// 2001-09-09T01:46:40Z.
const REF_TS: i64 = 1_000_000_000;

fn head_bytes() -> Vec<u8> {
    let mut t: Vec<u8> = Vec::new();
    t.extend_from_slice(&0x00010000u32.to_be_bytes()); // version
    t.extend_from_slice(&0u32.to_be_bytes()); // font revision
    t.extend_from_slice(&0u32.to_be_bytes()); // checksum adjustment
    t.extend_from_slice(&0x5F0F3CF5u32.to_be_bytes()); // magic number
    t.extend_from_slice(&0u16.to_be_bytes()); // flags
    t.extend_from_slice(&1000u16.to_be_bytes()); // units per em
    t.extend_from_slice(&0u64.to_be_bytes()); // created
    t.extend_from_slice(&0u64.to_be_bytes()); // modified
    t.extend_from_slice(&0i16.to_be_bytes()); // x min
    t.extend_from_slice(&0i16.to_be_bytes()); // y min
    t.extend_from_slice(&600i16.to_be_bytes()); // x max
    t.extend_from_slice(&700i16.to_be_bytes()); // y max
    t.extend_from_slice(&0u16.to_be_bytes()); // mac style
    t.extend_from_slice(&8u16.to_be_bytes()); // lowest rec ppem
    t.extend_from_slice(&2i16.to_be_bytes()); // direction hint
    t.extend_from_slice(&0u16.to_be_bytes()); // index-to-loc format
    t.extend_from_slice(&0u16.to_be_bytes()); // glyph data format
    assert_eq!(t.len(), 54);
    t
}

fn hhea_bytes() -> Vec<u8> {
    let mut t: Vec<u8> = Vec::new();
    t.extend_from_slice(&0x00010000u32.to_be_bytes()); // version
    t.extend_from_slice(&800i16.to_be_bytes()); // ascender
    t.extend_from_slice(&(-200i16).to_be_bytes()); // descender
    t.extend_from_slice(&0i16.to_be_bytes()); // line gap
    t.extend_from_slice(&500u16.to_be_bytes()); // advance width max
    t.extend_from_slice(&0i16.to_be_bytes()); // min left side bearing
    t.extend_from_slice(&0i16.to_be_bytes()); // min right side bearing
    t.extend_from_slice(&0i16.to_be_bytes()); // x max extent
    t.extend_from_slice(&1i16.to_be_bytes()); // caret slope rise
    t.extend_from_slice(&0i16.to_be_bytes()); // caret slope run
    t.extend_from_slice(&0i16.to_be_bytes()); // caret offset
    t.extend_from_slice(&0i16.to_be_bytes()); // reserved
    t.extend_from_slice(&0i16.to_be_bytes()); // reserved
    t.extend_from_slice(&0i16.to_be_bytes()); // reserved
    t.extend_from_slice(&0i16.to_be_bytes()); // reserved
    t.extend_from_slice(&0i16.to_be_bytes()); // metric data format
    t.extend_from_slice(&1u16.to_be_bytes()); // number of h-metrics
    assert_eq!(t.len(), 36);
    t
}

fn maxp_bytes() -> Vec<u8> {
    let mut t: Vec<u8> = Vec::new();
    t.extend_from_slice(&0x00005000u32.to_be_bytes()); // version 0.5
    t.extend_from_slice(&1u16.to_be_bytes()); // number of glyphs
    t
}

fn name_bytes() -> Vec<u8> {
    let mut t: Vec<u8> = Vec::new();
    t.extend_from_slice(&0u16.to_be_bytes()); // format
    t.extend_from_slice(&1u16.to_be_bytes()); // record count
    t.extend_from_slice(&18u16.to_be_bytes()); // storage offset
    t.extend_from_slice(&0u16.to_be_bytes()); // platform: unicode
    t.extend_from_slice(&3u16.to_be_bytes()); // encoding
    t.extend_from_slice(&0u16.to_be_bytes()); // language
    t.extend_from_slice(&1u16.to_be_bytes()); // name id: family
    t.extend_from_slice(&8u16.to_be_bytes()); // string length
    t.extend_from_slice(&0u16.to_be_bytes()); // string offset
    for c in "Test".chars() {
        t.extend_from_slice(&(c as u16).to_be_bytes()); // UTF-16BE family name
    }
    assert_eq!(t.len(), 26);
    t
}

/// A minimal single-face font whose table offsets are written relative to a
/// surrounding file that starts `base` bytes earlier.
fn sfnt_at(base: u32) -> Vec<u8> {
    let tables: [([u8; 4], Vec<u8>); 4] = [
        (*b"head", head_bytes()),
        (*b"hhea", hhea_bytes()),
        (*b"maxp", maxp_bytes()),
        (*b"name", name_bytes()),
    ];
    let mut out: Vec<u8> = Vec::new();
    out.extend_from_slice(&0x00010000u32.to_be_bytes()); // sfnt version
    out.extend_from_slice(&4u16.to_be_bytes()); // table count
    out.extend_from_slice(&64u16.to_be_bytes()); // search range
    out.extend_from_slice(&2u16.to_be_bytes()); // entry selector
    out.extend_from_slice(&0u16.to_be_bytes()); // range shift
    let mut offset: u32 = base + 12 + 4 * 16;
    for (tag, data) in tables.iter() {
        out.extend_from_slice(tag);
        out.extend_from_slice(&0u32.to_be_bytes()); // checksum, not validated
        out.extend_from_slice(&offset.to_be_bytes());
        out.extend_from_slice(&(data.len() as u32).to_be_bytes());
        offset += data.len() as u32;
    }
    for (_, data) in tables.iter() {
        out.extend_from_slice(data);
    }
    out
}

/// A minimal single-face font buffer.
fn single_font() -> Vec<u8> {
    sfnt_at(0)
}

/// A font-collection buffer declaring `n` faces, all sharing one face
/// directory.
fn collection_font(n: u32) -> Vec<u8> {
    let base: u32 = 12 + 4 * n;
    let mut out: Vec<u8> = Vec::new();
    out.extend_from_slice(b"ttcf");
    out.extend_from_slice(&0x00010000u32.to_be_bytes());
    out.extend_from_slice(&n.to_be_bytes());
    for _ in 0..n {
        out.extend_from_slice(&base.to_be_bytes());
    }
    out.extend_from_slice(&sfnt_at(base));
    out
}

fn build(resources: &[(&str, &[u8])], fonts: Vec<Vec<u8>>) -> Result<Snapshot, BuildError> {
    let rs: Vec<(String, Vec<u8>)> =
        resources.iter().map(|(n, b)| (n.to_string(), b.to_vec())).collect();
    Snapshot::build(&rs, &fonts, REF_TS)
}

fn local(name: &str) -> FileIdentity {
    FileIdentity { package: None, path: VirtualPath::new(name) }
}

#[test]
fn build_succeeds_with_main_and_font() {
    let s = build(&[("main.typ", b"content A")], vec![single_font()]).unwrap();
    assert_eq!(s.main().as_str(), "content A");
    assert_eq!(s.face_count(), 1);
}

#[test]
fn missing_main_aborts() {
    let r = build(&[("helper.typ", b"x")], vec![single_font()]);
    assert_eq!(r.err(), Some(BuildError::MissingMainEntry));
}

#[test]
fn binary_main_counts_as_missing() {
    let r = build(&[("main.typ", &[0xff, 0xfe, 0x01])], vec![single_font()]);
    assert_eq!(r.err(), Some(BuildError::MissingMainEntry));
}

#[test]
fn empty_font_set_aborts() {
    let r = build(&[("main.typ", b"content A")], vec![]);
    assert_eq!(r.err(), Some(BuildError::MissingFonts));
}

#[test]
fn malformed_font_aborts() {
    let r = build(&[("main.typ", b"content A")], vec![b"garbage".to_vec()]);
    assert_eq!(r.err(), Some(BuildError::MalformedFont { buffer: 0, face: 0 }));
}

#[test]
fn malformed_second_buffer_is_reported_as_such() {
    let r = build(
        &[("main.typ", b"content A")],
        vec![single_font(), b"garbage".to_vec()],
    );
    assert_eq!(r.err(), Some(BuildError::MalformedFont { buffer: 1, face: 0 }));
}

#[test]
fn text_resource_resolves_to_decoded_text() {
    let s = build(
        &[("main.typ", b"content A"), ("notes.typ", "héllo".as_bytes())],
        vec![single_font()],
    )
    .unwrap();
    let text = s.resolve_source(&local("notes.typ")).unwrap();
    assert_eq!(text.as_str(), "héllo");
    let bytes = s.resolve_bytes(&local("notes.typ")).unwrap();
    assert_eq!(bytes.as_slice(), "héllo".as_bytes());
}

#[test]
fn binary_resource_keeps_bytes_unchanged() {
    let blob: [u8; 4] = [0xff, 0x00, 0x01, 0x02];
    let s = build(
        &[("main.typ", b"content A"), ("blob.bin", &blob)],
        vec![single_font()],
    )
    .unwrap();
    assert_eq!(s.resolve_source(&local("blob.bin")).err(), Some(LookupError::NotText));
    let bytes = s.resolve_bytes(&local("blob.bin")).unwrap();
    assert_eq!(bytes.as_slice(), &blob);
}

#[test]
fn unknown_identity_is_a_typed_miss() {
    let s = build(&[("main.typ", b"content A")], vec![single_font()]).unwrap();
    assert_eq!(s.resolve_source(&local("nope.typ")).err(), Some(LookupError::NotFound));
    assert_eq!(s.resolve_bytes(&local("nope.typ")).err(), Some(LookupError::NotFound));
}

#[test]
fn package_identity_is_unsupported() {
    let s = build(&[("main.typ", b"content A")], vec![single_font()]).unwrap();
    let id = FileIdentity {
        package: Some("preview".to_string()),
        path: VirtualPath::new("lib.typ"),
    };
    assert_eq!(s.resolve_source(&id).err(), Some(LookupError::PackageUnsupported));
    assert_eq!(s.resolve_bytes(&id).err(), Some(LookupError::PackageUnsupported));
}

#[test]
fn collection_reports_three_distinct_faces() {
    let s = build(&[("main.typ", b"content A")], vec![collection_font(3)]).unwrap();
    assert_eq!(s.face_count(), 3);
    let mut seen: Vec<(usize, u32)> = Vec::new();
    for i in 0..3usize {
        let face = s.font(i).expect("face within range");
        let key = (face.buffer, face.face);
        assert!(!seen.contains(&key));
        seen.push(key);
    }
    assert!(s.font(3).is_none());
}

#[test]
fn faces_of_several_buffers_keep_input_order() {
    let s = build(
        &[("main.typ", b"content A")],
        vec![single_font(), collection_font(2)],
    )
    .unwrap();
    assert_eq!(s.face_count(), 3);
    assert_eq!((s.font(0).unwrap().buffer, s.font(0).unwrap().face), (0, 0));
    assert_eq!((s.font(1).unwrap().buffer, s.font(1).unwrap().face), (1, 0));
    assert_eq!((s.font(2).unwrap().buffer, s.font(2).unwrap().face), (1, 1));
}

#[test]
fn later_resource_of_same_name_wins() {
    let s = build(
        &[("main.typ", b"old"), ("./main.typ", b"new")],
        vec![single_font()],
    )
    .unwrap();
    assert_eq!(s.main().as_str(), "new");
}

#[test]
fn dot_prefixed_main_is_found() {
    let s = build(&[("./main.typ", b"content A")], vec![single_font()]).unwrap();
    assert_eq!(s.main().as_str(), "content A");
}

#[test]
fn today_at_utc_is_the_reference_date() {
    let s = build(&[("main.typ", b"content A")], vec![single_font()]).unwrap();
    assert_eq!(s.today(Some(0)), Some(Date { year: 2001, month: 9, day: 9 }));
}

#[test]
fn today_defaults_to_minus_six_hours() {
    let s = build(&[("main.typ", b"content A")], vec![single_font()]).unwrap();
    assert_eq!(s.today(None), Some(Date { year: 2001, month: 9, day: 8 }));
}

#[test]
fn today_shifts_across_the_date_line() {
    let s = build(&[("main.typ", b"content A")], vec![single_font()]).unwrap();
    assert_eq!(s.today(Some(25)), Some(Date { year: 2001, month: 9, day: 10 }));
    assert_eq!(s.today(Some(-25)), Some(Date { year: 2001, month: 9, day: 8 }));
}

#[test]
fn today_is_unavailable_for_unrepresentable_offsets() {
    let s = build(&[("main.typ", b"content A")], vec![single_font()]).unwrap();
    assert!(s.today(Some(999)).is_none());
    assert!(s.today(Some(26)).is_none());
    assert!(s.today(Some(-26)).is_none());
}

#[test]
fn timestamp_bounds_match_the_calendar_range() {
    assert!(time::OffsetDateTime::from_unix_timestamp(MIN_TIMESTAMP).is_ok());
    assert!(time::OffsetDateTime::from_unix_timestamp(MIN_TIMESTAMP - 1).is_err());
    assert!(time::OffsetDateTime::from_unix_timestamp(MAX_TIMESTAMP).is_ok());
    assert!(time::OffsetDateTime::from_unix_timestamp(MAX_TIMESTAMP + 1).is_err());
}

#[test]
fn collection_header_is_counted_by_the_parser() {
    assert_eq!(ttf_parser::fonts_in_collection(&collection_font(3)), Some(3));
    assert_eq!(ttf_parser::fonts_in_collection(&single_font()), None);
}

/// Adapter exposing a snapshot to the typst compiler, as an embedding
/// application would.
struct RenderWorld {
    snapshot: Snapshot,
    library: comemo::Prehashed<typst::Library>,
    book: comemo::Prehashed<typst::text::FontBook>,
    main: typst::syntax::Source,
}

impl RenderWorld {
    fn new(snapshot: Snapshot) -> Self {
        let main_id =
            typst::syntax::FileId::new(None, typst::syntax::VirtualPath::new("/main.typ"));
        let main = typst::syntax::Source::new(main_id, snapshot.main().clone());
        let library = comemo::Prehashed::new(snapshot.library().clone());
        let book = comemo::Prehashed::new(snapshot.font_catalog().clone());
        Self { snapshot, library, book, main }
    }

    fn identity_of(id: typst::syntax::FileId) -> FileIdentity {
        FileIdentity {
            package: id.package().map(|p| p.to_string()),
            path: VirtualPath::new(&id.vpath().as_rooted_path().to_string_lossy()),
        }
    }
}

impl typst::World for RenderWorld {
    fn library(&self) -> &comemo::Prehashed<typst::Library> {
        &self.library
    }

    fn book(&self) -> &comemo::Prehashed<typst::text::FontBook> {
        &self.book
    }

    fn main(&self) -> typst::syntax::Source {
        self.main.clone()
    }

    fn source(
        &self,
        id: typst::syntax::FileId,
    ) -> typst::diag::FileResult<typst::syntax::Source> {
        match self.snapshot.resolve_source(&Self::identity_of(id)) {
            Ok(text) => Ok(typst::syntax::Source::new(id, text.clone())),
            Err(_) => {
                Err(typst::diag::FileError::NotFound(id.vpath().as_rooted_path().into()))
            }
        }
    }

    fn file(
        &self,
        id: typst::syntax::FileId,
    ) -> typst::diag::FileResult<typst::foundations::Bytes> {
        match self.snapshot.resolve_bytes(&Self::identity_of(id)) {
            Ok(b) => Ok(typst::foundations::Bytes::from(b.as_slice())),
            Err(_) => {
                Err(typst::diag::FileError::NotFound(id.vpath().as_rooted_path().into()))
            }
        }
    }

    fn font(&self, index: usize) -> Option<typst::text::Font> {
        self.snapshot.font(index).map(|f| f.data.clone())
    }

    fn today(&self, offset: Option<i64>) -> Option<typst::foundations::Datetime> {
        let d = self.snapshot.today(offset)?;
        typst::foundations::Datetime::from_ymd(d.year, d.month, d.day)
    }
}

#[test]
fn render_pipeline_produces_output_bytes() {
    let s = build(&[("main.typ", b"content A")], vec![single_font()]).unwrap();
    let world = RenderWorld::new(s);
    let mut tracer = typst::eval::Tracer::default();
    let document = typst::compile(&world, &mut tracer).expect("Error compiling typst.");
    let pdf = typst_pdf::pdf(&document, typst::foundations::Smart::Auto, None);
    assert!(!pdf.is_empty());
}
