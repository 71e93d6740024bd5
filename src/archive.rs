//! Assembling a document into a package: the content of every part, in
//! order, and the archive that holds them.
use vstd::prelude::*;
use crate::content::{
    app_content, chart_content, comments_content, content_types_content, copy_bytes, core_content,
    drawing_content, rels_content, shared_strings_content, styles_content, theme_content,
    vml_drawing_content, workbook_content, worksheet_content,
};
use crate::document::{shapes, Spreadsheet};
use crate::error::XlsxError;
use crate::package::{
    head_parts,
    charts_before, counts_fit, package_parts, parts_view, pictures_before, plan_parts, rels_view,
    PartEntry, PartSource,
};
use crate::xml::{declaration_text, render_all};
use crate::shared_strings::{distinct, SharedStringTable};
use crate::content::{core_events, rels_events};

verus! {

/// An archive being written to memory, reached only through the functions
/// below (`zip::ZipWriter` cannot be declared here, its bounds naming std's
/// `io` traits).
#[verifier::external_body]
pub struct ArchiveWriter {
    inner: zip::ZipWriter<std::io::Cursor<Vec<u8>>>,
}

#[verifier::external_type_specification]
#[verifier::external_body]
pub struct ExZipError(zip::result::ZipError);

#[verifier::external_type_specification]
#[verifier::external_body]
pub struct ExIoError(std::io::Error);

/// The entries written so far to an archive: each name and content.
pub uninterp spec fn archive_entries(a: ArchiveWriter) -> Seq<(Seq<u8>, Seq<u8>)>;

/// The bytes of a ZIP archive holding these entries, in order, each
/// deflated with the default options and written in one call, with the
/// fixed default time stamp.
pub uninterp spec fn zip_archive(entries: Seq<(Seq<u8>, Seq<u8>)>) -> Seq<u8>;

/// The text of `b` read as UTF-8, with each malformed sequence replaced.
pub uninterp spec fn utf8_lossy(b: Seq<u8>) -> Seq<u8>;

pub open spec fn is_ascii_bytes(b: Seq<u8>) -> bool {
    forall|i: int| 0 <= i < b.len() ==> b[i] < 128
}

/// The name an entry gets from the path bytes `p`: `p` itself where it is
/// ASCII.
pub open spec fn entry_name(p: Seq<u8>) -> Seq<u8> {
    if is_ascii_bytes(p) {
        p
    } else {
        utf8_lossy(p)
    }
}

/// Relies on zip::ZipWriter::new: an archive with no entry yet, written to
/// memory.
#[verifier::external_body]
fn new_archive() -> (r: ArchiveWriter)
    ensures
        archive_entries(r) == Seq::<(Seq<u8>, Seq<u8>)>::empty(),
{
    ArchiveWriter { inner: zip::ZipWriter::new(std::io::Cursor::new(Vec::new())) }
}

/// The size of `content` once deflated into an entry, with the default
/// options, written in one call.
pub uninterp spec fn deflated_size(content: Seq<u8>) -> nat;

/// The entry last added, if any, fits an entry without the large-file
/// extension once deflated: closing it does not fail.
pub open spec fn last_entry_closes(entries: Seq<(Seq<u8>, Seq<u8>)>) -> bool {
    entries.len() == 0 || deflated_size(entries.last().1) <= 0xFFFF_FFFF
}

/// Relies on zip::ZipWriter::start_file and the writer's `std::io::Write`
/// impl: closes the entry before, then adds an entry named by `path` read as
/// UTF-8, with the default options (deflated), holding `content`, written in
/// one call. Closing the entry before fails where its deflated size passes
/// 4 GiB; writing to memory fails in no other way, the content being at
/// most 4 GiB.
#[verifier::external_body]
fn add_entry(a: &mut ArchiveWriter, path: &[u8], content: &[u8]) -> (r: Result<
    (),
    zip::result::ZipError,
>)
    requires
        content@.len() <= 0xFFFF_FFFF,
    ensures
        last_entry_closes(archive_entries(*old(a))) ==> (r is Ok && archive_entries(*final(a))
            == archive_entries(*old(a)).push(
            (
                if is_ascii_bytes(path@) {
                    path@
                } else {
                    utf8_lossy(path@)
                },
                content@,
            ),
        )),
        !last_entry_closes(archive_entries(*old(a))) ==> (r is Err && deflated_size(
            archive_entries(*old(a)).last().1,
        ) > 0xFFFF_FFFF),
{
    a.inner.start_file(String::from_utf8_lossy(path), zip::write::FileOptions::default())?;
    std::io::Write::write_all(&mut a.inner, content)?;
    Ok(())
}

/// Relies on zip::ZipWriter::finish: closes the last entry, writes the
/// central directory and hands back the archive's bytes. Closing the last
/// entry fails where its deflated size passes 4 GiB.
#[verifier::external_body]
fn finish_archive(a: &mut ArchiveWriter) -> (r: Result<Vec<u8>, zip::result::ZipError>)
    ensures
        last_entry_closes(archive_entries(*old(a))) ==> (r matches Ok(b) && b@ == zip_archive(
            archive_entries(*old(a)),
        )),
        !last_entry_closes(archive_entries(*old(a))) ==> (r is Err && deflated_size(
            archive_entries(*old(a)).last().1,
        ) > 0xFFFF_FFFF),
{
    a.inner.finish().map(|c| c.into_inner())
}

/// Whether the counts of a document fit the numbers of its parts.
pub fn check_counts(book: &Spreadsheet) -> (r: bool)
    ensures
        r == counts_fit(shapes(book.sheets@)),
{
    let ghost s = shapes(book.sheets@);
    let mut charts: u64 = 0;
    let mut pictures: u64 = 0;
    let mut i: usize = 0;
    while i < book.sheets.len()
        invariant
            0 <= i <= book.sheets@.len(),
            s == shapes(book.sheets@),
            charts == charts_before(s, i as nat),
            pictures == pictures_before(s, i as nat),
        decreases book.sheets@.len() - i,
    {
        let c = book.sheets[i].charts.len() as u64;
        let p = book.sheets[i].pictures.len() as u64;
        assert(s[i as int].charts == c && s[i as int].pictures == p);
        if c >= u64::MAX - charts || p >= u64::MAX - pictures {
            proof {
                crate::package::lemma_before_monotone(s, (i + 1) as nat, s.len());
            }
            return false;
        }
        charts = charts + c;
        pictures = pictures + p;
        i = i + 1;
    }
    let n = book.sheets.len() as u64;
    charts < u64::MAX && pictures < u64::MAX - charts && u64::MAX - charts - pictures > 8 && n
        < u64::MAX - charts - pictures - 8
}

/// The content of one part of the layout `parts`: a part that lists
/// relationships is their `.rels` text.
fn part_content(
    book: &Spreadsheet,
    parts: &Vec<PartEntry>,
    part: &PartEntry,
    strings: &mut SharedStringTable,
) -> (r: Vec<u8>)
    requires
        counts_fit(shapes(book.sheets@)),
        distinct(old(strings)@),
    ensures
        distinct(final(strings)@),
        part.relationships@.len() > 0 ==> r@ == declaration_text() + render_all(
            rels_events(rels_view(part.relationships@)),
        ),
        part.relationships@.len() == 0 && part.source is CoreProperties ==> r@ == declaration_text()
            + render_all(core_events(book.properties)),
{
    if part.relationships.len() > 0 {
        return rels_content(&part.relationships);
    }
    match part.source {
        PartSource::ContentTypes => content_types_content(parts),
        PartSource::CoreProperties => core_content(&book.properties),
        PartSource::AppProperties => app_content(),
        PartSource::VbaProject => match &book.vba_project {
            Some(v) => copy_bytes(v),
            None => Vec::new(),
        },
        PartSource::Relationships => rels_content(&part.relationships),
        PartSource::Theme => theme_content(),
        PartSource::Workbook => {
            proof {
                crate::package::lemma_before_monotone(shapes(book.sheets@), 0, book.sheets@.len());
            }
            workbook_content(book)
        },
        PartSource::Worksheet(i) => if i < book.sheets.len() {
            let indices = crate::shared_strings::intern_rows(strings, &book.sheets[i].rows);
            worksheet_content(&book.sheets[i], &indices)
        } else {
            Vec::new()
        },
        PartSource::Drawing(i) => if i < book.sheets.len() {
            proof {
                crate::package::lemma_sheet_counts_fit(shapes(book.sheets@), i as nat);
            }
            drawing_content(&book.sheets[i])
        } else {
            Vec::new()
        },
        PartSource::Comments(i) => if i < book.sheets.len() {
            comments_content(&book.sheets[i])
        } else {
            Vec::new()
        },
        PartSource::VmlDrawing(_) => vml_drawing_content(),
        PartSource::Chart(i, k) => if i < book.sheets.len() && k < book.sheets[i].charts.len() {
            chart_content(&book.sheets[i].charts[k])
        } else {
            Vec::new()
        },
        PartSource::Image(i, k) => if i < book.sheets.len() && k < book.sheets[i].pictures.len() {
            copy_bytes(&book.sheets[i].pictures[k].image)
        } else {
            Vec::new()
        },
        PartSource::SharedStrings => shared_strings_content(strings),
        PartSource::Styles => styles_content(),
    }
}

/// One file of the archive: its path and its bytes.
pub struct Part {
    pub path: Vec<u8>,
    pub content: Vec<u8>,
}

/// The parts of the package of `book` in the order they are written: the
/// paths of the layout, each `.rels` part holding the text of the
/// relationships that the layout gives it.
#[verifier::rlimit(100)]
pub fn package_entries(book: &Spreadsheet) -> (r: Vec<Part>)
    requires
        counts_fit(shapes(book.sheets@)),
    ensures
        r@.len() == package_parts(shapes(book.sheets@), book.vba_project is Some).len(),
        forall|i: int|
            0 <= i < r@.len() ==> {
                let p = #[trigger] package_parts(shapes(book.sheets@), book.vba_project is Some)[i];
                &&& r@[i].path@ == p.0
                &&& p.1.len() > 0 ==> r@[i].content@ == declaration_text() + render_all(
                    rels_events(p.1),
                )
            },
        r@[1].content@ == declaration_text() + render_all(core_events(book.properties)),
{
    let plan = plan_parts(book);
    let ghost layout = package_parts(shapes(book.sheets@), book.vba_project is Some);
    assert(layout.len() > 1) by {
        assert(head_parts(book.sheets@.len(), book.vba_project is Some).len() > 1);
    }
    let mut out: Vec<Part> = Vec::new();
    let mut strings = SharedStringTable::new();
    let mut i: usize = 0;
    while i < plan.len()
        invariant
            distinct(strings@),
            0 <= i <= plan@.len(),
            counts_fit(shapes(book.sheets@)),
            parts_view(plan@) == layout,
            layout == package_parts(shapes(book.sheets@), book.vba_project is Some),
            out@.len() == i,
            plan@[1].source == PartSource::CoreProperties,
            i > 1 ==> out@[1].content@ == declaration_text() + render_all(core_events(book.properties)),
            forall|j: int|
                0 <= j < i ==> {
                    let p = #[trigger] layout[j];
                    &&& out@[j].path@ == p.0
                    &&& p.1.len() > 0 ==> out@[j].content@ == declaration_text() + render_all(
                        rels_events(p.1),
                    )
                },
        decreases plan@.len() - i,
    {
        let part = &plan[i];
        assert(part@ == layout[i as int]);
        proof {
            if i == 1 {
                assert(layout[1].1.len() == 0);
                assert(part.relationships@.len() == 0);
            }
        }
        let content = part_content(book, &plan, part, &mut strings);
        out.push(Part { path: copy_bytes(&part.path), content });
        i = i + 1;
    }
    out
}

/// The path and content of each part.
pub open spec fn parts_entries(v: Seq<Part>) -> Seq<(Seq<u8>, Seq<u8>)> {
    v.map_values(|p: Part| (p.path@, p.content@))
}

/// The entries follow the layout of `book`: the paths of the layout, in
/// order, each `.rels` part holding the text of its relationships, and the
/// core properties part the text of the document's properties.
pub open spec fn matches_layout(e: Seq<(Seq<u8>, Seq<u8>)>, book: Spreadsheet) -> bool {
    let l = package_parts(shapes(book.sheets@), book.vba_project is Some);
    &&& e.len() == l.len()
    &&& e[1].1 == declaration_text() + render_all(core_events(book.properties))
    &&& forall|i: int|
        0 <= i < e.len() ==> {
            &&& (#[trigger] e[i]).0 == l[i].0
            &&& l[i].1.len() > 0 ==> e[i].1 == declaration_text() + render_all(rels_events(l[i].1))
        }
}

/// Each entry's content fits a ZIP entry without the large-file extension.
pub open spec fn entries_fit(e: Seq<(Seq<u8>, Seq<u8>)>) -> bool {
    forall|i: int|
        0 <= i < e.len() ==> (#[trigger] e[i]).1.len() <= 0xFFFF_FFFF && deflated_size(e[i].1)
            <= 0xFFFF_FFFF
}

/// The entries as the archive names them.
pub open spec fn named_entries(e: Seq<(Seq<u8>, Seq<u8>)>) -> Seq<(Seq<u8>, Seq<u8>)> {
    e.map_values(|p: (Seq<u8>, Seq<u8>)| (entry_name(p.0), p.1))
}

/// The ZIP archive, in memory, of `parts` in order. A part over 4 GiB, as it
/// is or deflated, fails naming that part, and no archive is finished.
pub fn write_entries(parts: &Vec<Part>) -> (r: Result<Vec<u8>, XlsxError>)
    ensures
        entries_fit(parts_entries(parts@)) ==> (r matches Ok(b) && b@ == zip_archive(
            named_entries(parts_entries(parts@)),
        )),
        !entries_fit(parts_entries(parts@)) ==> (r matches Err(XlsxError::PartTooLarge { part })
            && exists|i: int|
            0 <= i < parts@.len() && parts@[i].path@ == part@ && (parts@[i].content@.len()
                > 0xFFFF_FFFF || deflated_size(parts@[i].content@) > 0xFFFF_FFFF)),
{
    let ghost e = parts_entries(parts@);
    let mut k: usize = 0;
    while k < parts.len()
        invariant
            0 <= k <= parts@.len(),
            e == parts_entries(parts@),
            forall|j: int| 0 <= j < k ==> (#[trigger] e[j]).1.len() <= 0xFFFF_FFFF,
        decreases parts@.len() - k,
    {
        if parts[k].content.len() > 0xFFFF_FFFF {
            proof {
                assert(e[k as int] == (parts@[k as int].path@, parts@[k as int].content@));
                assert(!entries_fit(e));
            }
            return Err(XlsxError::PartTooLarge { part: copy_bytes(&parts[k].path) });
        }
        assert(e[k as int] == (parts@[k as int].path@, parts@[k as int].content@));
        k = k + 1;
    }
    let mut archive = new_archive();
    let mut i: usize = 0;
    while i < parts.len()
        invariant
            0 <= i <= parts@.len(),
            e == parts_entries(parts@),
            forall|j: int| 0 <= j < e.len() ==> (#[trigger] e[j]).1.len() <= 0xFFFF_FFFF,
            forall|j: int| 0 <= j < i - 1 ==> deflated_size((#[trigger] e[j]).1) <= 0xFFFF_FFFF,
            archive_entries(archive) == named_entries(e.take(i as int)),
        decreases parts@.len() - i,
    {
        assert(e[i as int] == (parts@[i as int].path@, parts@[i as int].content@));
        match add_entry(&mut archive, parts[i].path.as_slice(), parts[i].content.as_slice()) {
            Ok(()) => {},
            Err(_) => {
                proof {
                    assert(i > 0);
                    assert(named_entries(e.take(i as int)).last().1 == e[i - 1].1);
                    assert(e[i - 1] == (parts@[i - 1].path@, parts@[i - 1].content@));
                    assert(!entries_fit(e));
                }
                return Err(XlsxError::PartTooLarge { part: copy_bytes(&parts[i - 1].path) });
            },
        }
        proof {
            if i > 0 {
                assert(named_entries(e.take(i as int)).last().1 == e[i - 1].1);
            }
            assert(e.take(i as int + 1) =~= e.take(i as int).push(e[i as int]));
            assert(archive_entries(archive) =~= named_entries(e.take(i as int + 1)));
        }
        i = i + 1;
    }
    assert(e.take(i as int) =~= e);
    match finish_archive(&mut archive) {
        Ok(bytes) => {
            proof {
                if e.len() > 0 {
                    assert(named_entries(e).last().1 == e[e.len() - 1].1);
                }
                assert(entries_fit(e));
            }
            Ok(bytes)
        },
        Err(_) => {
            proof {
                assert(e.len() > 0);
                assert(named_entries(e).last().1 == e[e.len() - 1].1);
                assert(!entries_fit(e));
            }
            Err(XlsxError::PartTooLarge { part: copy_bytes(&parts[parts.len() - 1].path) })
        },
    }
}

/// Writes the package of `book` as a ZIP archive, in memory: the archive of
/// its parts, in the order of its layout. A document too large for its
/// parts to be numbered in `u64` fails as an archive error before any part
/// is made; a part over 4 GiB, as it is or deflated, fails naming that part,
/// and no archive is finished.
#[verifier::rlimit(50)]
pub fn write(book: &Spreadsheet) -> (r: Result<Vec<u8>, XlsxError>)
    ensures
        !counts_fit(shapes(book.sheets@)) ==> r matches Err(XlsxError::Zip),
        counts_fit(shapes(book.sheets@)) ==> exists|e: Seq<(Seq<u8>, Seq<u8>)>|
            {
                &&& matches_layout(e, *book)
                &&& entries_fit(e) ==> (r matches Ok(b) && b@ == zip_archive(named_entries(e)))
                &&& !entries_fit(e) ==> (r matches Err(XlsxError::PartTooLarge { part }) && exists|
                    i: int,
                |
                    0 <= i < e.len() && e[i].0 == part@ && (e[i].1.len() > 0xFFFF_FFFF
                        || deflated_size(e[i].1) > 0xFFFF_FFFF))
            },
{
    if !check_counts(book) {
        return Err(XlsxError::Zip);
    }
    let parts = package_entries(book);
    let ghost e = parts_entries(parts@);
    proof {
        let l = package_parts(shapes(book.sheets@), book.vba_project is Some);
        assert forall|i: int| 0 <= i < e.len() implies {
            &&& (#[trigger] e[i]).0 == l[i].0
            &&& l[i].1.len() > 0 ==> e[i].1 == declaration_text() + render_all(rels_events(l[i].1))
        } by {
            assert(e[i] == (parts@[i].path@, parts@[i].content@));
        }
        assert(e[1] == (parts@[1].path@, parts@[1].content@));
        assert(matches_layout(e, *book));
    }
    let r = write_entries(&parts);
    proof {
        if !entries_fit(e) {
            if let Err(XlsxError::PartTooLarge { part }) = &r {
                let i = choose|i: int|
                    0 <= i < parts@.len() && parts@[i].path@ == part@ && (parts@[i].content@.len()
                        > 0xFFFF_FFFF || deflated_size(parts@[i].content@) > 0xFFFF_FFFF);
                assert(e[i] == (parts@[i].path@, parts@[i].content@));
            }
        }
    }
    r
}

} // verus!
