//! The layout of a package: which parts it holds, in which order, under
//! which archive paths, and which relationships each `.rels` part lists.
use vstd::prelude::*;
use vstd::string::StringSliceAdditionalSpecFns;
use crate::decimal::{decimal_of, push_decimal};
use crate::document::{has_comments, has_drawing, shapes, SheetShape, Spreadsheet, Worksheet};
use crate::xml::{append, bytes_of};

verus! {

/// What a relationship points at.
#[derive(PartialEq, Eq, Structural, Clone, Copy)]
pub enum RelKind {
    OfficeDocument,
    CoreProperties,
    ExtendedProperties,
    Worksheet,
    Theme,
    Styles,
    SharedStrings,
    VbaProject,
    Drawing,
    Comments,
    VmlDrawing,
    Chart,
    Image,
}

/// One entry of a `.rels` part: `rId<id>`, what it points at, the archive
/// path of the part it points at, and the target as written (relative to
/// the part that owns the `.rels`).
pub struct Relationship {
    pub id: u64,
    pub kind: RelKind,
    pub part: Vec<u8>,
    pub target: Vec<u8>,
}

pub type RelView = (nat, RelKind, Seq<u8>, Seq<u8>);

impl View for Relationship {
    type V = RelView;

    open spec fn view(&self) -> RelView {
        (self.id as nat, self.kind, self.part@, self.target@)
    }
}

/// A part of the package: its archive path and, for a `.rels` part, the
/// relationships it lists.
pub struct PartEntry {
    pub path: Vec<u8>,
    pub relationships: Vec<Relationship>,
    pub source: PartSource,
}

/// Where the content of a part comes from; sheets, and the charts and
/// pictures of a sheet, by their index.
#[derive(PartialEq, Eq, Structural, Clone, Copy)]
pub enum PartSource {
    ContentTypes,
    CoreProperties,
    AppProperties,
    VbaProject,
    Relationships,
    Theme,
    Workbook,
    Worksheet(usize),
    Drawing(usize),
    Comments(usize),
    VmlDrawing(usize),
    Chart(usize, usize),
    Image(usize, usize),
    SharedStrings,
    Styles,
}

pub type PartView = (Seq<u8>, Seq<RelView>);

impl View for PartEntry {
    type V = PartView;

    open spec fn view(&self) -> PartView {
        (self.path@, rels_view(self.relationships@))
    }
}

pub open spec fn rels_view(v: Seq<Relationship>) -> Seq<RelView> {
    v.map_values(|r: Relationship| r@)
}

pub open spec fn parts_view(parts: Seq<PartEntry>) -> Seq<PartView> {
    parts.map_values(|p: PartEntry| p@)
}

/// `prefix`, the decimal text of `n`, then `suffix`.
pub open spec fn numbered(prefix: &str, n: nat, suffix: &str) -> Seq<u8> {
    prefix.spec_bytes() + decimal_of(n) + suffix.spec_bytes()
}

pub open spec fn sheet_path(n: nat) -> Seq<u8> {
    numbered("xl/worksheets/sheet", n, ".xml")
}

pub open spec fn sheet_rels_path(n: nat) -> Seq<u8> {
    numbered("xl/worksheets/_rels/sheet", n, ".xml.rels")
}

pub open spec fn drawing_path(n: nat) -> Seq<u8> {
    numbered("xl/drawings/drawing", n, ".xml")
}

pub open spec fn drawing_rels_path(n: nat) -> Seq<u8> {
    numbered("xl/drawings/_rels/drawing", n, ".xml.rels")
}

pub open spec fn comments_path(n: nat) -> Seq<u8> {
    numbered("xl/comments/comment", n, ".xml")
}

pub open spec fn vml_drawing_path(n: nat) -> Seq<u8> {
    numbered("xl/drawings/vmlDrawing", n, ".vml")
}

pub open spec fn chart_path(n: nat) -> Seq<u8> {
    numbered("xl/charts/chart", n, ".xml")
}

pub open spec fn image_path(n: nat) -> Seq<u8> {
    numbered("xl/media/image", n, ".png")
}

/// The entries of a sheet's `.rels`: its drawing, then its comments and
/// their legacy drawing, each only where the sheet owns them.
pub open spec fn sheet_relationships(w: SheetShape, d: nat, c: nat) -> Seq<RelView> {
    let first: nat = if has_drawing(w) {
        1
    } else {
        0
    };
    (if has_drawing(w) {
        seq![(1nat, RelKind::Drawing, drawing_path(d), numbered("../drawings/drawing", d, ".xml"))]
    } else {
        Seq::empty()
    }) + (if has_comments(w) {
        seq![
            (first + 1, RelKind::Comments, comments_path(c), numbered("../comments/comment", c, ".xml")),
            (first + 2, RelKind::VmlDrawing, vml_drawing_path(c), numbered("../drawings/vmlDrawing", c, ".vml")),
        ]
    } else {
        Seq::empty()
    })
}

/// The entries of a drawing's `.rels`: its charts, numbered from `k`, then
/// its pictures, numbered from `m`.
pub open spec fn drawing_relationships(w: SheetShape, k: nat, m: nat) -> Seq<RelView> {
    Seq::new(
        w.charts,
        |j: int| ((j + 1) as nat, RelKind::Chart, chart_path(k + j as nat), numbered("../charts/chart", k + j as nat, ".xml")),
    ) + Seq::new(
        w.pictures,
        |j: int| ((w.charts + j + 1) as nat, RelKind::Image, image_path(m + j as nat), numbered("../media/image", m + j as nat, ".png")),
    )
}

/// The parts of the sheet numbered `n`, whose drawing is numbered `d`, its
/// comments `c`, its first chart `k` and its first picture `m`.
pub open spec fn sheet_parts(w: SheetShape, n: nat, d: nat, c: nat, k: nat, m: nat) -> Seq<PartView> {
    let rels = sheet_relationships(w, d, c);
    seq![(sheet_path(n), Seq::<RelView>::empty())] + (if rels.len() > 0 {
        seq![(sheet_rels_path(n), rels)]
    } else {
        Seq::empty()
    }) + (if has_drawing(w) {
        seq![(drawing_path(d), Seq::<RelView>::empty()), (drawing_rels_path(d), drawing_relationships(w, k, m))]
    } else {
        Seq::empty()
    }) + (if has_comments(w) {
        seq![(comments_path(c), Seq::<RelView>::empty()), (vml_drawing_path(c), Seq::<RelView>::empty())]
    } else {
        Seq::empty()
    }) + Seq::new(w.charts, |j: int| (chart_path(k + j as nat), Seq::<RelView>::empty())) + Seq::new(
        w.pictures,
        |j: int| (image_path(m + j as nat), Seq::<RelView>::empty()),
    )
}

/// How many of the first `i` sheets own a drawing.
pub open spec fn drawings_before(s: Seq<SheetShape>, i: nat) -> nat
    decreases i,
{
    if i == 0 {
        0
    } else {
        drawings_before(s, (i - 1) as nat) + if has_drawing(s[i - 1]) {
            1nat
        } else {
            0nat
        }
    }
}

/// How many of the first `i` sheets own comments.
pub open spec fn comment_sheets_before(s: Seq<SheetShape>, i: nat) -> nat
    decreases i,
{
    if i == 0 {
        0
    } else {
        comment_sheets_before(s, (i - 1) as nat) + if has_comments(s[i - 1]) {
            1nat
        } else {
            0nat
        }
    }
}

/// How many charts the first `i` sheets hold.
pub open spec fn charts_before(s: Seq<SheetShape>, i: nat) -> nat
    decreases i,
{
    if i == 0 {
        0
    } else {
        charts_before(s, (i - 1) as nat) + s[i - 1].charts
    }
}

/// How many pictures the first `i` sheets hold.
pub open spec fn pictures_before(s: Seq<SheetShape>, i: nat) -> nat
    decreases i,
{
    if i == 0 {
        0
    } else {
        pictures_before(s, (i - 1) as nat) + s[i - 1].pictures
    }
}

/// The parts of the first `i` sheets, in sheet order.
pub open spec fn sheets_parts(s: Seq<SheetShape>, i: nat) -> Seq<PartView>
    decreases i,
{
    if i == 0 {
        Seq::empty()
    } else {
        let j = (i - 1) as nat;
        sheets_parts(s, j) + sheet_parts(
            s[j as int],
            i,
            drawings_before(s, j) + 1,
            comment_sheets_before(s, j) + 1,
            charts_before(s, j) + 1,
            pictures_before(s, j) + 1,
        )
    }
}

pub open spec fn root_relationships() -> Seq<RelView> {
    seq![
        (1nat, RelKind::OfficeDocument, "xl/workbook.xml".spec_bytes(), "xl/workbook.xml".spec_bytes()),
        (2nat, RelKind::CoreProperties, "docProps/core.xml".spec_bytes(), "docProps/core.xml".spec_bytes()),
        (3nat, RelKind::ExtendedProperties, "docProps/app.xml".spec_bytes(), "docProps/app.xml".spec_bytes()),
    ]
}

/// The entries of the workbook's `.rels`: the sheets, then the theme, the
/// styles, the shared strings and, where there is one, the macro project.
pub open spec fn workbook_relationships(n: nat, vba: bool) -> Seq<RelView> {
    Seq::new(
        n,
        |j: int| ((j + 1) as nat, RelKind::Worksheet, sheet_path((j + 1) as nat), numbered("worksheets/sheet", (j + 1) as nat, ".xml")),
    ) + seq![
        (n + 1, RelKind::Theme, "xl/theme/theme1.xml".spec_bytes(), "theme/theme1.xml".spec_bytes()),
        (n + 2, RelKind::Styles, "xl/styles.xml".spec_bytes(), "styles.xml".spec_bytes()),
        (n + 3, RelKind::SharedStrings, "xl/sharedStrings.xml".spec_bytes(), "sharedStrings.xml".spec_bytes()),
    ] + (if vba {
        seq![(n + 4, RelKind::VbaProject, "xl/vbaProject.bin".spec_bytes(), "vbaProject.bin".spec_bytes())]
    } else {
        Seq::empty()
    })
}

pub open spec fn no_rels() -> Seq<RelView> {
    Seq::empty()
}

/// The parts written before the sheets.
pub open spec fn head_parts(n: nat, vba: bool) -> Seq<PartView> {
    seq![
        ("[Content_Types].xml".spec_bytes(), no_rels()),
        ("docProps/core.xml".spec_bytes(), no_rels()),
        ("docProps/app.xml".spec_bytes(), no_rels()),
    ] + (if vba {
        seq![("xl/vbaProject.bin".spec_bytes(), no_rels())]
    } else {
        Seq::empty()
    }) + seq![
        ("_rels/.rels".spec_bytes(), root_relationships()),
        ("xl/_rels/workbook.xml.rels".spec_bytes(), workbook_relationships(n, vba)),
        ("xl/theme/theme1.xml".spec_bytes(), no_rels()),
        ("xl/workbook.xml".spec_bytes(), no_rels()),
    ]
}

/// The parts written after the sheets.
pub open spec fn tail_parts() -> Seq<PartView> {
    seq![("xl/sharedStrings.xml".spec_bytes(), no_rels()), ("xl/styles.xml".spec_bytes(), no_rels())]
}

/// Every part of the package of these sheets, in the order written.
pub open spec fn package_parts(s: Seq<SheetShape>, vba: bool) -> Seq<PartView> {
    head_parts(s.len(), vba) + sheets_parts(s, s.len()) + tail_parts()
}

/// The counters that number drawings, charts, comment parts and pictures
/// across one assembly run. Each starts at 1 and only goes up.
pub struct IdAllocator {
    drawing: u64,
    chart: u64,
    comment: u64,
    image: u64,
}

impl View for IdAllocator {
    /// The next drawing, chart, comment and picture numbers.
    type V = (nat, nat, nat, nat);

    closed spec fn view(&self) -> (nat, nat, nat, nat) {
        (self.drawing as nat, self.chart as nat, self.comment as nat, self.image as nat)
    }
}

impl IdAllocator {
    pub fn new() -> (r: IdAllocator)
        ensures
            r@ == (1nat, 1nat, 1nat, 1nat),
    {
        IdAllocator { drawing: 1, chart: 1, comment: 1, image: 1 }
    }

    pub fn peek_drawing(&self) -> (r: u64)
        ensures
            r == self@.0,
    {
        self.drawing
    }

    pub fn peek_chart(&self) -> (r: u64)
        ensures
            r == self@.1,
    {
        self.chart
    }

    pub fn peek_comment(&self) -> (r: u64)
        ensures
            r == self@.2,
    {
        self.comment
    }

    pub fn peek_image(&self) -> (r: u64)
        ensures
            r == self@.3,
    {
        self.image
    }

    pub fn advance_drawing(&mut self)
        requires
            old(self)@.0 < u64::MAX,
        ensures
            final(self)@ == (old(self)@.0 + 1, old(self)@.1, old(self)@.2, old(self)@.3),
    {
        self.drawing = self.drawing + 1;
    }

    pub fn advance_chart(&mut self)
        requires
            old(self)@.1 < u64::MAX,
        ensures
            final(self)@ == (old(self)@.0, old(self)@.1 + 1, old(self)@.2, old(self)@.3),
    {
        self.chart = self.chart + 1;
    }

    pub fn advance_comment(&mut self)
        requires
            old(self)@.2 < u64::MAX,
        ensures
            final(self)@ == (old(self)@.0, old(self)@.1, old(self)@.2 + 1, old(self)@.3),
    {
        self.comment = self.comment + 1;
    }

    pub fn advance_image(&mut self)
        requires
            old(self)@.3 < u64::MAX,
        ensures
            final(self)@ == (old(self)@.0, old(self)@.1, old(self)@.2, old(self)@.3 + 1),
    {
        self.image = self.image + 1;
    }
}

/// The text `prefix`, `n` in decimal, `suffix`.
pub fn numbered_path(prefix: &str, n: u64, suffix: &str) -> (r: Vec<u8>)
    ensures
        r@ == numbered(prefix, n as nat, suffix),
{
    let mut r = bytes_of(prefix);
    push_decimal(&mut r, n);
    append(&mut r, suffix.as_bytes());
    r
}

fn relationship(id: u64, kind: RelKind, part: Vec<u8>, target: Vec<u8>) -> (r: Relationship)
    ensures
        r@ == (id as nat, kind, part@, target@),
{
    Relationship { id, kind, part, target }
}

/// `after` starts with the entries of `before`.
pub open spec fn keeps_prefix(before: Seq<PartEntry>, after: Seq<PartEntry>) -> bool {
    &&& before.len() <= after.len()
    &&& forall|i: int| 0 <= i < before.len() ==> after[i] == before[i]
}

fn push_part(
    parts: &mut Vec<PartEntry>,
    path: Vec<u8>,
    relationships: Vec<Relationship>,
    source: PartSource,
)
    ensures
        parts_view(final(parts)@) == parts_view(old(parts)@).push((path@, rels_view(relationships@))),
        keeps_prefix(old(parts)@, final(parts)@),
        final(parts)@[old(parts)@.len() as int].source == source,
{
    parts.push(PartEntry { path, relationships, source });
    assert(parts_view(parts@) =~= parts_view(old(parts)@).push((path@, rels_view(relationships@))));
}

/// The relationships a sheet's drawing lists: its charts, numbered from the
/// allocator's next chart, then its pictures, numbered from its next picture.
fn drawing_rels(w: &Worksheet, ids: &IdAllocator) -> (r: Vec<Relationship>)
    requires
        ids@.1 + w.charts@.len() < u64::MAX,
        ids@.3 + w.pictures@.len() < u64::MAX,
        w.charts@.len() + w.pictures@.len() < u64::MAX,
    ensures
        rels_view(r@) == drawing_relationships(w.shape(), ids@.1, ids@.3),
{
    let k = ids.peek_chart();
    let m = ids.peek_image();
    let mut rels: Vec<Relationship> = Vec::new();
    let mut j: usize = 0;
    while j < w.charts.len()
        invariant
            0 <= j <= w.charts@.len(),
            k == ids@.1,
            k + w.charts@.len() < u64::MAX,
            rels_view(rels@) =~= Seq::new(
                j as nat,
                |i: int| ((i + 1) as nat, RelKind::Chart, chart_path((k + i) as nat), numbered("../charts/chart", (k + i) as nat, ".xml")),
            ),
        decreases w.charts@.len() - j,
    {
        let id = k + j as u64;
        let r = relationship(
            (j + 1) as u64,
            RelKind::Chart,
            numbered_path("xl/charts/chart", id, ".xml"),
            numbered_path("../charts/chart", id, ".xml"),
        );
        let ghost prev = rels_view(rels@);
        rels.push(r);
        assert(rels_view(rels@) =~= prev.push(r@));
        j = j + 1;
    }
    let ghost charts_part = rels_view(rels@);
    let c = w.charts.len();
    let mut j: usize = 0;
    while j < w.pictures.len()
        invariant
            0 <= j <= w.pictures@.len(),
            m == ids@.3,
            c == w.charts@.len(),
            c + w.pictures@.len() < u64::MAX,
            m + w.pictures@.len() < u64::MAX,
            rels_view(rels@) =~= charts_part + Seq::new(
                j as nat,
                |i: int| ((c + i + 1) as nat, RelKind::Image, image_path((m + i) as nat), numbered("../media/image", (m + i) as nat, ".png")),
            ),
        decreases w.pictures@.len() - j,
    {
        let id = m + j as u64;
        let r = relationship(
            (c as u64) + (j as u64) + 1,
            RelKind::Image,
            numbered_path("xl/media/image", id, ".png"),
            numbered_path("../media/image", id, ".png"),
        );
        let ghost prev = rels_view(rels@);
        rels.push(r);
        assert(rels_view(rels@) =~= prev.push(r@));
        j = j + 1;
    }
    rels
}

/// The relationships a sheet lists: its drawing, then its comments and their
/// legacy drawing, numbered by the allocator's next drawing and comment.
fn sheet_rels(w: &Worksheet, ids: &IdAllocator) -> (r: Vec<Relationship>)
    ensures
        rels_view(r@) == sheet_relationships(w.shape(), ids@.0, ids@.2),
{
    let d = ids.peek_drawing();
    let c = ids.peek_comment();
    let mut rels: Vec<Relationship> = Vec::new();
    let mut first: u64 = 0;
    if w.has_drawing_object() {
        rels.push(
            relationship(
                1,
                RelKind::Drawing,
                numbered_path("xl/drawings/drawing", d, ".xml"),
                numbered_path("../drawings/drawing", d, ".xml"),
            ),
        );
        first = 1;
    }
    let ghost drawing_part = rels_view(rels@);
    if w.has_comments() {
        let a = relationship(
            first + 1,
            RelKind::Comments,
            numbered_path("xl/comments/comment", c, ".xml"),
            numbered_path("../comments/comment", c, ".xml"),
        );
        let b = relationship(
            first + 2,
            RelKind::VmlDrawing,
            numbered_path("xl/drawings/vmlDrawing", c, ".vml"),
            numbered_path("../drawings/vmlDrawing", c, ".vml"),
        );
        rels.push(a);
        rels.push(b);
        assert(rels_view(rels@) =~= drawing_part + seq![a@, b@]);
    }
    assert(rels_view(rels@) =~= sheet_relationships(w.shape(), ids@.0, ids@.2));
    rels
}

/// Appends the parts of the sheet numbered `n`, numbering its drawing,
/// comments, charts and pictures by the allocator, and advances it: the
/// drawing and comment numbers once where the sheet owns such objects, the
/// chart and picture numbers once for each one.
pub fn append_sheet_parts(
    parts: &mut Vec<PartEntry>,
    w: &Worksheet,
    index: usize,
    n: u64,
    ids: &mut IdAllocator,
)
    requires
        old(ids)@.0 < u64::MAX,
        old(ids)@.2 < u64::MAX,
        old(ids)@.1 + w.charts@.len() < u64::MAX,
        old(ids)@.3 + w.pictures@.len() < u64::MAX,
        w.charts@.len() + w.pictures@.len() < u64::MAX,
    ensures
        keeps_prefix(old(parts)@, final(parts)@),
        parts_view(final(parts)@) == parts_view(old(parts)@) + sheet_parts(
            w.shape(),
            n as nat,
            old(ids)@.0,
            old(ids)@.2,
            old(ids)@.1,
            old(ids)@.3,
        ),
        final(ids)@ == (
            old(ids)@.0 + if has_drawing(w.shape()) {
                1nat
            } else {
                0nat
            },
            old(ids)@.1 + w.charts@.len(),
            old(ids)@.2 + if has_comments(w.shape()) {
                1nat
            } else {
                0nat
            },
            old(ids)@.3 + w.pictures@.len(),
        ),
{
    let ghost ws = w.shape();
    let ghost i0 = ids@;
    push_part(parts, numbered_path("xl/worksheets/sheet", n, ".xml"), Vec::new(), PartSource::Worksheet(index));
    assert(rels_view(Seq::<Relationship>::empty()) =~= Seq::<RelView>::empty());
    let rels = sheet_rels(w, ids);
    if rels.len() > 0 {
        push_part(
            parts,
            numbered_path("xl/worksheets/_rels/sheet", n, ".xml.rels"),
            rels,
            PartSource::Relationships,
        );
    }
    if w.has_drawing_object() {
        let d = ids.peek_drawing();
        push_part(parts, numbered_path("xl/drawings/drawing", d, ".xml"), Vec::new(), PartSource::Drawing(index));
        let drels = drawing_rels(w, ids);
        push_part(
            parts,
            numbered_path("xl/drawings/_rels/drawing", d, ".xml.rels"),
            drels,
            PartSource::Relationships,
        );
        ids.advance_drawing();
    }
    if w.has_comments() {
        let c = ids.peek_comment();
        push_part(parts, numbered_path("xl/comments/comment", c, ".xml"), Vec::new(), PartSource::Comments(index));
        push_part(
            parts,
            numbered_path("xl/drawings/vmlDrawing", c, ".vml"),
            Vec::new(),
            PartSource::VmlDrawing(index),
        );
        ids.advance_comment();
    }
    let ghost before_charts = parts_view(parts@);
    let ghost mid = ids@;
    let mut j: usize = 0;
    while j < w.charts.len()
        invariant
            0 <= j <= w.charts@.len(),
            ids@ == (mid.0, (i0.1 + j) as nat, mid.2, mid.3),
            keeps_prefix(old(parts)@, parts@),
            i0.1 + w.charts@.len() < u64::MAX,
            parts_view(parts@) =~= before_charts + Seq::new(
                j as nat,
                |k: int| (chart_path(i0.1 + k as nat), Seq::<RelView>::empty()),
            ),
        decreases w.charts@.len() - j,
    {
        let k = ids.peek_chart();
        push_part(
            parts,
            numbered_path("xl/charts/chart", k, ".xml"),
            Vec::new(),
            PartSource::Chart(index, j),
        );
        assert(rels_view(Seq::<Relationship>::empty()) =~= Seq::<RelView>::empty());
        ids.advance_chart();
        j = j + 1;
    }
    let ghost before_pictures = parts_view(parts@);
    let mut j: usize = 0;
    while j < w.pictures.len()
        invariant
            0 <= j <= w.pictures@.len(),
            ids@ == (mid.0, i0.1 + w.charts@.len(), mid.2, (i0.3 + j) as nat),
            keeps_prefix(old(parts)@, parts@),
            i0.3 + w.pictures@.len() < u64::MAX,
            parts_view(parts@) =~= before_pictures + Seq::new(
                j as nat,
                |k: int| (image_path(i0.3 + k as nat), Seq::<RelView>::empty()),
            ),
        decreases w.pictures@.len() - j,
    {
        let m = ids.peek_image();
        push_part(
            parts,
            numbered_path("xl/media/image", m, ".png"),
            Vec::new(),
            PartSource::Image(index, j),
        );
        assert(rels_view(Seq::<Relationship>::empty()) =~= Seq::<RelView>::empty());
        ids.advance_image();
        j = j + 1;
    }
    assert(parts_view(parts@) =~= parts_view(old(parts)@) + sheet_parts(ws, n as nat, i0.0, i0.2, i0.1, i0.3));
}

/// The counts of a document are small enough for its numbers to fit in
/// `u64`.
pub open spec fn counts_fit(s: Seq<SheetShape>) -> bool {
    charts_before(s, s.len()) + pictures_before(s, s.len()) + s.len() + 8 < u64::MAX
}

pub proof fn lemma_before_monotone(s: Seq<SheetShape>, i: nat, j: nat)
    requires
        i <= j <= s.len(),
    ensures
        charts_before(s, i) <= charts_before(s, j),
        pictures_before(s, i) <= pictures_before(s, j),
        drawings_before(s, j) <= j,
        comment_sheets_before(s, j) <= j,
    decreases j,
{
    if j > 0 {
        if i < j {
            lemma_before_monotone(s, i, (j - 1) as nat);
        } else {
            lemma_before_monotone(s, (j - 1) as nat, (j - 1) as nat);
        }
    }
}

/// A single sheet's charts and pictures fit the numbers of its drawing.
pub proof fn lemma_sheet_counts_fit(s: Seq<SheetShape>, i: nat)
    requires
        counts_fit(s),
        i < s.len(),
    ensures
        s[i as int].charts + s[i as int].pictures < u64::MAX,
{
    lemma_before_monotone(s, i + 1, s.len());
}

fn fixed_part(parts: &mut Vec<PartEntry>, path: &str, source: PartSource)
    ensures
        parts_view(final(parts)@) == parts_view(old(parts)@).push((path.spec_bytes(), no_rels())),
        keeps_prefix(old(parts)@, final(parts)@),
        final(parts)@[old(parts)@.len() as int].source == source,
{
    push_part(parts, bytes_of(path), Vec::new(), source);
    assert(rels_view(Seq::<Relationship>::empty()) =~= no_rels());
}

fn fixed_relationship(id: u64, kind: RelKind, part: &str, target: &str) -> (r: Relationship)
    ensures
        r@ == (id as nat, kind, part.spec_bytes(), target.spec_bytes()),
{
    relationship(id, kind, bytes_of(part), bytes_of(target))
}

fn workbook_rels(n: u64, vba: bool) -> (r: Vec<Relationship>)
    requires
        n + 4 < u64::MAX,
    ensures
        rels_view(r@) == workbook_relationships(n as nat, vba),
{
    let mut rels: Vec<Relationship> = Vec::new();
    let mut j: u64 = 0;
    while j < n
        invariant
            0 <= j <= n,
            n + 4 < u64::MAX,
            rels_view(rels@) =~= Seq::new(
                j as nat,
                |i: int| ((i + 1) as nat, RelKind::Worksheet, sheet_path((i + 1) as nat), numbered("worksheets/sheet", (i + 1) as nat, ".xml")),
            ),
        decreases n - j,
    {
        let r = relationship(
            j + 1,
            RelKind::Worksheet,
            numbered_path("xl/worksheets/sheet", j + 1, ".xml"),
            numbered_path("worksheets/sheet", j + 1, ".xml"),
        );
        let ghost prev = rels_view(rels@);
        rels.push(r);
        assert(rels_view(rels@) =~= prev.push(r@));
        j = j + 1;
    }
    let ghost sheets = rels_view(rels@);
    let a = fixed_relationship(n + 1, RelKind::Theme, "xl/theme/theme1.xml", "theme/theme1.xml");
    let b = fixed_relationship(n + 2, RelKind::Styles, "xl/styles.xml", "styles.xml");
    let c = fixed_relationship(n + 3, RelKind::SharedStrings, "xl/sharedStrings.xml", "sharedStrings.xml");
    rels.push(a);
    rels.push(b);
    rels.push(c);
    assert(rels_view(rels@) =~= sheets + seq![a@, b@, c@]);
    if vba {
        let d = fixed_relationship(n + 4, RelKind::VbaProject, "xl/vbaProject.bin", "vbaProject.bin");
        rels.push(d);
        assert(rels_view(rels@) =~= sheets + seq![a@, b@, c@] + seq![d@]);
    }
    assert(rels_view(rels@) =~= workbook_relationships(n as nat, vba));
    rels
}

/// Lays out the package of a document: every part in the order it is
/// written, with the relationships of each `.rels` part.
pub fn plan_parts(book: &Spreadsheet) -> (r: Vec<PartEntry>)
    requires
        counts_fit(shapes(book.sheets@)),
    ensures
        parts_view(r@) == package_parts(shapes(book.sheets@), book.vba_project is Some),
        r@[1].source == PartSource::CoreProperties,
{
    let ghost s = shapes(book.sheets@);
    let n = book.sheets.len();
    let vba = book.vba_project.is_some();
    let mut parts: Vec<PartEntry> = Vec::new();
    fixed_part(&mut parts, "[Content_Types].xml", PartSource::ContentTypes);
    fixed_part(&mut parts, "docProps/core.xml", PartSource::CoreProperties);
    fixed_part(&mut parts, "docProps/app.xml", PartSource::AppProperties);
    if vba {
        fixed_part(&mut parts, "xl/vbaProject.bin", PartSource::VbaProject);
    }
    let mut root: Vec<Relationship> = Vec::new();
    let a = fixed_relationship(1, RelKind::OfficeDocument, "xl/workbook.xml", "xl/workbook.xml");
    let b = fixed_relationship(2, RelKind::CoreProperties, "docProps/core.xml", "docProps/core.xml");
    let c = fixed_relationship(3, RelKind::ExtendedProperties, "docProps/app.xml", "docProps/app.xml");
    root.push(a);
    root.push(b);
    root.push(c);
    assert(rels_view(root@) =~= root_relationships());
    push_part(&mut parts, bytes_of("_rels/.rels"), root, PartSource::Relationships);
    push_part(
        &mut parts,
        bytes_of("xl/_rels/workbook.xml.rels"),
        workbook_rels(n as u64, vba),
        PartSource::Relationships,
    );
    fixed_part(&mut parts, "xl/theme/theme1.xml", PartSource::Theme);
    fixed_part(&mut parts, "xl/workbook.xml", PartSource::Workbook);
    let ghost head = parts_view(parts@);
    assert(head =~= head_parts(s.len(), vba));
    let mut ids = IdAllocator::new();
    let mut i: usize = 0;
    while i < n
        invariant
            0 <= i <= n,
            n == book.sheets@.len(),
            s == shapes(book.sheets@),
            counts_fit(s),
            parts_view(parts@) =~= head + sheets_parts(s, i as nat),
            parts@.len() > 1,
            parts@[1].source == PartSource::CoreProperties,
            ids@ == (
                drawings_before(s, i as nat) + 1,
                charts_before(s, i as nat) + 1,
                comment_sheets_before(s, i as nat) + 1,
                pictures_before(s, i as nat) + 1,
            ),
        decreases n - i,
    {
        proof {
            lemma_before_monotone(s, (i + 1) as nat, s.len());
            lemma_before_monotone(s, i as nat, s.len());
            lemma_before_monotone(s, i as nat, i as nat);
            assert(s[i as int] == book.sheets@[i as int].shape());
        }
        let w = &book.sheets[i];
        append_sheet_parts(&mut parts, w, i, (i + 1) as u64, &mut ids);
        i = i + 1;
    }
    fixed_part(&mut parts, "xl/sharedStrings.xml", PartSource::SharedStrings);
    fixed_part(&mut parts, "xl/styles.xml", PartSource::Styles);
    assert(parts_view(parts@) =~= package_parts(s, vba));
    parts
}

/// Some part of `parts` has the archive path `path`.
pub open spec fn has_part(parts: Seq<PartView>, path: Seq<u8>) -> bool {
    exists|q: int| 0 <= q < parts.len() && (#[trigger] parts[q]).0 == path
}

/// Every relationship listed by a part of `parts` points at a part of
/// `parts`.
pub open spec fn relationships_resolve(parts: Seq<PartView>) -> bool {
    forall|p: int, r: int|
        0 <= p < parts.len() && 0 <= r < parts[p].1.len() ==> has_part(
            parts,
            (#[trigger] parts[p].1[r]).2,
        )
}

proof fn lemma_has_part_concat(a: Seq<PartView>, b: Seq<PartView>, path: Seq<u8>)
    ensures
        has_part(a, path) ==> has_part(a + b, path),
        has_part(b, path) ==> has_part(a + b, path),
{
    if has_part(a, path) {
        let q = choose|q: int| 0 <= q < a.len() && (#[trigger] a[q]).0 == path;
        assert((a + b)[q] == a[q]);
    }
    if has_part(b, path) {
        let q = choose|q: int| 0 <= q < b.len() && (#[trigger] b[q]).0 == path;
        assert((a + b)[a.len() + q] == b[q]);
    }
}

/// A relationship of `a` or `b` that resolves within its own list resolves
/// in `a + b`.
proof fn lemma_resolve_concat(a: Seq<PartView>, b: Seq<PartView>)
    requires
        relationships_resolve(a),
        relationships_resolve(b),
    ensures
        relationships_resolve(a + b),
{
    let ab = a + b;
    assert forall|p: int, r: int| 0 <= p < ab.len() && 0 <= r < ab[p].1.len() implies has_part(
        ab,
        (#[trigger] ab[p].1[r]).2,
    ) by {
        if p < a.len() {
            assert(ab[p] == a[p]);
            assert(has_part(a, a[p].1[r].2));
            lemma_has_part_concat(a, b, a[p].1[r].2);
        } else {
            assert(ab[p] == b[p - a.len()]);
            assert(has_part(b, b[p - a.len()].1[r].2));
            lemma_has_part_concat(a, b, b[p - a.len()].1[r].2);
        }
    }
}

/// Within one sheet's parts, every relationship points at a part of the
/// same sheet.
proof fn lemma_sheet_parts_resolve(w: SheetShape, n: nat, d: nat, c: nat, k: nat, m: nat)
    ensures
        relationships_resolve(sheet_parts(w, n, d, c, k, m)),
{
    let rels = sheet_relationships(w, d, c);
    let a0 = seq![(sheet_path(n), Seq::<RelView>::empty())];
    let a1 = if rels.len() > 0 {
        seq![(sheet_rels_path(n), rels)]
    } else {
        Seq::empty()
    };
    let a2 = if has_drawing(w) {
        seq![(drawing_path(d), Seq::<RelView>::empty()), (drawing_rels_path(d), drawing_relationships(w, k, m))]
    } else {
        Seq::empty()
    };
    let a3 = if has_comments(w) {
        seq![(comments_path(c), Seq::<RelView>::empty()), (vml_drawing_path(c), Seq::<RelView>::empty())]
    } else {
        Seq::empty()
    };
    let a4 = Seq::new(w.charts, |j: int| (chart_path(k + j as nat), Seq::<RelView>::empty()));
    let a5 = Seq::new(w.pictures, |j: int| (image_path(m + j as nat), Seq::<RelView>::empty()));
    let sp = sheet_parts(w, n, d, c, k, m);
    assert(sp == a0 + a1 + a2 + a3 + a4 + a5);
    let o1 = a0.len() as int;
    let o2 = o1 + a1.len();
    let o3 = o2 + a2.len();
    let o4 = o3 + a3.len();
    let o5 = o4 + a4.len();
    assert forall|p: int, r: int| 0 <= p < sp.len() && 0 <= r < sp[p].1.len() implies has_part(
        sp,
        (#[trigger] sp[p].1[r]).2,
    ) by {
        if p < o1 {
            assert(sp[p] == a0[p]);
        } else if p < o2 {
            assert(sp[p] == a1[p - o1]);
            let t = rels[r];
            if has_drawing(w) && r == 0 {
                assert(sp[o2] == a2[0]);
            } else {
                let first: int = if has_drawing(w) {
                    1
                } else {
                    0
                };
                assert(has_comments(w));
                assert(sp[o3] == a3[0]);
                assert(sp[o3 + 1] == a3[1]);
                if r == first {
                    assert(sp[o3].0 == t.2);
                } else {
                    assert(sp[o3 + 1].0 == t.2);
                }
            }
        } else if p < o3 {
            assert(sp[p] == a2[p - o2]);
            assert(p == o2 + 1);
            let dr = drawing_relationships(w, k, m);
            if r < w.charts {
                assert(sp[o4 + r] == a4[r]);
                assert(sp[o4 + r].0 == dr[r].2);
            } else {
                assert(sp[o5 + (r - w.charts)] == a5[r - w.charts]);
                assert(sp[o5 + (r - w.charts)].0 == dr[r].2);
            }
        } else if p < o4 {
            assert(sp[p] == a3[p - o3]);
        } else if p < o5 {
            assert(sp[p] == a4[p - o4]);
        } else {
            assert(sp[p] == a5[p - o5]);
        }
    }
}

proof fn lemma_sheets_parts_resolve(s: Seq<SheetShape>, i: nat)
    requires
        i <= s.len(),
    ensures
        relationships_resolve(sheets_parts(s, i)),
    decreases i,
{
    if i == 0 {
        assert(sheets_parts(s, 0) =~= Seq::<PartView>::empty());
    } else {
        let j = (i - 1) as nat;
        lemma_sheets_parts_resolve(s, j);
        lemma_sheet_parts_resolve(
            s[j as int],
            i,
            drawings_before(s, j) + 1,
            comment_sheets_before(s, j) + 1,
            charts_before(s, j) + 1,
            pictures_before(s, j) + 1,
        );
        lemma_resolve_concat(
            sheets_parts(s, j),
            sheet_parts(
                s[j as int],
                i,
                drawings_before(s, j) + 1,
                comment_sheets_before(s, j) + 1,
                charts_before(s, j) + 1,
                pictures_before(s, j) + 1,
            ),
        );
    }
}

proof fn lemma_sheet_listed(s: Seq<SheetShape>, i: nat, j: nat)
    requires
        j < i <= s.len(),
    ensures
        has_part(sheets_parts(s, i), sheet_path(j + 1)),
    decreases i,
{
    let h = (i - 1) as nat;
    let sp = sheet_parts(
        s[h as int],
        i,
        drawings_before(s, h) + 1,
        comment_sheets_before(s, h) + 1,
        charts_before(s, h) + 1,
        pictures_before(s, h) + 1,
    );
    if j == h {
        assert(sp[0].0 == sheet_path(i));
        lemma_has_part_concat(sheets_parts(s, h), sp, sheet_path(j + 1));
    } else {
        lemma_sheet_listed(s, h, j);
        lemma_has_part_concat(sheets_parts(s, h), sp, sheet_path(j + 1));
    }
}

/// Every relationship that any part of a package lists points at a part
/// that the package holds: no `.rels` entry dangles.
pub proof fn lemma_relationships_complete(s: Seq<SheetShape>, vba: bool)
    ensures
        relationships_resolve(package_parts(s, vba)),
{
    let n = s.len();
    let h = head_parts(n, vba);
    let sh = sheets_parts(s, n);
    let t = tail_parts();
    let all = package_parts(s, vba);
    assert(all == h + sh + t);
    lemma_sheets_parts_resolve(s, n);
    let v: int = if vba {
        1
    } else {
        0
    };
    assert forall|p: int, r: int| 0 <= p < all.len() && 0 <= r < all[p].1.len() implies has_part(
        all,
        (#[trigger] all[p].1[r]).2,
    ) by {
        if p < h.len() {
            assert(all[p] == h[p]);
            assert(all[6 + v] == h[6 + v]);
            assert(all[5 + v] == h[5 + v]);
            assert(all[1] == h[1]);
            assert(all[2] == h[2]);
            if p == 3 + v {
                let rr = root_relationships();
                if r == 0 {
                    assert(all[6 + v].0 == rr[0].2);
                } else if r == 1 {
                    assert(all[1].0 == rr[1].2);
                } else {
                    assert(all[2].0 == rr[2].2);
                }
            } else {
                assert(p == 4 + v);
                let wr = workbook_relationships(n, vba);
                if r < n {
                    assert(wr[r].2 == sheet_path((r + 1) as nat));
                    lemma_sheet_listed(s, n, r as nat);
                    lemma_has_part_concat(h, sh, wr[r].2);
                    lemma_has_part_concat(h + sh, t, wr[r].2);
                } else if r == n {
                    assert(all[5 + v].0 == wr[r].2);
                } else if r == n + 1 {
                    assert(all[h.len() + sh.len() + 1int] == t[1]);
                    assert(all[h.len() + sh.len() + 1int].0 == wr[r].2);
                } else if r == n + 2 {
                    assert(all[(h.len() + sh.len()) as int] == t[0]);
                    assert(all[(h.len() + sh.len()) as int].0 == wr[r].2);
                } else {
                    assert(all[3] == h[3]);
                    assert(all[3].0 == wr[r].2);
                }
            }
        } else if p < h.len() + sh.len() {
            let q = p - h.len();
            assert(all[p] == sh[q]);
            assert(has_part(sh, sh[q].1[r].2));
            lemma_has_part_concat(h, sh, sh[q].1[r].2);
            lemma_has_part_concat(h + sh, t, sh[q].1[r].2);
        } else {
            assert(all[p] == t[p - h.len() - sh.len()]);
        }
    }
}

/// The numbers that the charts of the first `i` sheets take, sheet by sheet
/// and, within a sheet, in the order of its charts.
pub open spec fn chart_numbers(s: Seq<SheetShape>, i: nat) -> Seq<nat>
    decreases i,
{
    if i == 0 {
        Seq::empty()
    } else {
        let j = (i - 1) as nat;
        chart_numbers(s, j) + Seq::new(s[j as int].charts, |k: int| charts_before(s, j) + 1 + k as nat)
    }
}

/// The drawing numbers that the first `i` sheets take: one for each sheet
/// that owns a drawing.
pub open spec fn drawing_numbers(s: Seq<SheetShape>, i: nat) -> Seq<nat>
    decreases i,
{
    if i == 0 {
        Seq::empty()
    } else {
        let j = (i - 1) as nat;
        drawing_numbers(s, j) + if has_drawing(s[j as int]) {
            seq![drawings_before(s, j) + 1]
        } else {
            Seq::empty()
        }
    }
}

/// The comment numbers that the first `i` sheets take: one for each sheet
/// that owns comments.
pub open spec fn comment_numbers(s: Seq<SheetShape>, i: nat) -> Seq<nat>
    decreases i,
{
    if i == 0 {
        Seq::empty()
    } else {
        let j = (i - 1) as nat;
        comment_numbers(s, j) + if has_comments(s[j as int]) {
            seq![comment_sheets_before(s, j) + 1]
        } else {
            Seq::empty()
        }
    }
}

/// The numbers `1..=count`, in order.
pub open spec fn one_to(count: nat) -> Seq<nat> {
    Seq::new(count, |x: int| (x + 1) as nat)
}

/// Across one assembly the charts take exactly the numbers `1..=total`, in
/// sheet order then declaration order, with no gap and no repeat; drawings
/// and comment parts take `1..`, one number for each sheet that owns them and
/// none for the others.
pub proof fn lemma_identifiers_consecutive(s: Seq<SheetShape>, i: nat)
    requires
        i <= s.len(),
    ensures
        chart_numbers(s, i) == one_to(charts_before(s, i)),
        drawing_numbers(s, i) == one_to(drawings_before(s, i)),
        comment_numbers(s, i) == one_to(comment_sheets_before(s, i)),
    decreases i,
{
    if i == 0 {
        assert(chart_numbers(s, 0) =~= one_to(0));
        assert(drawing_numbers(s, 0) =~= one_to(0));
        assert(comment_numbers(s, 0) =~= one_to(0));
    } else {
        let j = (i - 1) as nat;
        lemma_identifiers_consecutive(s, j);
        assert(chart_numbers(s, i) =~= one_to(charts_before(s, i)));
        assert(drawing_numbers(s, i) =~= one_to(drawings_before(s, i)));
        assert(comment_numbers(s, i) =~= one_to(comment_sheets_before(s, i)));
    }
}

/// The parts of one sheet hold its drawing (where it owns one), its
/// comments (where it owns some), and a chart part for each of its charts,
/// numbered from `k`.
proof fn lemma_sheet_parts_hold(w: SheetShape, n: nat, d: nat, c: nat, k: nat, m: nat)
    ensures
        has_drawing(w) ==> has_part(sheet_parts(w, n, d, c, k, m), drawing_path(d)),
        has_comments(w) ==> has_part(sheet_parts(w, n, d, c, k, m), comments_path(c)),
        forall|j: nat|
            j < w.charts ==> has_part(sheet_parts(w, n, d, c, k, m), #[trigger] chart_path(k + j)),
{
    let rels = sheet_relationships(w, d, c);
    let a0 = seq![(sheet_path(n), Seq::<RelView>::empty())];
    let a1 = if rels.len() > 0 {
        seq![(sheet_rels_path(n), rels)]
    } else {
        Seq::empty()
    };
    let a2 = if has_drawing(w) {
        seq![(drawing_path(d), Seq::<RelView>::empty()), (drawing_rels_path(d), drawing_relationships(w, k, m))]
    } else {
        Seq::empty()
    };
    let a3 = if has_comments(w) {
        seq![(comments_path(c), Seq::<RelView>::empty()), (vml_drawing_path(c), Seq::<RelView>::empty())]
    } else {
        Seq::empty()
    };
    let a4 = Seq::new(w.charts, |j: int| (chart_path(k + j as nat), Seq::<RelView>::empty()));
    let a5 = Seq::new(w.pictures, |j: int| (image_path(m + j as nat), Seq::<RelView>::empty()));
    let sp = sheet_parts(w, n, d, c, k, m);
    assert(sp == a0 + a1 + a2 + a3 + a4 + a5);
    let o2 = a0.len() + a1.len();
    let o3 = o2 + a2.len();
    let o4 = o3 + a3.len();
    if has_drawing(w) {
        assert(sp[o2 as int] == a2[0]);
    }
    if has_comments(w) {
        assert(sp[o3 as int] == a3[0]);
    }
    assert forall|j: nat| j < w.charts implies has_part(sp, #[trigger] chart_path(k + j)) by {
        assert(sp[(o4 + j) as int] == a4[j as int]);
    }
}

/// Every number up to the count of charts, drawings and comment parts of the
/// first `i` sheets names a part of those sheets.
proof fn lemma_sheets_parts_hold(s: Seq<SheetShape>, i: nat)
    requires
        i <= s.len(),
    ensures
        forall|x: nat|
            1 <= x <= charts_before(s, i) ==> has_part(sheets_parts(s, i), #[trigger] chart_path(x)),
        forall|x: nat|
            1 <= x <= drawings_before(s, i) ==> has_part(sheets_parts(s, i), #[trigger] drawing_path(x)),
        forall|x: nat|
            1 <= x <= comment_sheets_before(s, i) ==> has_part(
                sheets_parts(s, i),
                #[trigger] comments_path(x),
            ),
    decreases i,
{
    if i > 0 {
        let j = (i - 1) as nat;
        lemma_sheets_parts_hold(s, j);
        let d = drawings_before(s, j) + 1;
        let c = comment_sheets_before(s, j) + 1;
        let k = charts_before(s, j) + 1;
        let m = pictures_before(s, j) + 1;
        let prev = sheets_parts(s, j);
        let sp = sheet_parts(s[j as int], i, d, c, k, m);
        lemma_sheet_parts_hold(s[j as int], i, d, c, k, m);
        assert forall|x: nat| 1 <= x <= charts_before(s, i) implies has_part(
            sheets_parts(s, i),
            #[trigger] chart_path(x),
        ) by {
            if x <= charts_before(s, j) {
                lemma_has_part_concat(prev, sp, chart_path(x));
            } else {
                let y = (x - k) as nat;
                assert(chart_path(k + y) == chart_path(x));
                lemma_has_part_concat(prev, sp, chart_path(x));
            }
        }
        assert forall|x: nat| 1 <= x <= drawings_before(s, i) implies has_part(
            sheets_parts(s, i),
            #[trigger] drawing_path(x),
        ) by {
            lemma_has_part_concat(prev, sp, drawing_path(x));
        }
        assert forall|x: nat| 1 <= x <= comment_sheets_before(s, i) implies has_part(
            sheets_parts(s, i),
            #[trigger] comments_path(x),
        ) by {
            lemma_has_part_concat(prev, sp, comments_path(x));
        }
    }
}

/// The package holds `xl/charts/chart{x}.xml` for each `x` from 1 to the
/// number of charts, `xl/drawings/drawing{x}.xml` for each `x` from 1 to
/// the number of sheets that own a drawing, and `xl/comments/comment{x}.xml`
/// for each `x` from 1 to the number of sheets that own comments. With the
/// numbering of `lemma_identifiers_consecutive`, the charts, drawings and
/// comment parts are those numbered `1..=count`.
pub proof fn lemma_numbered_parts_present(s: Seq<SheetShape>, vba: bool)
    ensures
        forall|x: nat|
            1 <= x <= charts_before(s, s.len()) ==> has_part(package_parts(s, vba), #[trigger] chart_path(x)),
        forall|x: nat|
            1 <= x <= drawings_before(s, s.len()) ==> has_part(
                package_parts(s, vba),
                #[trigger] drawing_path(x),
            ),
        forall|x: nat|
            1 <= x <= comment_sheets_before(s, s.len()) ==> has_part(
                package_parts(s, vba),
                #[trigger] comments_path(x),
            ),
{
    let h = head_parts(s.len(), vba);
    let sh = sheets_parts(s, s.len());
    let t = tail_parts();
    assert(package_parts(s, vba) == h + sh + t);
    lemma_sheets_parts_hold(s, s.len());
    assert forall|x: nat| 1 <= x <= charts_before(s, s.len()) implies has_part(
        package_parts(s, vba),
        #[trigger] chart_path(x),
    ) by {
        lemma_has_part_concat(h, sh, chart_path(x));
        lemma_has_part_concat(h + sh, t, chart_path(x));
    }
    assert forall|x: nat| 1 <= x <= drawings_before(s, s.len()) implies has_part(
        package_parts(s, vba),
        #[trigger] drawing_path(x),
    ) by {
        lemma_has_part_concat(h, sh, drawing_path(x));
        lemma_has_part_concat(h + sh, t, drawing_path(x));
    }
    assert forall|x: nat| 1 <= x <= comment_sheets_before(s, s.len()) implies has_part(
        package_parts(s, vba),
        #[trigger] comments_path(x),
    ) by {
        lemma_has_part_concat(h, sh, comments_path(x));
        lemma_has_part_concat(h + sh, t, comments_path(x));
    }
}

} // verus!
