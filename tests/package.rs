use umya_spreadsheet::archive::package_entries;
use umya_spreadsheet::content::core_content;
use umya_spreadsheet::document::{Chart, Comment, Properties, Spreadsheet, Worksheet};
use umya_spreadsheet::effect_list::EffectList;
use umya_spreadsheet::no_multi_level_labels::NoMultiLevelLabels;
use umya_spreadsheet::package::{plan_parts, IdAllocator, PartEntry};
use umya_spreadsheet::shared_strings::SharedStringTable;

fn properties() -> Properties {
    Properties {
        title: b"T&C".to_vec(),
        subject: Vec::new(),
        creator: b"me".to_vec(),
        keywords: Vec::new(),
        description: Vec::new(),
        last_modified_by: Vec::new(),
        revision: Vec::new(),
        created: b"2006-09-16T00:00:00Z".to_vec(),
        modified: Vec::new(),
        category: Vec::new(),
        version: Vec::new(),
    }
}

fn chart() -> Chart {
    Chart { no_multi_level_labels: NoMultiLevelLabels::new(), effect_list: Some(EffectList::new()) }
}

fn sheet(name: &str, charts: usize, comments: usize) -> Worksheet {
    Worksheet {
        name: name.as_bytes().to_vec(),
        rows: vec![vec![b"x".to_vec(), b"y".to_vec()], vec![b"x".to_vec()]],
        charts: (0..charts).map(|_| chart()).collect(),
        pictures: Vec::new(),
        comments: (0..comments).map(|_| Comment { cell: b"A1".to_vec(), text: b"note".to_vec() }).collect(),
    }
}

fn book(sheets: Vec<Worksheet>) -> Spreadsheet {
    Spreadsheet { properties: properties(), sheets, vba_project: None }
}

fn paths(parts: &[PartEntry]) -> Vec<String> {
    parts.iter().map(|p| String::from_utf8(p.path.clone()).unwrap()).collect()
}

fn rels_of(parts: &[PartEntry], path: &str) -> Vec<(u64, String, String)> {
    let p = parts.iter().find(|p| p.path == path.as_bytes()).unwrap();
    p.relationships
        .iter()
        .map(|r| (r.id, String::from_utf8(r.part.clone()).unwrap(), String::from_utf8(r.target.clone()).unwrap()))
        .collect()
}

#[test]
fn chart_sheet_and_comment_sheet() {
    let b = book(vec![sheet("one", 1, 0), sheet("two", 0, 1)]);
    let parts = plan_parts(&b);
    let p = paths(&parts);
    assert_eq!(
        p,
        vec![
            "[Content_Types].xml",
            "docProps/core.xml",
            "docProps/app.xml",
            "_rels/.rels",
            "xl/_rels/workbook.xml.rels",
            "xl/theme/theme1.xml",
            "xl/workbook.xml",
            "xl/worksheets/sheet1.xml",
            "xl/worksheets/_rels/sheet1.xml.rels",
            "xl/drawings/drawing1.xml",
            "xl/drawings/_rels/drawing1.xml.rels",
            "xl/charts/chart1.xml",
            "xl/worksheets/sheet2.xml",
            "xl/worksheets/_rels/sheet2.xml.rels",
            "xl/comments/comment1.xml",
            "xl/drawings/vmlDrawing1.vml",
            "xl/sharedStrings.xml",
            "xl/styles.xml",
        ]
    );
    assert_eq!(
        rels_of(&parts, "xl/worksheets/_rels/sheet1.xml.rels"),
        vec![(1, "xl/drawings/drawing1.xml".to_string(), "../drawings/drawing1.xml".to_string())]
    );
    assert_eq!(
        rels_of(&parts, "xl/drawings/_rels/drawing1.xml.rels"),
        vec![(1, "xl/charts/chart1.xml".to_string(), "../charts/chart1.xml".to_string())]
    );
    assert_eq!(
        rels_of(&parts, "xl/worksheets/_rels/sheet2.xml.rels"),
        vec![
            (1, "xl/comments/comment1.xml".to_string(), "../comments/comment1.xml".to_string()),
            (2, "xl/drawings/vmlDrawing1.vml".to_string(), "../drawings/vmlDrawing1.vml".to_string()),
        ]
    );
    for part in parts.iter() {
        for r in part.relationships.iter() {
            assert!(parts.iter().any(|q| q.path == r.part));
        }
    }
}

#[test]
fn chart_numbers_run_across_sheets() {
    let b = book(vec![sheet("a", 2, 0), sheet("b", 0, 0), sheet("c", 1, 2)]);
    let p = paths(&plan_parts(&b));
    let charts: Vec<&String> = p.iter().filter(|s| s.starts_with("xl/charts/")).collect();
    assert_eq!(charts, vec!["xl/charts/chart1.xml", "xl/charts/chart2.xml", "xl/charts/chart3.xml"]);
    let drawings: Vec<&String> = p.iter().filter(|s| s.starts_with("xl/drawings/drawing")).collect();
    assert_eq!(drawings, vec!["xl/drawings/drawing1.xml", "xl/drawings/drawing2.xml"]);
    let comments: Vec<&String> = p.iter().filter(|s| s.starts_with("xl/comments/")).collect();
    assert_eq!(comments, vec!["xl/comments/comment1.xml"]);
    assert!(!p.contains(&"xl/worksheets/_rels/sheet2.xml.rels".to_string()));
}

#[test]
fn allocator_counts_from_one() {
    let mut ids = IdAllocator::new();
    assert_eq!(ids.peek_chart(), 1);
    ids.advance_chart();
    ids.advance_chart();
    assert_eq!(ids.peek_chart(), 3);
    assert_eq!(ids.peek_drawing(), 1);
    assert_eq!(ids.peek_comment(), 1);
}

#[test]
fn rels_part_text() {
    let b = book(vec![sheet("one", 1, 0)]);
    let entries = package_entries(&b);
    let e = entries.iter().find(|e| e.path == b"xl/drawings/_rels/drawing1.xml.rels".to_vec()).unwrap();
    let t = String::from_utf8(e.content.clone()).unwrap();
    assert_eq!(
        t,
        "<?xml version=\"1.0\" encoding=\"UTF-8\" standalone=\"yes\"?>\r\n<Relationships xmlns=\"http://schemas.openxmlformats.org/package/2006/relationships\"><Relationship Id=\"rId1\" Type=\"http://schemas.openxmlformats.org/officeDocument/2006/relationships/chart\" Target=\"../charts/chart1.xml\"/></Relationships>"
    );
}

#[test]
fn core_properties_text() {
    let t = String::from_utf8(core_content(&properties())).unwrap();
    assert!(t.starts_with("<?xml version=\"1.0\" encoding=\"UTF-8\" standalone=\"yes\"?>\r\n<cp:coreProperties xmlns:cp="));
    assert!(t.contains("<dc:title>T&amp;C</dc:title><dc:subject></dc:subject><dc:creator>me</dc:creator>"));
    assert!(t.contains("<dcterms:created xsi:type=\"dcterms:W3CDTF\">2006-09-16T00:00:00Z</dcterms:created>"));
    assert!(t.ends_with("<cp:version></cp:version></cp:coreProperties>"));
}

#[test]
fn write_makes_a_zip_archive() {
    let b = book(vec![sheet("one", 1, 0), sheet("two", 0, 1)]);
    let bytes = umya_spreadsheet::archive::write(&b).ok().unwrap();
    assert_eq!(&bytes[0..2], b"PK");
    let chart_name = b"xl/charts/chart1.xml";
    assert!(bytes.windows(chart_name.len()).any(|w| w == chart_name));
    let comment_name = b"xl/comments/comment1.xml";
    assert!(bytes.windows(comment_name.len()).any(|w| w == comment_name));
}

#[test]
fn macro_project_is_listed() {
    let mut b = book(vec![sheet("one", 0, 0)]);
    b.vba_project = Some(vec![1, 2, 3]);
    let parts = plan_parts(&b);
    assert!(paths(&parts).contains(&"xl/vbaProject.bin".to_string()));
    let rels = rels_of(&parts, "xl/_rels/workbook.xml.rels");
    assert_eq!(rels.last().unwrap(), &(5, "xl/vbaProject.bin".to_string(), "vbaProject.bin".to_string()));
}

fn content_of(b: &Spreadsheet, path: &str) -> String {
    let entries = package_entries(b);
    let e = entries.iter().find(|e| e.path == path.as_bytes().to_vec()).unwrap();
    String::from_utf8(e.content.clone()).unwrap()
}

#[test]
fn equal_texts_share_one_index() {
    let b = book(vec![sheet("one", 0, 0), sheet("two", 0, 0)]);
    let strings = content_of(&b, "xl/sharedStrings.xml");
    assert!(strings.contains("uniqueCount=\"2\""));
    assert!(strings.contains("<si><t>x</t></si><si><t>y</t></si></sst>"));
    let s2 = content_of(&b, "xl/worksheets/sheet2.xml");
    assert!(s2.contains("<sheetData><row><c t=\"s\"><v>0</v></c><c t=\"s\"><v>1</v></c></row><row><c t=\"s\"><v>0</v></c></row></sheetData>"));
}

#[test]
fn intern_is_idempotent() {
    let mut t = SharedStringTable::new();
    assert_eq!(t.intern(b"a"), 0);
    assert_eq!(t.intern(b"b"), 1);
    assert_eq!(t.intern(b"a"), 0);
    assert_eq!(t.len(), 2);
    assert_eq!(t.get(1), &b"b".to_vec());
}

#[test]
fn sheet_without_objects_has_no_rels() {
    let b = book(vec![sheet("plain", 0, 0)]);
    let p = paths(&plan_parts(&b));
    assert!(!p.iter().any(|s| s.contains("_rels/sheet")));
    let ws = content_of(&b, "xl/worksheets/sheet1.xml");
    assert!(!ws.contains("drawing"));
}

#[test]
fn sheet_with_chart_refers_to_its_drawing() {
    let b = book(vec![sheet("c", 1, 1)]);
    let ws = content_of(&b, "xl/worksheets/sheet1.xml");
    assert!(ws.contains("<drawing r:id=\"rId1\"/><legacyDrawing r:id=\"rId3\"/>"));
    let d = content_of(&b, "xl/drawings/drawing1.xml");
    assert!(d.contains("<c:chart r:id=\"rId1\"/>"));
    let wb = content_of(&b, "xl/workbook.xml");
    assert!(wb.contains("<sheet name=\"c\" sheetId=\"1\" r:id=\"rId1\"/>"));
}
