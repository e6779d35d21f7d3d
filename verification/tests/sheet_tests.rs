use placement_xlsx::parse::parse_placement;
use placement_xlsx::record::ParseMode;
use placement_xlsx::sheet::build_workbook;

fn cell_text(book: &umya_spreadsheet::Workbook, col: u32, row: u32) -> String {
    book.sheet(0)
        .unwrap()
        .cell((col, row))
        .map(|c| c.value().to_string())
        .unwrap_or_default()
}

#[test]
fn workbook_layout_without_metadata() {
    let input = "R1!1.0!2.0!90!!0402\nR2!3.0!4.0!180!TOP!0603\n";
    let (recs, headers, meta) = parse_placement(ParseMode::Simple, input);
    let book = build_workbook(&recs, &headers, &meta);
    let sheet = book.sheet(0).unwrap();
    assert_eq!(sheet.name(), "Placement");
    assert_eq!(cell_text(&book, 1, 1), "Designator");
    assert_eq!(cell_text(&book, 6, 1), "Footprint");
    assert_eq!(cell_text(&book, 1, 2), "R1");
    assert_eq!(cell_text(&book, 2, 2), "1.0");
    assert_eq!(cell_text(&book, 3, 2), "2.0");
    assert_eq!(cell_text(&book, 4, 2), "90");
    assert_eq!(cell_text(&book, 5, 2), "T");
    assert_eq!(cell_text(&book, 6, 2), "'0402");
    assert_eq!(cell_text(&book, 1, 3), "R2");
    assert_eq!(cell_text(&book, 5, 3), "B");
    assert_eq!(cell_text(&book, 6, 3), "'0603");
}

#[test]
fn workbook_layout_with_metadata() {
    let input = "VERSION 5.0\nUNITS mm\n# data\nC7!0.5!0.6!45!m!0201\n";
    let (recs, headers, meta) = parse_placement(ParseMode::Extended, input);
    let book = build_workbook(&recs, &headers, &meta);
    assert_eq!(cell_text(&book, 1, 1), "VERSION 5.0");
    assert_eq!(cell_text(&book, 1, 2), "UNITS mm");
    assert_eq!(cell_text(&book, 1, 3), "Designator");
    assert_eq!(cell_text(&book, 5, 3), "Layer");
    assert_eq!(cell_text(&book, 1, 4), "C7");
    assert_eq!(cell_text(&book, 5, 4), "B");
    assert_eq!(cell_text(&book, 6, 4), "'0201");
}

#[test]
fn workbook_has_no_stray_cells() {
    let (recs, headers, meta) = parse_placement(ParseMode::Simple, "R1!1!2!3!!fp\n");
    let book = build_workbook(&recs, &headers, &meta);
    let sheet = book.sheet(0).unwrap();
    assert!(sheet.cell((7, 1)).is_none());
    assert!(sheet.cell((2, 1)).is_some());
    assert!(sheet.cell((1, 3)).is_none());
    assert!(sheet.cell((6, 2)).is_some());
}

#[test]
fn workbook_has_exactly_one_sheet() {
    let (recs, headers, meta) = parse_placement(ParseMode::Simple, "R1!1!2!3!!fp\n");
    let book = build_workbook(&recs, &headers, &meta);
    assert_eq!(book.sheet_count(), 1);
    assert_eq!(book.sheet(0).unwrap().name(), "Placement");
}

#[test]
fn workbook_header_only_when_no_records() {
    let (recs, headers, meta) = parse_placement(ParseMode::Simple, "# comment\n---\n\n");
    let book = build_workbook(&recs, &headers, &meta);
    assert_eq!(cell_text(&book, 1, 1), "Designator");
    assert_eq!(cell_text(&book, 2, 1), "Mid x");
    assert_eq!(cell_text(&book, 3, 1), "Mid y");
    assert_eq!(cell_text(&book, 4, 1), "Rotation");
    assert_eq!(cell_text(&book, 5, 1), "Layer");
    assert_eq!(cell_text(&book, 6, 1), "Footprint");
    assert!(book.sheet(0).unwrap().cell((1, 2)).is_none());
}
