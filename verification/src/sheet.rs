//! The workbook builder: places metadata, header and data rows cell by cell
//! into a one-sheet spreadsheet workbook. The workbook itself belongs to the
//! umya_spreadsheet crate; the two trusted wrappers below are the only code
//! that touches it, and everything laid out through them is verified against
//! the cell map they describe.
use vstd::prelude::*;
use umya_spreadsheet::Workbook;
use crate::record::{PlacementEntry, RecModel, rec_views};
use crate::text::seq_views;

verus! {

#[verifier::external_type_specification]
#[verifier::external_body]
pub struct ExWorkbook(Workbook);

/// The name of the workbook's first sheet; the empty sequence when the
/// workbook has no sheet.
pub uninterp spec fn sheet_title(book: Workbook) -> Seq<char>;

/// The text cells of the workbook's first sheet, keyed by 1-based
/// (column, row); the empty map when the workbook has no sheet.
pub uninterp spec fn sheet_cells(book: Workbook) -> Map<(u32, u32), Seq<char>>;

/// How many sheets the workbook holds.
pub uninterp spec fn sheet_count(book: Workbook) -> int;

/// Relies on umya_spreadsheet::new_file, which adds exactly one sheet named
/// "Sheet1", holding no cells, to an otherwise empty workbook, and on
/// Worksheet::set_name, which stores the given name on that sheet.
#[verifier::external_body]
fn new_workbook(title: &str) -> (book: Workbook)
    ensures
        sheet_title(book) == title@,
        sheet_count(book) == 1,
        forall|col: u32, row: u32| !sheet_cells(book).contains_key((col, row)),
{
    let mut book = umya_spreadsheet::new_file();
    book.sheet_mut(0).unwrap().set_name(title);
    book
}

/// Relies on Workbook::sheet_mut, Worksheet::cell_mut and
/// Cell::set_value_string: the cell at the 1-based (col, row) of the first
/// sheet is created if absent and afterwards holds exactly the given text,
/// stored as text; no sheet is added or removed. A non-empty first-sheet
/// name witnesses that the sheet exists, so the lookup cannot fail.
#[verifier::external_body]
fn set_cell_text(book: &mut Workbook, col: u32, row: u32, value: &str)
    requires
        sheet_title(*old(book)).len() > 0,
        col >= 1,
        row >= 1,
    ensures
        sheet_cells(*final(book)) == sheet_cells(*old(book)).insert((col, row), value@),
        sheet_title(*final(book)) == sheet_title(*old(book)),
        sheet_count(*final(book)) == sheet_count(*old(book)),
{
    book.sheet_mut(0).unwrap().cell_mut((col, row)).set_value_string(value);
}

/// The field of a record that belongs in the given 1-based column.
pub open spec fn rec_field(r: RecModel, col: int) -> Seq<char> {
    if col == 1 {
        r.designator
    } else if col == 2 {
        r.mid_x
    } else if col == 3 {
        r.mid_y
    } else if col == 4 {
        r.rotation
    } else if col == 5 {
        r.layer
    } else {
        r.footprint
    }
}

/// What the sheet holds at a 1-based (column, row): metadata lines in
/// column 1 of the topmost rows, the header row right below them, then one
/// row per record with its six fields in column order — and nothing else.
pub open spec fn spec_cell_at(
    recs: Seq<RecModel>,
    headers: Seq<Seq<char>>,
    meta: Seq<Seq<char>>,
    col: u32,
    row: u32,
) -> Option<Seq<char>> {
    let c = col as int;
    let r = row as int;
    let m = meta.len() as int;
    if c == 1 && 1 <= r <= m {
        Some(meta[r - 1])
    } else if r == m + 1 && 1 <= c <= headers.len() {
        Some(headers[c - 1])
    } else if m + 2 <= r <= m + 1 + recs.len() && 1 <= c <= 6 {
        Some(rec_field(recs[r - m - 2], c))
    } else {
        None
    }
}

/// The map's entry at (col, row), if any.
pub open spec fn map_at(cells: Map<(u32, u32), Seq<char>>, col: u32, row: u32) -> Option<
    Seq<char>,
> {
    if cells.contains_key((col, row)) {
        Some(cells[(col, row)])
    } else {
        None
    }
}

/// Builds the workbook: exactly one sheet, named "Placement", holding the
/// metadata lines verbatim in column 1 starting at row 1, the header row
/// right after them, then one row per record, fields in header order — and
/// no other cell.
pub fn build_workbook(
    records: &Vec<PlacementEntry>,
    headers: &Vec<String>,
    metadata: &Vec<String>,
) -> (book: Workbook)
    requires
        metadata@.len() + records@.len() + 1 < u32::MAX as int,
        headers@.len() < u32::MAX as int,
    ensures
        sheet_title(book) == "Placement"@,
        sheet_count(book) == 1,
        forall|col: u32, row: u32|
            map_at(sheet_cells(book), col, row) == spec_cell_at(
                rec_views(records@),
                seq_views(headers@),
                seq_views(metadata@),
                col,
                row,
            ),
{
    let ghost recs = rec_views(records@);
    let ghost hdrs = seq_views(headers@);
    let ghost meta = seq_views(metadata@);
    let mut book = new_workbook("Placement");
    proof {
        reveal_strlit("Placement");
    }
    let m = metadata.len();
    let mut i: usize = 0;
    while i < m
        invariant
            0 <= i <= m,
            m == metadata@.len(),
            meta == seq_views(metadata@),
            m + records@.len() + 1 < u32::MAX as int,
            sheet_title(book) == "Placement"@,
            sheet_title(book).len() > 0,
            sheet_count(book) == 1,
            forall|col: u32, row: u32|
                map_at(sheet_cells(book), col, row) == spec_cell_at(
                    Seq::empty(),
                    Seq::empty(),
                    meta.take(i as int),
                    col,
                    row,
                ),
        decreases m - i,
    {
        let ghost before = sheet_cells(book);
        set_cell_text(&mut book, 1, (i + 1) as u32, metadata[i].as_str());
        proof {
            assert(meta[i as int] == metadata@[i as int]@);
            assert forall|col: u32, row: u32|
                map_at(sheet_cells(book), col, row) == spec_cell_at(
                    Seq::empty(),
                    Seq::empty(),
                    meta.take(i + 1),
                    col,
                    row,
                ) by {
                if col == 1 && row == (i + 1) as u32 {
                    assert(map_at(sheet_cells(book), col, row) == Some(meta[i as int]));
                } else {
                    assert(map_at(sheet_cells(book), col, row) == map_at(before, col, row));
                }
            }
        }
        i = i + 1;
    }
    proof {
        assert(meta.take(m as int) =~= meta);
    }
    let hrow = (m + 1) as u32;
    let mut j: usize = 0;
    while j < headers.len()
        invariant
            0 <= j <= headers@.len(),
            m == metadata@.len(),
            meta == seq_views(metadata@),
            hdrs == seq_views(headers@),
            hrow == (m + 1) as u32,
            m + records@.len() + 1 < u32::MAX as int,
            headers@.len() < u32::MAX as int,
            sheet_title(book) == "Placement"@,
            sheet_title(book).len() > 0,
            sheet_count(book) == 1,
            forall|col: u32, row: u32|
                map_at(sheet_cells(book), col, row) == spec_cell_at(
                    Seq::empty(),
                    hdrs.take(j as int),
                    meta,
                    col,
                    row,
                ),
        decreases headers@.len() - j,
    {
        let ghost before = sheet_cells(book);
        set_cell_text(&mut book, (j + 1) as u32, hrow, headers[j].as_str());
        proof {
            assert(hdrs[j as int] == headers@[j as int]@);
            assert forall|col: u32, row: u32|
                map_at(sheet_cells(book), col, row) == spec_cell_at(
                    Seq::empty(),
                    hdrs.take(j + 1),
                    meta,
                    col,
                    row,
                ) by {
                if col == (j + 1) as u32 && row == hrow {
                    assert(map_at(sheet_cells(book), col, row) == Some(hdrs[j as int]));
                } else {
                    assert(map_at(sheet_cells(book), col, row) == map_at(before, col, row));
                }
            }
        }
        j = j + 1;
    }
    proof {
        assert(hdrs.take(headers@.len() as int) =~= hdrs);
    }
    let mut k: usize = 0;
    while k < records.len()
        invariant
            0 <= k <= records@.len(),
            m == metadata@.len(),
            meta == seq_views(metadata@),
            hdrs == seq_views(headers@),
            recs == rec_views(records@),
            m + records@.len() + 1 < u32::MAX as int,
            sheet_title(book) == "Placement"@,
            sheet_title(book).len() > 0,
            sheet_count(book) == 1,
            forall|col: u32, row: u32|
                map_at(sheet_cells(book), col, row) == spec_cell_at(
                    recs.take(k as int),
                    hdrs,
                    meta,
                    col,
                    row,
                ),
        decreases records@.len() - k,
    {
        let ghost before = sheet_cells(book);
        let row = (m + 2 + k) as u32;
        let e = &records[k];
        set_cell_text(&mut book, 1, row, e.designator.as_str());
        set_cell_text(&mut book, 2, row, e.mid_x.as_str());
        set_cell_text(&mut book, 3, row, e.mid_y.as_str());
        set_cell_text(&mut book, 4, row, e.rotation.as_str());
        set_cell_text(&mut book, 5, row, e.layer.as_str());
        set_cell_text(&mut book, 6, row, e.footprint.as_str());
        proof {
            assert(recs[k as int] == records@[k as int]@);
            assert forall|col: u32, row2: u32|
                map_at(sheet_cells(book), col, row2) == spec_cell_at(
                    recs.take(k + 1),
                    hdrs,
                    meta,
                    col,
                    row2,
                ) by {
                if row2 == row && 1 <= col <= 6 {
                    assert(map_at(sheet_cells(book), col, row2) == Some(
                        rec_field(recs[k as int], col as int),
                    ));
                    assert(recs.take(k + 1)[row2 - m - 2] == recs[k as int]);
                } else {
                    assert(map_at(sheet_cells(book), col, row2) == map_at(before, col, row2));
                }
            }
        }
        k = k + 1;
    }
    proof {
        assert(recs.take(records@.len() as int) =~= recs);
    }
    book
}

} // verus!
