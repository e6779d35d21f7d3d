//! Converts `!`-delimited component-placement reports into a single-sheet
//! spreadsheet workbook: a verified parser for the line format, verified
//! derivation of output file paths, and verified placement of every cell.
pub mod parse;
pub mod paths;
pub mod record;
pub mod sheet;
pub mod text;
