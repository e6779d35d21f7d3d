//! One parsed placement row, and how a single input line is classified and
//! turned into such a row.
use vstd::prelude::*;
use vstd::string::StringExecFns;
use crate::text::{
    is_space, trim_of, split_from, trim_str, split_bang, seq_views, lemma_trim_no_edge_space,
};

verus! {

/// Which variant of the report format is being read.
///
/// `Simple`: no metadata block; comment lines (`VERSION`, `#`, `---`) are
/// skipped wherever they appear, every other non-blank line is a candidate
/// data line.
///
/// `Extended`: the file opens with a metadata block that runs to the first
/// line whose trimmed content starts with `#`; after that terminator, lines
/// starting with `#` or `---` and blank lines are skipped and the rest are
/// candidate data lines.
#[derive(Clone, Copy, Debug)]
pub enum ParseMode {
    Simple,
    Extended,
}

/// One data row of the report, ready for the sheet: the four verbatim
/// (trimmed) fields, the derived layer, and the marker-prefixed footprint.
#[derive(Debug)]
pub struct PlacementEntry {
    pub designator: String,
    pub mid_x: String,
    pub mid_y: String,
    pub rotation: String,
    pub layer: String,
    pub footprint: String,
}

/// The mathematical content of a `PlacementEntry`.
pub struct RecModel {
    pub designator: Seq<char>,
    pub mid_x: Seq<char>,
    pub mid_y: Seq<char>,
    pub rotation: Seq<char>,
    pub layer: Seq<char>,
    pub footprint: Seq<char>,
}

impl View for PlacementEntry {
    type V = RecModel;

    open spec fn view(&self) -> RecModel {
        RecModel {
            designator: self.designator@,
            mid_x: self.mid_x@,
            mid_y: self.mid_y@,
            rotation: self.rotation@,
            layer: self.layer@,
            footprint: self.footprint@,
        }
    }
}

/// The models of a sequence of placement entries.
pub open spec fn rec_views(v: Seq<PlacementEntry>) -> Seq<RecModel> {
    v.map_values(|e: PlacementEntry| e@)
}

pub proof fn lemma_rec_views_push(v: Seq<PlacementEntry>, x: PlacementEntry)
    ensures
        rec_views(v.push(x)) == rec_views(v).push(x@),
{
    assert(rec_views(v.push(x)) =~= rec_views(v).push(x@));
}

/// The line's trimmed content starts with `#`.
pub open spec fn spec_starts_hash(l: Seq<char>) -> bool {
    let t = trim_of(l);
    t.len() > 0 && t[0] == '#'
}

/// The line's trimmed content starts with `---`.
pub open spec fn spec_starts_dashes(l: Seq<char>) -> bool {
    let t = trim_of(l);
    t.len() >= 3 && t[0] == '-' && t[1] == '-' && t[2] == '-'
}

/// The line's trimmed content starts with `VERSION`.
pub open spec fn spec_starts_version(l: Seq<char>) -> bool {
    let t = trim_of(l);
    t.len() >= 7 && t[0] == 'V' && t[1] == 'E' && t[2] == 'R' && t[3] == 'S' && t[4] == 'I' && t[5]
        == 'O' && t[6] == 'N'
}

/// The line is blank after trimming.
pub open spec fn spec_blank(l: Seq<char>) -> bool {
    trim_of(l).len() == 0
}

/// A structural line that can never become a record: blank lines and
/// comment/separator lines, per mode.
pub open spec fn skips_line(mode: ParseMode, l: Seq<char>) -> bool {
    match mode {
        ParseMode::Simple => spec_blank(l) || spec_starts_hash(l) || spec_starts_dashes(l)
            || spec_starts_version(l),
        ParseMode::Extended => spec_blank(l) || spec_starts_hash(l) || spec_starts_dashes(l),
    }
}

/// The record built from the `!`-separated fields of a line: fields 0 to 3
/// trimmed and kept verbatim, the layer derived from field 4, and field 5
/// trimmed and prefixed with the text marker `'`.
pub open spec fn mk_record(parts: Seq<Seq<char>>) -> RecModel {
    RecModel {
        designator: trim_of(parts[0]),
        mid_x: trim_of(parts[1]),
        mid_y: trim_of(parts[2]),
        rotation: trim_of(parts[3]),
        layer: if trim_of(parts[4]).len() == 0 {
            "T"@
        } else {
            "B"@
        },
        footprint: "'"@ + trim_of(parts[5]),
    }
}

/// What one line contributes to the output: a record for a well-formed data
/// line, nothing for structural lines and for lines with fewer than six
/// `!`-separated fields.
pub open spec fn line_record(mode: ParseMode, l: Seq<char>) -> Option<RecModel> {
    if skips_line(mode, l) {
        None
    } else {
        let parts = split_from(l, 0, '!');
        if parts.len() < 6 {
            None
        } else {
            Some(mk_record(parts))
        }
    }
}

fn classify_skip(mode: ParseMode, line: &str) -> (r: bool)
    ensures
        r == skips_line(mode, line@),
{
    let t = trim_str(line);
    let tl = t.unicode_len();
    if tl == 0 {
        return true;
    }
    if t.get_char(0) == '#' {
        return true;
    }
    if tl >= 3 && t.get_char(0) == '-' && t.get_char(1) == '-' && t.get_char(2) == '-' {
        return true;
    }
    match mode {
        ParseMode::Simple => tl >= 7 && t.get_char(0) == 'V' && t.get_char(1) == 'E' && t.get_char(
            2,
        ) == 'R' && t.get_char(3) == 'S' && t.get_char(4) == 'I' && t.get_char(5) == 'O'
            && t.get_char(6) == 'N',
        ParseMode::Extended => false,
    }
}

/// Parses one line: `None` for structural or malformed lines, otherwise the
/// placement record its fields describe.
pub fn line_to_record(mode: ParseMode, line: &str) -> (r: Option<PlacementEntry>)
    ensures
        match r {
            Some(e) => line_record(mode, line@) == Some(e@),
            None => line_record(mode, line@) is None,
        },
{
    if classify_skip(mode, line) {
        return None;
    }
    let parts = split_bang(line);
    if parts.len() < 6 {
        assert(seq_views(parts@).len() == split_from(line@, 0, '!').len());
        return None;
    }
    proof {
        assert forall|i: int| 0 <= i < 6 implies parts@[i]@ == split_from(line@, 0, '!')[i] by {
            assert(seq_views(parts@)[i] == parts@[i]@);
        }
    }
    let designator = trim_str(parts[0].as_str()).to_owned();
    let mid_x = trim_str(parts[1].as_str()).to_owned();
    let mid_y = trim_str(parts[2].as_str()).to_owned();
    let rotation = trim_str(parts[3].as_str()).to_owned();
    let mirror = trim_str(parts[4].as_str());
    let layer = if mirror.unicode_len() == 0 {
        "T".to_owned()
    } else {
        "B".to_owned()
    };
    let mut footprint = "'".to_owned();
    footprint.append(trim_str(parts[5].as_str()));
    let entry = PlacementEntry { designator, mid_x, mid_y, rotation, layer, footprint };
    assert(entry@ == mk_record(split_from(line@, 0, '!')));
    Some(entry)
}

/// Law: a non-structural line with at least six `!`-separated fields yields
/// exactly the record built from its fields — the first four trimmed
/// verbatim, the layer derived from field 4, the footprint from field 5 —
/// whatever further fields follow.
pub proof fn lemma_data_line_fields(mode: ParseMode, l: Seq<char>)
    requires
        !skips_line(mode, l),
        split_from(l, 0, '!').len() >= 6,
    ensures
        line_record(mode, l) == Some(mk_record(split_from(l, 0, '!'))),
        mk_record(split_from(l, 0, '!')).designator == trim_of(split_from(l, 0, '!')[0]),
        mk_record(split_from(l, 0, '!')).mid_x == trim_of(split_from(l, 0, '!')[1]),
        mk_record(split_from(l, 0, '!')).mid_y == trim_of(split_from(l, 0, '!')[2]),
        mk_record(split_from(l, 0, '!')).rotation == trim_of(split_from(l, 0, '!')[3]),
        mk_record(split_from(l, 0, '!')).footprint == "'"@ + trim_of(split_from(l, 0, '!')[5]),
{
}

/// Law: a line that splits into fewer than six `!`-separated fields never
/// produces a record.
pub proof fn lemma_short_line_no_record(mode: ParseMode, l: Seq<char>)
    requires
        split_from(l, 0, '!').len() < 6,
    ensures
        line_record(mode, l) is None,
{
}

/// Law: the layer is `T` exactly when the mirror field (field 4) is empty
/// after trimming, and `B` otherwise.
pub proof fn lemma_layer_derivation(mode: ParseMode, l: Seq<char>)
    requires
        !skips_line(mode, l),
        split_from(l, 0, '!').len() >= 6,
    ensures
        trim_of(split_from(l, 0, '!')[4]).len() == 0 ==> mk_record(
            split_from(l, 0, '!'),
        ).layer == "T"@,
        trim_of(split_from(l, 0, '!')[4]).len() > 0 ==> mk_record(split_from(l, 0, '!')).layer
            == "B"@,
        line_record(mode, l) == Some(mk_record(split_from(l, 0, '!'))),
{
}

/// Law: a record's footprint starts with the marker `'`, and the rest of it
/// is exactly the trimmed field 5 — in particular it never starts or ends
/// with whitespace of its own.
pub proof fn lemma_footprint_round_trip(parts: Seq<Seq<char>>)
    requires
        parts.len() >= 6,
    ensures
        mk_record(parts).footprint.len() >= 1,
        mk_record(parts).footprint[0] == '\'',
        mk_record(parts).footprint.subrange(1, mk_record(parts).footprint.len() as int) == trim_of(
            parts[5],
        ),
        mk_record(parts).footprint.len() > 1 ==> !is_space(mk_record(parts).footprint[1]),
        mk_record(parts).footprint.len() > 1 ==> !is_space(
            mk_record(parts).footprint[mk_record(parts).footprint.len() - 1],
        ),
{
    reveal_strlit("'");
    let f = mk_record(parts).footprint;
    assert(f.subrange(1, f.len() as int) =~= trim_of(parts[5]));
    lemma_trim_no_edge_space(parts[5]);
}

} // verus!
