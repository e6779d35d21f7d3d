//! The parser: splits the report text into lines, reads the optional
//! metadata block, and collects one placement record per well-formed data
//! line, together with the fixed header row.
use vstd::prelude::*;
use crate::text::{next_ix, seq_views, lemma_seq_views_push, lemma_next_ix};
use crate::record::{
    ParseMode, PlacementEntry, RecModel, line_record, line_to_record, rec_views,
    lemma_rec_views_push, spec_starts_hash,
};

verus! {

/// The lines of `s`, split as Rust splits them: at every `\n`, with a `\r`
/// just before the `\n` dropped, and with no final empty line when `s` ends
/// in a line ending.
pub open spec fn spec_lines_from(s: Seq<char>, p: int) -> Seq<Seq<char>>
    decreases s.len() - p,
    via spec_lines_from_decreases
{
    if p < 0 || p >= s.len() {
        Seq::empty()
    } else {
        let j = next_ix(s, p, '\n');
        if j == s.len() {
            seq![s.subrange(p, j)]
        } else {
            seq![strip_tail_cr(s.subrange(p, j))] + spec_lines_from(s, j + 1)
        }
    }
}

#[via_fn]
proof fn spec_lines_from_decreases(s: Seq<char>, p: int) {
    if 0 <= p <= s.len() {
        lemma_next_ix(s, p, '\n');
    }
}

/// A line body with a trailing carriage return removed.
pub open spec fn strip_tail_cr(l: Seq<char>) -> Seq<char> {
    if l.len() > 0 && l[l.len() - 1] == '\r' {
        l.subrange(0, l.len() - 1)
    } else {
        l
    }
}

pub open spec fn spec_lines(s: Seq<char>) -> Seq<Seq<char>> {
    spec_lines_from(s, 0)
}

/// Splits `content` into its lines.
pub fn split_lines(content: &str) -> (lines: Vec<String>)
    ensures
        seq_views(lines@) == spec_lines(content@),
{
    let n = content.unicode_len();
    let mut lines: Vec<String> = Vec::new();
    let mut p: usize = 0;
    while p < n
        invariant
            0 <= p <= n,
            n == content@.len(),
            seq_views(lines@) + spec_lines_from(content@, p as int) == spec_lines(content@),
        decreases n - p,
    {
        let mut j = p;
        while j < n && !(content.get_char(j) == '\n')
            invariant
                p <= j <= n,
                n == content@.len(),
                next_ix(content@, p as int, '\n') == next_ix(content@, j as int, '\n'),
            decreases n - j,
        {
            j = j + 1;
        }
        assert(next_ix(content@, p as int, '\n') == j as int);
        if j == n {
            let piece = content.substring_char(p, j).to_owned();
            proof {
                lemma_seq_views_push(lines@, piece);
            }
            lines.push(piece);
            p = n;
            proof {
                assert(seq_views(lines@) + spec_lines_from(content@, p as int) =~= spec_lines(
                    content@,
                ));
            }
        } else {
            let body_end = if j > p && content.get_char(j - 1) == '\r' {
                j - 1
            } else {
                j
            };
            let piece = content.substring_char(p, body_end).to_owned();
            proof {
                assert(piece@ =~= strip_tail_cr(content@.subrange(p as int, j as int)));
                lemma_seq_views_push(lines@, piece);
            }
            lines.push(piece);
            p = j + 1;
            proof {
                assert(seq_views(lines@) + spec_lines_from(content@, p as int) =~= spec_lines(
                    content@,
                ));
            }
        }
    }
    proof {
        assert(seq_views(lines@) =~= spec_lines(content@));
    }
    lines
}

/// Index of the metadata block's terminator: the first line whose trimmed
/// content starts with `#`, or the number of lines when no line does.
pub open spec fn meta_end_from(lines: Seq<Seq<char>>, k: int) -> int
    decreases lines.len() - k,
{
    if k < 0 || k >= lines.len() {
        lines.len() as int
    } else if spec_starts_hash(lines[k]) {
        k
    } else {
        meta_end_from(lines, k + 1)
    }
}

/// The metadata kept from the first `k` lines: each one verbatim, in order,
/// with empty lines left out.
pub open spec fn meta_upto(lines: Seq<Seq<char>>, k: int) -> Seq<Seq<char>>
    decreases k,
{
    if k <= 0 || k > lines.len() {
        Seq::empty()
    } else if lines[k - 1].len() > 0 {
        meta_upto(lines, k - 1).push(lines[k - 1])
    } else {
        meta_upto(lines, k - 1)
    }
}

/// The records produced by lines `from .. k`, in input order.
pub open spec fn recs_between(mode: ParseMode, lines: Seq<Seq<char>>, from: int, k: int) -> Seq<
    RecModel,
>
    decreases k - from,
{
    if k <= from || k > lines.len() || from < 0 {
        Seq::empty()
    } else {
        match line_record(mode, lines[k - 1]) {
            Some(r) => recs_between(mode, lines, from, k - 1).push(r),
            None => recs_between(mode, lines, from, k - 1),
        }
    }
}

/// The metadata block of the whole input: empty in the simple variant; in
/// the extended variant, the non-empty lines before the first `#` line.
pub open spec fn spec_metadata(mode: ParseMode, content: Seq<char>) -> Seq<Seq<char>> {
    let lines = spec_lines(content);
    match mode {
        ParseMode::Simple => Seq::empty(),
        ParseMode::Extended => meta_upto(lines, meta_end_from(lines, 0)),
    }
}

/// The records of the whole input: in the simple variant one per well-formed
/// data line anywhere; in the extended variant one per well-formed data line
/// after the metadata terminator.
pub open spec fn spec_records(mode: ParseMode, content: Seq<char>) -> Seq<RecModel> {
    let lines = spec_lines(content);
    match mode {
        ParseMode::Simple => recs_between(mode, lines, 0, lines.len() as int),
        ParseMode::Extended => recs_between(
            mode,
            lines,
            meta_end_from(lines, 0) + 1,
            lines.len() as int,
        ),
    }
}

/// The fixed header row, the same for every input.
pub open spec fn spec_headers() -> Seq<Seq<char>> {
    seq!["Designator"@, "Mid x"@, "Mid y"@, "Rotation"@, "Layer"@, "Footprint"@]
}

fn collect_records(mode: ParseMode, lines: &Vec<String>, from: usize) -> (recs: Vec<
    PlacementEntry,
>)
    ensures
        rec_views(recs@) == recs_between(mode, seq_views(lines@), from as int, lines@.len() as int),
{
    let ghost l = seq_views(lines@);
    let mut recs: Vec<PlacementEntry> = Vec::new();
    let mut j = from;
    if j > lines.len() {
        return recs;
    }
    while j < lines.len()
        invariant
            from <= j <= lines@.len(),
            l == seq_views(lines@),
            rec_views(recs@) == recs_between(mode, l, from as int, j as int),
        decreases lines@.len() - j,
    {
        assert(l[j as int] == lines@[j as int]@);
        match line_to_record(mode, lines[j].as_str()) {
            Some(e) => {
                proof {
                    lemma_rec_views_push(recs@, e);
                }
                recs.push(e);
            },
            None => {},
        }
        j = j + 1;
    }
    recs
}

/// Parses the whole report text. Returns, in order: the placement records,
/// one per well-formed data line, in input order; the fixed header row; and
/// the metadata lines (always empty in the simple variant).
pub fn parse_placement(mode: ParseMode, content: &str) -> (res: (
    Vec<PlacementEntry>,
    Vec<String>,
    Vec<String>,
))
    ensures
        rec_views(res.0@) == spec_records(mode, content@),
        seq_views(res.1@) == spec_headers(),
        seq_views(res.2@) == spec_metadata(mode, content@),
{
    let lines = split_lines(content);
    let ghost l = seq_views(lines@);
    let mut metadata: Vec<String> = Vec::new();
    let records: Vec<PlacementEntry>;
    match mode {
        ParseMode::Simple => {
            records = collect_records(mode, &lines, 0);
        },
        ParseMode::Extended => {
            let mut i: usize = 0;
            let mut found = false;
            while i < lines.len() && !found
                invariant
                    0 <= i <= lines@.len(),
                    l == seq_views(lines@),
                    !found ==> meta_end_from(l, 0) == meta_end_from(l, i as int),
                    found ==> meta_end_from(l, 0) == i as int && i < lines@.len(),
                    seq_views(metadata@) == meta_upto(l, i as int),
                decreases lines@.len() - i + (if found {
                    0int
                } else {
                    1int
                }),
            {
                assert(l[i as int] == lines@[i as int]@);
                let t = crate::text::trim_str(lines[i].as_str());
                if t.unicode_len() > 0 && t.get_char(0) == '#' {
                    found = true;
                } else {
                    if lines[i].as_str().unicode_len() > 0 {
                        let kept = lines[i].clone();
                        proof {
                            lemma_seq_views_push(metadata@, kept);
                        }
                        metadata.push(kept);
                    }
                    i = i + 1;
                }
            }
            if found {
                records = collect_records(mode, &lines, i + 1);
            } else {
                assert(meta_end_from(l, 0) == l.len());
                records = Vec::new();
                assert(rec_views(records@) =~= recs_between(
                    mode,
                    l,
                    meta_end_from(l, 0) + 1,
                    l.len() as int,
                ));
            }
        },
    }
    let mut headers: Vec<String> = Vec::new();
    headers.push("Designator".to_owned());
    headers.push("Mid x".to_owned());
    headers.push("Mid y".to_owned());
    headers.push("Rotation".to_owned());
    headers.push("Layer".to_owned());
    headers.push("Footprint".to_owned());
    proof {
        assert(seq_views(headers@) =~= spec_headers());
    }
    (records, headers, metadata)
}

/// Law: every record the parser produces carries a footprint that starts
/// with the text marker `'`.
pub proof fn lemma_records_footprint_marked(mode: ParseMode, content: Seq<char>)
    ensures
        forall|k: int| 0 <= k < spec_records(mode, content).len() ==> (#[trigger] spec_records(
            mode,
            content,
        )[k]).footprint.len() >= 1 && spec_records(mode, content)[k].footprint[0] == '\'',
{
    let lines = spec_lines(content);
    let from = match mode {
        ParseMode::Simple => 0int,
        ParseMode::Extended => meta_end_from(lines, 0) + 1,
    };
    lemma_recs_between_footprint(mode, lines, from, lines.len() as int);
}

proof fn lemma_recs_between_footprint(mode: ParseMode, lines: Seq<Seq<char>>, from: int, k: int)
    ensures
        forall|i: int| 0 <= i < recs_between(mode, lines, from, k).len() ==> (#[trigger] recs_between(
            mode,
            lines,
            from,
            k,
        )[i]).footprint.len() >= 1 && recs_between(mode, lines, from, k)[i].footprint[0] == '\'',
    decreases k - from,
{
    reveal_strlit("'");
    if k <= from || k > lines.len() || from < 0 {
    } else {
        lemma_recs_between_footprint(mode, lines, from, k - 1);
        let prev = recs_between(mode, lines, from, k - 1);
        let cur = recs_between(mode, lines, from, k);
        match line_record(mode, lines[k - 1]) {
            Some(r) => {
                let parts = crate::text::split_from(lines[k - 1], 0, '!');
                crate::record::lemma_footprint_round_trip(parts);
                assert(r == crate::record::mk_record(parts));
                assert forall|i: int| 0 <= i < cur.len() implies (#[trigger] cur[i]).footprint.len()
                    >= 1 && cur[i].footprint[0] == '\'' by {
                    if i < prev.len() {
                        assert(cur[i] == prev[i]);
                    } else {
                        assert(cur[i] == r);
                    }
                }
            },
            None => {
                assert(cur == prev);
            },
        }
    }
}

} // verus!
