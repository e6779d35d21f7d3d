//! Output path derivation. Paths are handled as plain strings, locating the
//! file name the way `std::path` does on `/`-separated paths: trailing `/`
//! characters are ignored, the file name is the last component before them,
//! and a final component of `.` or `..` — or none at all — means the path
//! has no file name and is returned unchanged. An extension is the part of
//! the file name after its last `.`, provided that dot is not the name's
//! first character. Replacing or appending an extension rebuilds the path up
//! to the file name, so any trailing `/` run is dropped, as `std::path`
//! drops it.
use vstd::prelude::*;
use vstd::string::StringExecFns;
use crate::text::{scan_back, skip_tail, lemma_scan_back, lemma_skip_tail};

verus! {

/// One past the file name's last character: the path's length with the
/// trailing run of `/` stripped.
pub open spec fn name_end(p: Seq<char>) -> int {
    skip_tail(p, p.len() as int, '/')
}

/// The file name's first character: just after the last `/` before
/// `name_end`.
pub open spec fn name_start(p: Seq<char>) -> int {
    scan_back(p, name_end(p), '/')
}

/// The path has no file name: nothing before the trailing slashes, or a
/// final component of `.` or `..`.
pub open spec fn spec_no_file_name(p: Seq<char>) -> bool {
    let f = name_start(p);
    let e = name_end(p);
    ||| e == 0
    ||| (e - f == 1 && p[f] == '.')
    ||| (e - f == 2 && p[f] == '.' && p[f + 1] == '.')
}

/// One past the dot that starts the file name's extension. A value below
/// `name_start(p) + 2` means the name has no extension: its only dots, if
/// any, sit in an earlier component or at the name's first character.
pub open spec fn ext_start(p: Seq<char>) -> int {
    scan_back(p, name_end(p), '.')
}

/// The file name has an extension: a dot after the name's first character.
pub open spec fn spec_has_extension(p: Seq<char>) -> bool {
    ext_start(p) >= name_start(p) + 2
}

/// The output path derived from an input path: the file name's extension,
/// if any, replaced by `.xlsx`, or `.xlsx` appended to the file name when it
/// has none. A path without a file name is returned unchanged.
pub open spec fn spec_generate_output_path(p: Seq<char>) -> Seq<char> {
    if spec_no_file_name(p) {
        p
    } else if spec_has_extension(p) {
        p.subrange(0, ext_start(p) - 1) + ".xlsx"@
    } else {
        p.subrange(0, name_end(p)) + ".xlsx"@
    }
}

/// An explicit output path normalized to end in `.xlsx`: left alone when
/// its file name's extension is already `xlsx`, otherwise the extension is
/// replaced by (or `.xlsx` appended, when there is none). A path without a
/// file name is returned unchanged.
pub open spec fn spec_ensure_xlsx_extension(p: Seq<char>) -> Seq<char> {
    if spec_no_file_name(p) {
        p
    } else if spec_has_extension(p) {
        if p.subrange(ext_start(p), name_end(p)) == "xlsx"@ {
            p
        } else {
            p.subrange(0, ext_start(p) - 1) + ".xlsx"@
        }
    } else {
        p.subrange(0, name_end(p)) + ".xlsx"@
    }
}

/// The path's length with its trailing run of `/` stripped.
fn find_name_end(s: &str) -> (e: usize)
    ensures
        e as int == name_end(s@),
        e <= s@.len(),
{
    let n = s.unicode_len();
    let mut e = n;
    while e > 0 && s.get_char(e - 1) == '/'
        invariant
            0 <= e <= n,
            n == s@.len(),
            skip_tail(s@, n as int, '/') == skip_tail(s@, e as int, '/'),
        decreases e,
    {
        e = e - 1;
    }
    e
}

/// One past the last occurrence of `c` before `e` in `s`, or 0 when `c`
/// does not occur there.
fn rscan_to(s: &str, e: usize, c: char) -> (q: usize)
    requires
        e <= s@.len(),
    ensures
        q as int == scan_back(s@, e as int, c),
        q <= e,
{
    let mut q = e;
    while q > 0 && !(s.get_char(q - 1) == c)
        invariant
            0 <= q <= e,
            e <= s@.len(),
            scan_back(s@, e as int, c) == scan_back(s@, q as int, c),
        decreases q,
    {
        q = q - 1;
    }
    q
}

/// Whether `s` between positions `d` and `e` reads exactly `xlsx`.
fn tail_is_xlsx(s: &str, d: usize, e: usize) -> (r: bool)
    requires
        d <= e <= s@.len(),
    ensures
        r == (s@.subrange(d as int, e as int) == "xlsx"@),
{
    proof {
        reveal_strlit("xlsx");
    }
    assert(s@.subrange(d as int, e as int).len() == e - d);
    if e - d != 4 {
        return false;
    }
    let r = s.get_char(d) == 'x' && s.get_char(d + 1) == 'l' && s.get_char(d + 2) == 's'
        && s.get_char(d + 3) == 'x';
    proof {
        let tail = s@.subrange(d as int, e as int);
        if r {
            assert(tail =~= "xlsx"@);
        } else {
            assert(tail[0] == s@[d as int] && tail[1] == s@[d + 1] && tail[2] == s@[d + 2]
                && tail[3] == s@[d + 3]);
        }
    }
    r
}

/// Whether the path's final component is missing, `.` or `..`; `f` and `e`
/// must already delimit the file name.
fn no_file_name(s: &str, f: usize, e: usize) -> (r: bool)
    requires
        f as int == name_start(s@),
        e as int == name_end(s@),
    ensures
        r == spec_no_file_name(s@),
{
    proof {
        lemma_skip_tail(s@, s@.len() as int, '/');
        lemma_scan_back(s@, e as int, '/');
    }
    e == 0 || (e - f == 1 && s.get_char(f) == '.') || (e - f == 2 && s.get_char(f) == '.'
        && s.get_char(f + 1) == '.')
}

/// Derives the output path from the input path: the input file name's
/// extension is replaced by `.xlsx` (so `foo.txt` gives `foo.xlsx`), or
/// `.xlsx` is appended when the file name has no extension. A path with no
/// file name is returned unchanged.
pub fn generate_output_path(input_path: &str) -> (r: String)
    ensures
        r@ == spec_generate_output_path(input_path@),
{
    let e = find_name_end(input_path);
    let f = rscan_to(input_path, e, '/');
    let d = rscan_to(input_path, e, '.');
    proof {
        lemma_scan_back(input_path@, e as int, '.');
    }
    if no_file_name(input_path, f, e) {
        return input_path.to_owned();
    }
    if d >= 2 && d - 2 >= f {
        let mut out = input_path.substring_char(0, d - 1).to_owned();
        out.append(".xlsx");
        out
    } else {
        let mut out = input_path.substring_char(0, e).to_owned();
        out.append(".xlsx");
        out
    }
}

/// Normalizes an explicitly given output path: a file name already ending
/// in `.xlsx` leaves the path unchanged, any other extension is replaced by
/// `.xlsx`, and `.xlsx` is appended when there is none. A path with no file
/// name is returned unchanged.
pub fn ensure_xlsx_extension(path: &str) -> (r: String)
    ensures
        r@ == spec_ensure_xlsx_extension(path@),
{
    let e = find_name_end(path);
    let f = rscan_to(path, e, '/');
    let d = rscan_to(path, e, '.');
    proof {
        lemma_scan_back(path@, e as int, '.');
    }
    if no_file_name(path, f, e) {
        return path.to_owned();
    }
    if d >= 2 && d - 2 >= f {
        if tail_is_xlsx(path, d, e) {
            path.to_owned()
        } else {
            let mut out = path.substring_char(0, d - 1).to_owned();
            out.append(".xlsx");
            out
        }
    } else {
        let mut out = path.substring_char(0, e).to_owned();
        out.append(".xlsx");
        out
    }
}

/// Law: for a path with a file name, the derived output path always ends in
/// `.xlsx`; so does the normalized explicit path, provided the given path
/// carries no trailing `/` (with one, a name already ending in `.xlsx` is
/// kept verbatim, slash included).
pub proof fn lemma_output_path_ends_xlsx(p: Seq<char>)
    requires
        !spec_no_file_name(p),
    ensures
        ends_with_xlsx(spec_generate_output_path(p)),
        name_end(p) == p.len() ==> ends_with_xlsx(spec_ensure_xlsx_extension(p)),
{
    reveal_strlit(".xlsx");
    reveal_strlit("xlsx");
    let f = name_start(p);
    let e = name_end(p);
    let d = ext_start(p);
    lemma_skip_tail(p, p.len() as int, '/');
    lemma_scan_back(p, e, '/');
    lemma_scan_back(p, e, '.');
    let g = spec_generate_output_path(p);
    assert(g.subrange(g.len() - 5, g.len() as int) =~= ".xlsx"@);
    let r = spec_ensure_xlsx_extension(p);
    if e == p.len() {
        if spec_has_extension(p) && p.subrange(d, e) == "xlsx"@ {
            assert(p.subrange(d, e).len() == e - d);
            assert(e - d == 4);
            assert(p[d - 1] == '.');
            assert forall|i: int| 0 <= i < 4 implies p[d + i] == "xlsx"@[i] by {
                assert(p.subrange(d, e)[i] == p[d + i]);
            }
            let tail5 = r.subrange(r.len() - 5, r.len() as int);
            assert(tail5[0] == p[d - 1]);
            assert(tail5[1] == p[d] && p[d] == "xlsx"@[0]);
            assert(tail5[2] == p[d + 1] && p[d + 1] == "xlsx"@[1]);
            assert(tail5[3] == p[d + 2] && p[d + 2] == "xlsx"@[2]);
            assert(tail5[4] == p[d + 3] && p[d + 3] == "xlsx"@[3]);
            assert(tail5 =~= ".xlsx"@);
        } else {
            assert(r.subrange(r.len() - 5, r.len() as int) =~= ".xlsx"@);
        }
    }
}

/// The path's last five characters read `.xlsx`.
pub open spec fn ends_with_xlsx(p: Seq<char>) -> bool {
    p.len() >= 5 && p.subrange(p.len() - 5, p.len() as int) == ".xlsx"@
}

/// Law: normalizing an explicit output path is idempotent — a second pass
/// changes nothing.
pub proof fn lemma_ensure_xlsx_idempotent(p: Seq<char>)
    ensures
        spec_ensure_xlsx_extension(spec_ensure_xlsx_extension(p)) == spec_ensure_xlsx_extension(p),
{
    reveal_strlit(".xlsx");
    reveal_strlit("xlsx");
    let f = name_start(p);
    let e = name_end(p);
    let d = ext_start(p);
    lemma_skip_tail(p, p.len() as int, '/');
    lemma_scan_back(p, e, '/');
    lemma_scan_back(p, e, '.');
    let r = spec_ensure_xlsx_extension(p);
    if spec_no_file_name(p) {
    } else if spec_has_extension(p) && p.subrange(d, e) == "xlsx"@ {
    } else {
        // The path was rebuilt as the prefix up to `k` plus ".xlsx", where
        // the character before `k` belongs to the file name, so it is no `/`.
        let k = if spec_has_extension(p) {
            d - 1
        } else {
            e
        };
        assert(1 <= k && p[k - 1] != '/');
        assert(r =~= p.subrange(0, k) + ".xlsx"@);
        let n = k + 5;
        assert(r.len() == n);
        assert(r[k - 1] == p[k - 1]);
        assert(r[k] == '.' && r[k + 1] == 'x' && r[k + 2] == 'l' && r[k + 3] == 's' && r[k + 4]
            == 'x');
        assert(name_end(r) == n) by {
            assert(skip_tail(r, n, '/') == n);
        }
        let f2 = name_start(r);
        assert(f2 <= k - 1) by {
            assert(scan_back(r, n, '/') == scan_back(r, n - 1, '/'));
            assert(scan_back(r, n - 1, '/') == scan_back(r, n - 2, '/'));
            assert(scan_back(r, n - 2, '/') == scan_back(r, n - 3, '/'));
            assert(scan_back(r, n - 3, '/') == scan_back(r, n - 4, '/'));
            assert(scan_back(r, n - 4, '/') == scan_back(r, n - 5, '/'));
            assert(scan_back(r, n - 5, '/') == scan_back(r, k - 1, '/'));
            lemma_scan_back(r, k - 1, '/');
        }
        assert(ext_start(r) == k + 1) by {
            assert(scan_back(r, n, '.') == scan_back(r, n - 1, '.'));
            assert(scan_back(r, n - 1, '.') == scan_back(r, n - 2, '.'));
            assert(scan_back(r, n - 2, '.') == scan_back(r, n - 3, '.'));
            assert(scan_back(r, n - 3, '.') == scan_back(r, k + 1, '.'));
        }
        assert(!spec_no_file_name(r)) by {
            assert(name_end(r) - f2 >= 6);
        }
        assert(spec_has_extension(r));
        assert(r.subrange(k + 1, n) =~= "xlsx"@);
        assert(spec_ensure_xlsx_extension(r) == r);
    }
}

} // verus!
