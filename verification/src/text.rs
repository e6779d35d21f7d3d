//! Character-level text helpers: whitespace, trimming, and scanning for a
//! separator character. All of it is executable code verified against the
//! spec functions that the parser's contracts are stated with.
use vstd::prelude::*;

verus! {

/// The characters that count as whitespace when a field or a line is trimmed:
/// the Unicode `White_Space` set.
pub open spec fn is_space(c: char) -> bool {
    ||| c == ' '
    ||| c == '\t'
    ||| c == '\n'
    ||| c == '\r'
    ||| c == '\u{000B}'
    ||| c == '\u{000C}'
    ||| c == '\u{0085}'
    ||| c == '\u{00A0}'
    ||| c == '\u{1680}'
    ||| ('\u{2000}' <= c && c <= '\u{200A}')
    ||| c == '\u{2028}'
    ||| c == '\u{2029}'
    ||| c == '\u{202F}'
    ||| c == '\u{205F}'
    ||| c == '\u{3000}'
}

pub fn is_space_char(c: char) -> (r: bool)
    ensures
        r == is_space(c),
{
    c == ' ' || c == '\t' || c == '\n' || c == '\r' || c == '\u{000B}' || c == '\u{000C}'
        || c == '\u{0085}' || c == '\u{00A0}' || c == '\u{1680}' || ('\u{2000}' <= c && c
        <= '\u{200A}') || c == '\u{2028}' || c == '\u{2029}' || c == '\u{202F}' || c == '\u{205F}'
        || c == '\u{3000}'
}

/// First index at or after `p` where `s` holds a non-space character,
/// or `s.len()` if only spaces remain.
pub open spec fn skip_spaces(s: Seq<char>, p: int) -> int
    decreases s.len() - p,
{
    if p < 0 || p >= s.len() {
        s.len() as int
    } else if is_space(s[p]) {
        skip_spaces(s, p + 1)
    } else {
        p
    }
}

/// One past the last non-space character of `s` strictly before `q`,
/// or 0 if only spaces precede `q`.
pub open spec fn end_spaces(s: Seq<char>, q: int) -> int
    decreases q,
{
    if q <= 0 || q > s.len() {
        0
    } else if is_space(s[q - 1]) {
        end_spaces(s, q - 1)
    } else {
        q
    }
}

/// `s` with leading and trailing whitespace removed.
pub open spec fn trim_of(s: Seq<char>) -> Seq<char> {
    let a = skip_spaces(s, 0);
    let b = end_spaces(s, s.len() as int);
    if a <= b {
        s.subrange(a, b)
    } else {
        Seq::empty()
    }
}

pub proof fn lemma_skip_spaces(s: Seq<char>, p: int)
    requires
        0 <= p <= s.len(),
    ensures
        p <= skip_spaces(s, p) <= s.len(),
        skip_spaces(s, p) < s.len() ==> !is_space(s[skip_spaces(s, p)]),
        forall|j: int| p <= j < skip_spaces(s, p) ==> is_space(s[j]),
    decreases s.len() - p,
{
    if p < s.len() && is_space(s[p]) {
        lemma_skip_spaces(s, p + 1);
    }
}

pub proof fn lemma_end_spaces(s: Seq<char>, q: int)
    requires
        0 <= q <= s.len(),
    ensures
        0 <= end_spaces(s, q) <= q,
        end_spaces(s, q) > 0 ==> !is_space(s[end_spaces(s, q) - 1]),
        forall|j: int| end_spaces(s, q) <= j < q ==> is_space(s[j]),
    decreases q,
{
    if q > 0 && is_space(s[q - 1]) {
        lemma_end_spaces(s, q - 1);
    }
}

/// A trimmed sequence never starts or ends with whitespace.
pub proof fn lemma_trim_no_edge_space(s: Seq<char>)
    ensures
        trim_of(s).len() > 0 ==> !is_space(trim_of(s)[0]),
        trim_of(s).len() > 0 ==> !is_space(trim_of(s)[trim_of(s).len() - 1]),
{
    lemma_skip_spaces(s, 0);
    lemma_end_spaces(s, s.len() as int);
}

/// Returns `s` with leading and trailing whitespace removed.
pub fn trim_str<'a>(s: &'a str) -> (r: &'a str)
    ensures
        r@ == trim_of(s@),
{
    let n = s.unicode_len();
    let mut i: usize = 0;
    while i < n && is_space_char(s.get_char(i))
        invariant
            0 <= i <= n,
            n == s@.len(),
            skip_spaces(s@, 0) == skip_spaces(s@, i as int),
        decreases n - i,
    {
        i = i + 1;
    }
    assert(skip_spaces(s@, 0) == i as int);
    let mut q: usize = n;
    while q > 0 && is_space_char(s.get_char(q - 1))
        invariant
            0 <= q <= n,
            n == s@.len(),
            end_spaces(s@, n as int) == end_spaces(s@, q as int),
        decreases q,
    {
        q = q - 1;
    }
    assert(end_spaces(s@, n as int) == q as int);
    if i < q {
        s.substring_char(i, q)
    } else {
        proof {
            reveal_strlit("");
            assert(""@ =~= trim_of(s@));
        }
        ""
    }
}

/// First index at or after `p` where `s` holds the character `c`,
/// or `s.len()` if `c` does not occur there.
pub open spec fn next_ix(s: Seq<char>, p: int, c: char) -> int
    decreases s.len() - p,
{
    if p < 0 || p >= s.len() {
        s.len() as int
    } else if s[p] == c {
        p
    } else {
        next_ix(s, p + 1, c)
    }
}

pub proof fn lemma_next_ix(s: Seq<char>, p: int, c: char)
    requires
        0 <= p <= s.len(),
    ensures
        p <= next_ix(s, p, c) <= s.len(),
        next_ix(s, p, c) < s.len() ==> s[next_ix(s, p, c)] == c,
        forall|j: int| p <= j < next_ix(s, p, c) ==> s[j] != c,
    decreases s.len() - p,
{
    if p < s.len() && s[p] != c {
        lemma_next_ix(s, p + 1, c);
    }
}

/// One past the last index strictly before `q` where `s` holds `c`,
/// or 0 if `c` does not occur before `q`.
pub open spec fn scan_back(s: Seq<char>, q: int, c: char) -> int
    decreases q,
{
    if q <= 0 || q > s.len() {
        0
    } else if s[q - 1] == c {
        q
    } else {
        scan_back(s, q - 1, c)
    }
}

pub proof fn lemma_scan_back(s: Seq<char>, q: int, c: char)
    requires
        0 <= q <= s.len(),
    ensures
        0 <= scan_back(s, q, c) <= q,
        scan_back(s, q, c) > 0 ==> s[scan_back(s, q, c) - 1] == c,
        forall|j: int| scan_back(s, q, c) <= j < q ==> s[j] != c,
    decreases q,
{
    if q > 0 && s[q - 1] != c {
        lemma_scan_back(s, q - 1, c);
    }
}

/// Largest index `e` at or below `q` such that `s[e - 1]` is not `c`,
/// or 0 when every character before `q` is `c`: `q` with a trailing run
/// of `c` stripped.
pub open spec fn skip_tail(s: Seq<char>, q: int, c: char) -> int
    decreases q,
{
    if q <= 0 || q > s.len() {
        0
    } else if s[q - 1] == c {
        skip_tail(s, q - 1, c)
    } else {
        q
    }
}

pub proof fn lemma_skip_tail(s: Seq<char>, q: int, c: char)
    requires
        0 <= q <= s.len(),
    ensures
        0 <= skip_tail(s, q, c) <= q,
        skip_tail(s, q, c) > 0 ==> s[skip_tail(s, q, c) - 1] != c,
        forall|j: int| skip_tail(s, q, c) <= j < q ==> s[j] == c,
    decreases q,
{
    if q > 0 && s[q - 1] == c {
        lemma_skip_tail(s, q - 1, c);
    }
}

/// The views of a sequence of owned strings.
pub open spec fn seq_views(v: Seq<String>) -> Seq<Seq<char>> {
    v.map_values(|s: String| s@)
}

pub proof fn lemma_seq_views_push(v: Seq<String>, x: String)
    ensures
        seq_views(v.push(x)) == seq_views(v).push(x@),
{
    assert(seq_views(v.push(x)) =~= seq_views(v).push(x@));
}

/// `s` split on every occurrence of `c`, from position `p` on:
/// the pieces in order, empty pieces kept.
pub open spec fn split_from(s: Seq<char>, p: int, c: char) -> Seq<Seq<char>>
    decreases s.len() - p,
    via split_from_decreases
{
    if p < 0 || p > s.len() {
        Seq::empty()
    } else {
        let j = next_ix(s, p, c);
        if j == s.len() {
            seq![s.subrange(p, j)]
        } else {
            seq![s.subrange(p, j)] + split_from(s, j + 1, c)
        }
    }
}

#[via_fn]
proof fn split_from_decreases(s: Seq<char>, p: int, c: char) {
    if 0 <= p <= s.len() {
        lemma_next_ix(s, p, c);
    }
}

/// `line` split on every `!`, pieces in order, empty pieces kept.
pub fn split_bang(line: &str) -> (parts: Vec<String>)
    ensures
        seq_views(parts@) == split_from(line@, 0, '!'),
{
    let n = line.unicode_len();
    let mut parts: Vec<String> = Vec::new();
    let mut p: usize = 0;
    let mut done = false;
    while !done
        invariant
            0 <= p <= n,
            n == line@.len(),
            !done ==> seq_views(parts@) + split_from(line@, p as int, '!') == split_from(
                line@,
                0,
                '!',
            ),
            done ==> seq_views(parts@) == split_from(line@, 0, '!'),
        decreases n - p + (if done {
            0int
        } else {
            1int
        }),
    {
        let mut j = p;
        while j < n && !(line.get_char(j) == '!')
            invariant
                p <= j <= n,
                n == line@.len(),
                next_ix(line@, p as int, '!') == next_ix(line@, j as int, '!'),
            decreases n - j,
        {
            j = j + 1;
        }
        assert(next_ix(line@, p as int, '!') == j as int);
        let piece = line.substring_char(p, j).to_owned();
        proof {
            lemma_seq_views_push(parts@, piece);
        }
        parts.push(piece);
        if j == n {
            done = true;
            proof {
                assert(seq_views(parts@) =~= split_from(line@, 0, '!'));
            }
        } else {
            p = j + 1;
            proof {
                assert(seq_views(parts@) + split_from(line@, p as int, '!') =~= split_from(
                    line@,
                    0,
                    '!',
                ));
            }
        }
    }
    parts
}

} // verus!
