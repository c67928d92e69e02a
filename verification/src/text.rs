//! Text primitives: substring containment, case folding, decimal rendering,
//! string equality, and line-ending normalization.

use vstd::prelude::*;

verus! {

/// `pat` occurs in `hay` as a contiguous substring starting at position `i`.
pub open spec fn contains_at(hay: Seq<char>, pat: Seq<char>, i: int) -> bool {
    0 <= i && i + pat.len() <= hay.len() && hay.subrange(i, i + pat.len() as int) == pat
}

/// `pat` occurs somewhere in `hay` as a contiguous substring.
pub open spec fn contains_substring(hay: Seq<char>, pat: Seq<char>) -> bool {
    exists|i: int| contains_at(hay, pat, i)
}

/// Whether `hay` matches `pat` character for character at position `i`.
fn matches_at(hay: &str, hay_len: usize, pat: &str, pat_len: usize, i: usize) -> (r: bool)
    requires
        hay_len == hay@.len(),
        pat_len == pat@.len(),
        i + pat_len <= hay_len,
    ensures
        r == contains_at(hay@, pat@, i as int),
{
    let mut j: usize = 0;
    while j < pat_len
        invariant
            hay_len == hay@.len(),
            pat_len == pat@.len(),
            i + pat_len <= hay_len,
            j <= pat_len,
            forall|k: int| 0 <= k < j ==> hay@[i + k] == pat@[k],
        decreases pat_len - j,
    {
        if hay.get_char(i + j) != pat.get_char(j) {
            proof {
                let s = hay@.subrange(i as int, i + pat@.len() as int);
                if s == pat@ {
                    assert(s[j as int] == pat@[j as int]);
                }
            }
            return false;
        }
        j = j + 1;
    }
    proof {
        assert(hay@.subrange(i as int, i + pat@.len() as int) =~= pat@);
    }
    true
}

/// Literal substring search: does `hay` contain `pat`?
pub fn contains_pattern(hay: &str, pat: &str) -> (r: bool)
    ensures
        r == contains_substring(hay@, pat@),
{
    let hay_len = hay.unicode_len();
    let pat_len = pat.unicode_len();
    if pat_len > hay_len {
        proof {
            assert forall|i: int| !contains_at(hay@, pat@, i) by {}
        }
        return false;
    }
    if pat_len == 0 {
        proof {
            assert(hay@.subrange(0, 0) =~= pat@);
            assert(contains_at(hay@, pat@, 0));
        }
        return true;
    }
    let last = hay_len - pat_len;
    let mut i: usize = 0;
    while i <= last
        invariant
            hay_len == hay@.len(),
            pat_len == pat@.len(),
            1 <= pat_len <= hay_len,
            last == hay_len - pat_len,
            i <= last + 1,
            forall|k: int| 0 <= k < i ==> !contains_at(hay@, pat@, k),
        decreases last + 1 - i,
    {
        if matches_at(hay, hay_len, pat, pat_len, i) {
            assert(contains_at(hay@, pat@, i as int));
            return true;
        }
        i = i + 1;
    }
    proof {
        assert forall|k: int| !contains_at(hay@, pat@, k) by {
            if 0 <= k < i {
            }
        }
    }
    false
}

/// Character-sequence equality of two string slices.
pub fn str_eq(a: &str, b: &str) -> (r: bool)
    ensures
        r == (a@ == b@),
{
    let a_len = a.unicode_len();
    let b_len = b.unicode_len();
    if a_len != b_len {
        return false;
    }
    let mut j: usize = 0;
    while j < a_len
        invariant
            a_len == a@.len(),
            a_len == b@.len(),
            j <= a_len,
            forall|k: int| 0 <= k < j ==> a@[k] == b@[k],
        decreases a_len - j,
    {
        if a.get_char(j) != b.get_char(j) {
            proof {
                if a@ == b@ {
                    assert(a@[j as int] == b@[j as int]);
                }
            }
            return false;
        }
        j = j + 1;
    }
    proof {
        assert(a@ =~= b@);
    }
    true
}

/// The character for a single decimal digit.
pub open spec fn digit_char(d: int) -> char {
    if d == 0 {
        '0'
    } else if d == 1 {
        '1'
    } else if d == 2 {
        '2'
    } else if d == 3 {
        '3'
    } else if d == 4 {
        '4'
    } else if d == 5 {
        '5'
    } else if d == 6 {
        '6'
    } else if d == 7 {
        '7'
    } else if d == 8 {
        '8'
    } else {
        '9'
    }
}

/// The decimal rendering of a non-negative integer, most significant digit
/// first, with no leading zeros (a single `'0'` for zero).
pub open spec fn dec_digits(n: int) -> Seq<char>
    decreases n,
{
    if n < 10 {
        seq![digit_char(n)]
    } else {
        dec_digits(n / 10) + seq![digit_char(n % 10)]
    }
}

/// The one-character string for a single decimal digit.
fn digit_str(d: usize) -> (r: &'static str)
    requires
        d < 10,
    ensures
        r@ == seq![digit_char(d as int)],
{
    proof {
        reveal_strlit("0");
        reveal_strlit("1");
        reveal_strlit("2");
        reveal_strlit("3");
        reveal_strlit("4");
        reveal_strlit("5");
        reveal_strlit("6");
        reveal_strlit("7");
        reveal_strlit("8");
        reveal_strlit("9");
        assert("0"@ =~= seq![digit_char(0)]);
        assert("1"@ =~= seq![digit_char(1)]);
        assert("2"@ =~= seq![digit_char(2)]);
        assert("3"@ =~= seq![digit_char(3)]);
        assert("4"@ =~= seq![digit_char(4)]);
        assert("5"@ =~= seq![digit_char(5)]);
        assert("6"@ =~= seq![digit_char(6)]);
        assert("7"@ =~= seq![digit_char(7)]);
        assert("8"@ =~= seq![digit_char(8)]);
        assert("9"@ =~= seq![digit_char(9)]);
    }
    match d {
        0 => "0",
        1 => "1",
        2 => "2",
        3 => "3",
        4 => "4",
        5 => "5",
        6 => "6",
        7 => "7",
        8 => "8",
        _ => "9",
    }
}

/// Render a number in decimal, for line-number prefixes.
pub fn usize_to_string(n: usize) -> (r: String)
    ensures
        r@ == dec_digits(n as int),
    decreases n,
{
    if n < 10 {
        digit_str(n).to_owned()
    } else {
        let mut s = usize_to_string(n / 10);
        s.append(digit_str(n % 10));
        s
    }
}

/// A line with any trailing carriage return removed.
pub open spec fn strip_cr(l: Seq<char>) -> Seq<char> {
    if l.len() > 0 && l.last() == '\r' {
        l.drop_last()
    } else {
        l
    }
}

/// Normalize one line's ending: remove a trailing `'\r'` if present.
pub fn normalize_line(line: &str) -> (r: String)
    ensures
        r@ == strip_cr(line@),
{
    let len = line.unicode_len();
    if len > 0 && line.get_char(len - 1) == '\r' {
        let stripped = line.substring_char(0, len - 1);
        proof {
            assert(line@.drop_last() =~= line@.subrange(0, len - 1));
        }
        stripped.to_owned()
    } else {
        line.to_owned()
    }
}

/// One source's lines, each ending-normalized; unreadable lines stay
/// unreadable and keep their position.
pub open spec fn normalize_spec(lines: Seq<Option<Seq<char>>>) -> Seq<Option<Seq<char>>> {
    Seq::new(lines.len(), |i: int| match lines[i] {
        Some(l) => Some(strip_cr(l)),
        None => None,
    })
}

/// Normalize the endings of a whole source: remove each line's trailing
/// `'\r'` if present. A `None` entry stands for a line that could not be
/// read; it is kept so that later lines keep their ordinal position.
pub fn normalize_lines(lines: &Vec<Option<String>>) -> (r: Vec<Option<String>>)
    ensures
        r.deep_view() == normalize_spec(lines.deep_view()),
{
    let ghost dv = lines.deep_view();
    let mut out: Vec<Option<String>> = Vec::new();
    let n = lines.len();
    proof {
        assert(out.deep_view() =~= normalize_spec(dv).take(0));
    }
    for k in 0..n
        invariant
            n == lines.len(),
            dv == lines.deep_view(),
            out.deep_view() == normalize_spec(dv).take(k as int),
    {
        proof {
            assert(dv.len() == lines@.len());
            assert(normalize_spec(dv).len() == dv.len());
            assert(out.deep_view().len() == k as int);
            assert(out@.len() == k as int);
        }
        let ghost prev = out.deep_view();
        let ghost prev_v = out@;
        match &lines[k] {
            Some(l) => {
                let ghost lv = l@;
                let normalized = normalize_line(l.as_str());
                out.push(Some(normalized));
                proof {
                    assert(lines@[k as int] == Some(*l));
                    assert(prev_v.len() == k as int);
                    assert(out@[k as int] == Some(normalized));
                    assert(out.deep_view()[k as int] == Some(strip_cr(lv)));
                }
            },
            None => {
                out.push(None);
                proof {
                    assert(lines@[k as int] is None);
                    assert(prev_v.len() == k as int);
                    assert(out@[k as int] == Option::<String>::None);
                    assert(out.deep_view()[k as int] == Option::<Seq<char>>::None);
                }
            },
        }
        proof {
            assert(out@.len() == k + 1);
            assert forall|i: int| 0 <= i < k + 1 implies out.deep_view()[i] == normalize_spec(
                dv,
            ).take(k + 1)[i] by {
                if i < k {
                    assert(out@[i] == prev_v[i]);
                    assert(out.deep_view()[i] == prev[i]);
                    assert(prev[i] == normalize_spec(dv).take(k as int)[i]);
                } else {
                    assert(dv[i] == lines@[i].deep_view());
                }
            }
            assert(out.deep_view() =~= normalize_spec(dv).take(k + 1));
        }
    }
    proof {
        assert(normalize_spec(dv).take(n as int) =~= normalize_spec(dv));
    }
    out
}

/// Lowercase folding of a character sequence, as `str::to_lowercase` computes
/// it: a fixed function of the characters alone.
pub uninterp spec fn lower_of(s: Seq<char>) -> Seq<char>;

/// Relies on `str::to_lowercase`: the Unicode lowercase mapping of the input,
/// a function of the input characters alone.
#[verifier::external_body]
pub(crate) fn lowercase(s: &str) -> (r: String)
    ensures
        r@ == lower_of(s@),
{
    s.to_lowercase()
}

} // verus!
