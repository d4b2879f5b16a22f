//! Character-level text helpers shared by the parser and the other modules:
//! whitespace trimming, substring search, joining lines, and conversions
//! between `&str`, `Vec<char>` and `String`.

use vstd::prelude::*;

verus! {

/// The whitespace characters recognized when a line is trimmed: the Unicode
/// `White_Space` set, written out.
pub open spec fn is_space(c: char) -> bool {
    ||| c == ' '
    ||| c == '\t'
    ||| c == '\n'
    ||| c == '\r'
    ||| c == '\u{0B}'
    ||| c == '\u{0C}'
    ||| c == '\u{85}'
    ||| c == '\u{A0}'
    ||| c == '\u{1680}'
    ||| (0x2000 <= c as u32 && c as u32 <= 0x200A)
    ||| c == '\u{2028}'
    ||| c == '\u{2029}'
    ||| c == '\u{202F}'
    ||| c == '\u{205F}'
    ||| c == '\u{3000}'
}

/// Decides [`is_space`] executably.
pub fn is_space_char(c: char) -> (r: bool)
    ensures
        r == is_space(c),
{
    let u = c as u32;
    u == 0x20 || u == 0x09 || u == 0x0A || u == 0x0D || u == 0x0B || u == 0x0C || u == 0x85
        || u == 0xA0 || u == 0x1680 || (0x2000 <= u && u <= 0x200A) || u == 0x2028 || u == 0x2029
        || u == 0x202F || u == 0x205F || u == 0x3000
}

/// The first index at or after `i` holding a non-whitespace character
/// (or the length of `s` if there is none).
pub open spec fn skip_spaces(s: Seq<char>, i: int) -> int
    decreases s.len() - i,
    when 0 <= i <= s.len()
{
    if i < s.len() && is_space(s[i]) {
        skip_spaces(s, i + 1)
    } else {
        i
    }
}

/// The end of `s` with trailing whitespace before `j` dropped.
pub open spec fn rskip_spaces(s: Seq<char>, j: int) -> int
    decreases j,
    when 0 <= j <= s.len()
{
    if j > 0 && is_space(s[j - 1]) {
        rskip_spaces(s, j - 1)
    } else {
        j
    }
}

/// `s` with leading and trailing whitespace removed.
pub open spec fn trimmed(s: Seq<char>) -> Seq<char> {
    let lo = skip_spaces(s, 0);
    let hi = rskip_spaces(s, s.len() as int);
    if lo <= hi {
        s.subrange(lo, hi)
    } else {
        Seq::empty()
    }
}

/// Copies the characters of `s` into a vector.
pub fn chars_of(s: &str) -> (v: Vec<char>)
    ensures
        v@ == s@,
{
    let n = s.unicode_len();
    let mut v: Vec<char> = Vec::new();
    let mut i: usize = 0;
    while i < n
        invariant
            i <= n,
            n == s@.len(),
            v@ == s@.subrange(0, i as int),
        decreases n - i,
    {
        v.push(s.get_char(i));
        proof {
            assert(s@.subrange(0, i + 1) =~= s@.subrange(0, i as int).push(s@[i as int]));
        }
        i += 1;
    }
    proof {
        assert(s@.subrange(0, n as int) =~= s@);
    }
    v
}

/// Copies characters `from..to` of `s` into a fresh `String`.
pub fn string_of_range(s: &str, from: usize, to: usize) -> (r: String)
    requires
        from <= to <= s@.len(),
    ensures
        r@ == s@.subrange(from as int, to as int),
{
    String::from_str(s.substring_char(from, to))
}

/// The first non-whitespace position at or after `from`, executably.
pub fn skip_spaces_from(v: &Vec<char>, from: usize) -> (r: usize)
    requires
        from <= v@.len(),
    ensures
        r == skip_spaces(v@, from as int),
        from <= r <= v@.len(),
{
    let mut i = from;
    while i < v.len() && is_space_char(v[i])
        invariant
            from <= i <= v@.len(),
            skip_spaces(v@, from as int) == skip_spaces(v@, i as int),
        decreases v@.len() - i,
    {
        i += 1;
    }
    i
}

/// Copies the characters `v[from..to]` into a fresh vector.
pub fn copy_range(v: &Vec<char>, from: usize, to: usize) -> (r: Vec<char>)
    requires
        from <= to <= v@.len(),
    ensures
        r@ == v@.subrange(from as int, to as int),
{
    let mut r: Vec<char> = Vec::new();
    let mut i = from;
    while i < to
        invariant
            from <= i <= to <= v@.len(),
            r@ == v@.subrange(from as int, i as int),
        decreases to - i,
    {
        r.push(v[i]);
        proof {
            assert(v@.subrange(from as int, i + 1) =~= v@.subrange(from as int, i as int).push(
                v@[i as int],
            ));
        }
        i += 1;
    }
    r
}

/// The bounds of the trimmed middle of `v`: returns `(lo, hi)` with
/// `lo <= hi` and `v[lo..hi]` equal to `trimmed(v@)`.
pub fn trim_bounds(v: &Vec<char>) -> (r: (usize, usize))
    ensures
        r.0 <= r.1 <= v@.len(),
        v@.subrange(r.0 as int, r.1 as int) == trimmed(v@),
{
    let n = v.len();
    let mut lo: usize = 0;
    while lo < n && is_space_char(v[lo])
        invariant
            lo <= n,
            n == v@.len(),
            skip_spaces(v@, 0) == skip_spaces(v@, lo as int),
        decreases n - lo,
    {
        lo += 1;
    }
    assert(skip_spaces(v@, 0) == lo as int);
    let mut hi: usize = n;
    while hi > 0 && is_space_char(v[hi - 1])
        invariant
            hi <= n,
            n == v@.len(),
            rskip_spaces(v@, n as int) == rskip_spaces(v@, hi as int),
        decreases hi,
    {
        hi -= 1;
    }
    assert(rskip_spaces(v@, n as int) == hi as int);
    if lo <= hi {
        (lo, hi)
    } else {
        proof {
            assert(v@.subrange(0, 0) =~= Seq::<char>::empty());
        }
        (0, 0)
    }
}

/// Whether `pat` occurs as a contiguous run inside `s`.
pub open spec fn has_substring(s: Seq<char>, pat: Seq<char>) -> bool {
    exists|i: int|
        0 <= i && i + pat.len() <= s.len() && #[trigger] s.subrange(i, i + pat.len() as int) == pat
}

/// Substring search, checking every starting position.
pub fn contains_chars(v: &Vec<char>, pat: &Vec<char>) -> (r: bool)
    ensures
        r == has_substring(v@, pat@),
{
    let n = v.len();
    let m = pat.len();
    if m > n {
        assert(!has_substring(v@, pat@));
        return false;
    }
    let mut i: usize = 0;
    while i <= n - m
        invariant
            m <= n,
            n == v@.len(),
            m == pat@.len(),
            i <= n - m + 1,
            forall|k: int|
                0 <= k < i ==> #[trigger] v@.subrange(k, k + pat@.len() as int) != pat@,
        decreases n + 1 - m - i,
    {
        let mut j: usize = 0;
        while j < m && v[i + j] == pat[j]
            invariant
                m <= n,
                n == v@.len(),
                m == pat@.len(),
                i + m <= n,
                j <= m,
                forall|k: int| 0 <= k < j ==> v@[i + k] == pat@[k],
            decreases m - j,
        {
            j += 1;
        }
        if j == m {
            proof {
                assert(v@.subrange(i as int, i + pat@.len() as int) =~= pat@);
            }
            return true;
        }
        proof {
            assert(v@.subrange(i as int, i + pat@.len() as int)[j as int] == v@[i + j]);
            assert(v@.subrange(i as int, i + pat@.len() as int) != pat@);
        }
        i += 1;
    }
    proof {
        assert forall|k: int| 0 <= k && k + pat@.len() <= v@.len() implies #[trigger] v@.subrange(
            k,
            k + pat@.len() as int,
        ) != pat@ by {
            assert(k < i);
        }
    }
    false
}

/// Whether the characters `v[lo..hi]` equal `pat` exactly.
pub fn range_equals(v: &Vec<char>, lo: usize, hi: usize, pat: &Vec<char>) -> (r: bool)
    requires
        lo <= hi <= v@.len(),
    ensures
        r == (v@.subrange(lo as int, hi as int) == pat@),
{
    if hi - lo != pat.len() {
        return false;
    }
    let mut j: usize = 0;
    while j < pat.len()
        invariant
            lo <= hi <= v@.len(),
            hi - lo == pat@.len(),
            j <= pat@.len(),
            forall|k: int| 0 <= k < j ==> v@[lo + k] == pat@[k],
        decreases pat@.len() - j,
    {
        if v[lo + j] != pat[j] {
            proof {
                assert(v@.subrange(lo as int, hi as int)[j as int] == v@[lo + j]);
            }
            return false;
        }
        j += 1;
    }
    proof {
        assert(v@.subrange(lo as int, hi as int) =~= pat@);
    }
    true
}

/// Character-for-character equality of two texts.
pub fn str_eq(a: &str, b: &str) -> (r: bool)
    ensures
        r == (a@ == b@),
{
    let va = chars_of(a);
    let vb = chars_of(b);
    let n = va.len();
    proof {
        assert(va@.subrange(0, n as int) =~= va@);
    }
    range_equals(&va, 0, n, &vb)
}

/// The whitespace-separated words of `s[i..]`, with `cur` the word read so
/// far: words are maximal runs of non-whitespace characters, empty runs
/// dropped.
pub open spec fn split_ws_acc(s: Seq<char>, i: int, cur: Seq<char>) -> Seq<Seq<char>>
    decreases s.len() - i,
    when 0 <= i <= s.len()
{
    if i >= s.len() {
        if cur.len() > 0 {
            seq![cur]
        } else {
            Seq::empty()
        }
    } else if is_space(s[i]) {
        (if cur.len() > 0 {
            seq![cur]
        } else {
            Seq::empty()
        }) + split_ws_acc(s, i + 1, Seq::empty())
    } else {
        split_ws_acc(s, i + 1, cur.push(s[i]))
    }
}

/// The whitespace-separated words of `s`.
pub open spec fn split_ws(s: Seq<char>) -> Seq<Seq<char>> {
    split_ws_acc(s, 0, Seq::empty())
}

/// Splits `s` into its whitespace-separated words.
pub fn split_whitespace_words(s: &str) -> (words: Vec<String>)
    ensures
        words.deep_view() == split_ws(s@),
{
    let v = chars_of(s);
    let n = v.len();
    let mut words: Vec<String> = Vec::new();
    let mut i: usize = 0;
    let mut ws: usize = 0;
    proof {
        assert(words.deep_view() =~= Seq::<Seq<char>>::empty());
        assert(v@.subrange(0, 0) =~= Seq::<char>::empty());
        assert(Seq::<Seq<char>>::empty() + split_ws_acc(v@, 0, Seq::<char>::empty())
            =~= split_ws_acc(v@, 0, Seq::<char>::empty()));
    }
    while i < n
        invariant
            ws <= i <= n,
            n == v@.len(),
            v@ == s@,
            forall|k: int| ws <= k < i ==> !is_space(#[trigger] v@[k]),
            split_ws(s@) == words.deep_view() + split_ws_acc(v@, i as int, v@.subrange(
                ws as int,
                i as int,
            )),
        decreases n - i,
    {
        if is_space_char(v[i]) {
            if ws < i {
                let ghost prev = words.deep_view();
                let w = string_of_range(s, ws, i);
                words.push(w);
                proof {
                    assert(words.deep_view() =~= prev.push(v@.subrange(ws as int, i as int)));
                    assert(prev.push(v@.subrange(ws as int, i as int)) =~= prev + seq![
                        v@.subrange(ws as int, i as int),
                    ]);
                }
            }
            i += 1;
            ws = i;
            proof {
                assert(v@.subrange(ws as int, i as int) =~= Seq::<char>::empty());
            }
        } else {
            proof {
                assert(v@.subrange(ws as int, i + 1) =~= v@.subrange(ws as int, i as int).push(
                    v@[i as int],
                ));
            }
            i += 1;
        }
    }
    if ws < n {
        let ghost prev = words.deep_view();
        let w = string_of_range(s, ws, n);
        words.push(w);
        proof {
            assert(words.deep_view() =~= prev.push(v@.subrange(ws as int, n as int)));
            assert(prev.push(v@.subrange(ws as int, n as int)) =~= prev + seq![
                v@.subrange(ws as int, n as int),
            ]);
        }
    } else {
        proof {
            assert(words.deep_view() + Seq::<Seq<char>>::empty() =~= words.deep_view());
        }
    }
    words
}

/// The lines joined by a single newline between neighbours.
pub open spec fn join_lines(lines: Seq<Seq<char>>) -> Seq<char>
    decreases lines.len(),
{
    if lines.len() == 0 {
        Seq::empty()
    } else if lines.len() == 1 {
        lines[0]
    } else {
        lines[0] + seq!['\n'] + join_lines(lines.drop_first())
    }
}

pub proof fn lemma_join_lines_push(lines: Seq<Seq<char>>, x: Seq<char>)
    ensures
        join_lines(lines.push(x)) == if lines.len() == 0 {
            x
        } else {
            join_lines(lines) + seq!['\n'] + x
        },
    decreases lines.len(),
{
    if lines.len() == 0 {
        assert(lines.push(x).len() == 1);
        assert(join_lines(lines.push(x)) == lines.push(x)[0]);
        assert(lines.push(x)[0] == x);
    } else {
        let l2 = lines.push(x);
        assert(l2.len() >= 2);
        assert(l2[0] == lines[0]);
        assert(l2.drop_first() =~= lines.drop_first().push(x));
        lemma_join_lines_push(lines.drop_first(), x);
        if lines.len() == 1 {
            assert(lines.drop_first().len() == 0);
            assert(join_lines(l2) == lines[0] + seq!['\n'] + x);
            assert(join_lines(lines) == lines[0]);
        } else {
            assert(join_lines(l2) == lines[0] + seq!['\n'] + (join_lines(lines.drop_first())
                + seq!['\n'] + x));
            assert(join_lines(lines) + seq!['\n'] + x == lines[0] + seq!['\n'] + join_lines(
                lines.drop_first(),
            ) + seq!['\n'] + x);
            assert(lines[0] + seq!['\n'] + (join_lines(lines.drop_first()) + seq!['\n'] + x)
                =~= lines[0] + seq!['\n'] + join_lines(lines.drop_first()) + seq!['\n'] + x);
        }
    }
}

/// Joins the stored lines with `'\n'` between neighbours.
pub fn join_strings(lines: &Vec<String>) -> (r: String)
    ensures
        r@ == join_lines(lines.deep_view()),
{
    let mut r = String::new();
    let mut i: usize = 0;
    while i < lines.len()
        invariant
            i <= lines@.len(),
            r@ == join_lines(lines.deep_view().subrange(0, i as int)),
        decreases lines@.len() - i,
    {
        if i > 0 {
            r.append("\n");
            proof {
                reveal_strlit("\n");
            }
        }
        r.append(lines[i].as_str());
        proof {
            let prefix = lines.deep_view().subrange(0, i as int);
            assert(lines.deep_view().subrange(0, i + 1) =~= prefix.push(lines@[i as int]@));
            lemma_join_lines_push(prefix, lines@[i as int]@);
            if i > 0 {
                assert(r@ == join_lines(prefix) + "\n"@ + lines@[i as int]@);
                assert("\n"@ =~= seq!['\n']);
            } else {
                assert(prefix.len() == 0);
            }
        }
        i += 1;
    }
    proof {
        assert(lines.deep_view().subrange(0, lines@.len() as int) =~= lines.deep_view());
    }
    r
}

} // verus!
