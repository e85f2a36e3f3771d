//! Character-level building blocks shared by the repair and grammar code:
//! Unicode whitespace, trimming, and searching over `Seq<char>`.

use vstd::prelude::*;

verus! {

/// `String::push` appends one character to the end of the string.
pub assume_specification[ std::string::String::push ](s: &mut std::string::String, ch: char)
    ensures
        final(s)@ == old(s)@.push(ch),
;

/// The Unicode `White_Space` property, which is what `char::is_whitespace`
/// tests: the ASCII controls U+0009..=U+000D, the space, and the sixteen
/// non-ASCII separators.
pub open spec fn is_ws(c: char) -> bool {
    ||| ('\u{9}' <= c && c <= '\u{d}')
    ||| c == ' '
    ||| c == '\u{85}'
    ||| c == '\u{a0}'
    ||| c == '\u{1680}'
    ||| ('\u{2000}' <= c && c <= '\u{200a}')
    ||| c == '\u{2028}'
    ||| c == '\u{2029}'
    ||| c == '\u{202f}'
    ||| c == '\u{205f}'
    ||| c == '\u{3000}'
}

/// Whether `c` is whitespace, in the sense of [`is_ws`].
pub fn is_whitespace(c: char) -> (r: bool)
    ensures
        r == is_ws(c),
{
    ('\u{9}' <= c && c <= '\u{d}') || c == ' ' || c == '\u{85}' || c == '\u{a0}' || c
        == '\u{1680}' || ('\u{2000}' <= c && c <= '\u{200a}') || c == '\u{2028}' || c
        == '\u{2029}' || c == '\u{202f}' || c == '\u{205f}' || c == '\u{3000}'
}

/// Every character of `s` is whitespace.
pub open spec fn all_ws(s: Seq<char>) -> bool {
    forall|k: int| 0 <= k < s.len() ==> #[trigger] is_ws(s[k])
}

/// The first index at or after `i` that holds a non-whitespace character,
/// or `s.len()` when there is none.
pub open spec fn skip_ws(s: Seq<char>, i: int) -> int
    decreases s.len() - i,
{
    if i < 0 || i >= s.len() {
        s.len() as int
    } else if is_ws(s[i]) {
        skip_ws(s, i + 1)
    } else {
        i
    }
}

/// The end of `s.take(j)` once its trailing whitespace is cut off.
pub open spec fn ws_trimmed_end(s: Seq<char>, j: int) -> int
    decreases j,
{
    if j <= 0 || j > s.len() {
        0
    } else if is_ws(s[j - 1]) {
        ws_trimmed_end(s, j - 1)
    } else {
        j
    }
}

/// `s` without its leading whitespace.
pub open spec fn trim_start(s: Seq<char>) -> Seq<char> {
    s.skip(skip_ws(s, 0))
}

/// `s` without its trailing whitespace.
pub open spec fn trim_end(s: Seq<char>) -> Seq<char> {
    s.take(ws_trimmed_end(s, s.len() as int))
}

/// `s` without leading or trailing whitespace (what `str::trim` returns).
pub open spec fn trim(s: Seq<char>) -> Seq<char> {
    trim_end(trim_start(s))
}

/// The first index at or after `i` where `s` holds `c`.
pub open spec fn find_char_from(s: Seq<char>, c: char, i: int) -> Option<int>
    decreases s.len() - i,
{
    if i < 0 || i >= s.len() {
        None
    } else if s[i] == c {
        Some(i)
    } else {
        find_char_from(s, c, i + 1)
    }
}

/// The first index where `s` holds `c` (what `str::find` returns for a `char`).
pub open spec fn find_char(s: Seq<char>, c: char) -> Option<int> {
    find_char_from(s, c, 0)
}

/// The last index below `j` where `s` holds `c`.
pub open spec fn rfind_char_before(s: Seq<char>, c: char, j: int) -> Option<int>
    decreases j,
{
    if j <= 0 || j > s.len() {
        None
    } else if s[j - 1] == c {
        Some(j - 1)
    } else {
        rfind_char_before(s, c, j - 1)
    }
}

/// The last index where `s` holds `c` (what `str::rfind` returns for a `char`).
pub open spec fn rfind_char(s: Seq<char>, c: char) -> Option<int> {
    rfind_char_before(s, c, s.len() as int)
}

// ---------------------------------------------------------------------------
// Facts about the search functions.
// ---------------------------------------------------------------------------

/// `skip_ws` lands in range, on a non-whitespace character, past only whitespace.
pub proof fn lemma_skip_ws(s: Seq<char>, i: int)
    requires
        0 <= i <= s.len(),
    ensures
        i <= skip_ws(s, i) <= s.len(),
        skip_ws(s, i) < s.len() ==> !is_ws(s[skip_ws(s, i)]),
        forall|k: int| i <= k < skip_ws(s, i) ==> #[trigger] is_ws(s[k]),
    decreases s.len() - i,
{
    if i < s.len() && is_ws(s[i]) {
        lemma_skip_ws(s, i + 1);
    }
}

/// `find_char_from` finds the first occurrence at or after `i`.
pub proof fn lemma_find_char_from(s: Seq<char>, c: char, i: int)
    requires
        0 <= i <= s.len(),
    ensures
        match find_char_from(s, c, i) {
            Some(k) => i <= k < s.len() && s[k] == c && forall|m: int|
                i <= m < k ==> #[trigger] s[m] != c,
            None => forall|m: int| i <= m < s.len() ==> #[trigger] s[m] != c,
        },
    decreases s.len() - i,
{
    if i < s.len() && s[i] != c {
        lemma_find_char_from(s, c, i + 1);
    }
}

/// `rfind_char_before` finds the last occurrence below `j`.
pub proof fn lemma_rfind_char_before(s: Seq<char>, c: char, j: int)
    requires
        0 <= j <= s.len(),
    ensures
        match rfind_char_before(s, c, j) {
            Some(k) => 0 <= k < j && s[k] == c && forall|m: int|
                k < m < j ==> #[trigger] s[m] != c,
            None => forall|m: int| 0 <= m < j ==> #[trigger] s[m] != c,
        },
    decreases j,
{
    if j > 0 && s[j - 1] != c {
        lemma_rfind_char_before(s, c, j - 1);
    }
}

/// The whole of `s` is whitespace exactly when `skip_ws` runs off its end.
pub proof fn lemma_all_ws_skip(s: Seq<char>, i: int)
    requires
        0 <= i <= s.len(),
    ensures
        all_ws(s.skip(i)) <==> skip_ws(s, i) == s.len(),
{
    lemma_skip_ws(s, i);
    if skip_ws(s, i) < s.len() {
        let k = skip_ws(s, i);
        assert(s.skip(i)[k - i] == s[k]);
    } else {
        assert forall|k: int| 0 <= k < s.skip(i).len() implies #[trigger] is_ws(s.skip(i)[k]) by {
            assert(s.skip(i)[k] == s[k + i]);
        }
    }
}

/// `skip_ws` is the only index past nothing but whitespace that lands on a
/// non-whitespace character (or the end).
pub proof fn lemma_skip_ws_unique(s: Seq<char>, i: int, j: int)
    requires
        0 <= i <= j <= s.len(),
        forall|k: int| i <= k < j ==> #[trigger] is_ws(s[k]),
        j < s.len() ==> !is_ws(s[j]),
    ensures
        skip_ws(s, i) == j,
    decreases j - i,
{
    if i < j {
        lemma_skip_ws_unique(s, i + 1, j);
    }
}

/// `ws_trimmed_end` is the only end before nothing but whitespace that
/// follows a non-whitespace character (or the start).
pub proof fn lemma_ws_trimmed_end_unique(s: Seq<char>, j: int, e: int)
    requires
        0 <= e <= j <= s.len(),
        forall|k: int| e <= k < j ==> #[trigger] is_ws(s[k]),
        e > 0 ==> !is_ws(s[e - 1]),
    ensures
        ws_trimmed_end(s, j) == e,
    decreases j - e,
{
    if e < j {
        lemma_ws_trimmed_end_unique(s, j - 1, e);
    }
}

/// A text with only whitespace before `a` and from `e` on, and
/// non-whitespace at `a` and at `e - 1`, trims to `s[a..e]`.
pub proof fn lemma_trim_exact(s: Seq<char>, a: int, e: int)
    requires
        0 <= a < e <= s.len(),
        forall|k: int| 0 <= k < a ==> #[trigger] is_ws(s[k]),
        forall|k: int| e <= k < s.len() ==> #[trigger] is_ws(s[k]),
        !is_ws(s[a]),
        !is_ws(s[e - 1]),
    ensures
        trim(s) == s.subrange(a, e),
{
    lemma_skip_ws_unique(s, 0, a);
    let u = s.skip(a);
    assert forall|k: int| e - a <= k < u.len() implies #[trigger] is_ws(u[k]) by {
        assert(u[k] == s[k + a]);
    }
    assert(u[e - a - 1] == s[e - 1]);
    lemma_ws_trimmed_end_unique(u, u.len() as int, e - a);
    assert(u.take(e - a) == s.subrange(a, e));
}

// ---------------------------------------------------------------------------
// Executable counterparts, over a window `[lo, hi)` of a character vector.
// ---------------------------------------------------------------------------

/// The characters of `s`, in order.
pub fn chars_of(s: &str) -> (r: Vec<char>)
    ensures
        r@ == s@,
{
    let mut out: Vec<char> = Vec::new();
    for c in it: s.chars()
        invariant
            out@ == it.seq().take(it.index() as int),
            it.seq() == s@,
    {
        out.push(c);
    }
    out
}

/// A string holding exactly `cs[lo..hi]`.
pub fn string_of_range(cs: &Vec<char>, lo: usize, hi: usize) -> (r: String)
    requires
        lo <= hi <= cs.len(),
    ensures
        r@ == cs@.subrange(lo as int, hi as int),
{
    let mut out = String::new();
    let mut i = lo;
    while i < hi
        invariant
            lo <= i <= hi <= cs.len(),
            out@ == cs@.subrange(lo as int, i as int),
        decreases hi - i,
    {
        out.push(cs[i]);
        assert(cs@.subrange(lo as int, i + 1) == cs@.subrange(lo as int, i as int).push(
            cs@[i as int],
        ));
        i += 1;
    }
    out
}

/// The bounds of `trim(cs[lo..hi])`, as a window of `cs`.
pub fn trim_window(cs: &Vec<char>, lo: usize, hi: usize) -> (r: (usize, usize))
    requires
        lo <= hi <= cs.len(),
    ensures
        lo <= r.0 <= r.1 <= hi,
        cs@.subrange(r.0 as int, r.1 as int) == trim(cs@.subrange(lo as int, hi as int)),
{
    let ghost t = cs@.subrange(lo as int, hi as int);
    let mut a = lo;
    while a < hi && is_whitespace(cs[a])
        invariant
            lo <= a <= hi <= cs.len(),
            t == cs@.subrange(lo as int, hi as int),
            skip_ws(t, (a - lo) as int) == skip_ws(t, 0),
        decreases hi - a,
    {
        a += 1;
    }
    let ghost u = t.skip(skip_ws(t, 0));
    assert(u == cs@.subrange(a as int, hi as int));
    let mut b = hi;
    while b > a && is_whitespace(cs[b - 1])
        invariant
            lo <= a <= b <= hi <= cs.len(),
            u == cs@.subrange(a as int, hi as int),
            ws_trimmed_end(u, (b - a) as int) == ws_trimmed_end(u, u.len() as int),
        decreases b,
    {
        b -= 1;
    }
    assert(cs@.subrange(a as int, b as int) == u.take((b - a) as int));
    (a, b)
}

} // verus!
