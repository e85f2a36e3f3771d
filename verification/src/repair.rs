//! JSON repair for small quantized models, which frequently drift: code
//! fences, prose around the object, and trailing commas.
//!
//! The repair is a pure function on characters ([`repaired_json`]); the only
//! outside call is the JSON parse that decides whether a text needs repair
//! at all, which is named ([`json_value_kind`]) rather than restated.

use vstd::prelude::*;

use crate::json::{json_value_kind, parse_json_kind, JsonKind};
use crate::text::{
    all_ws, chars_of, find_char, find_char_from, is_whitespace, is_ws, lemma_all_ws_skip,
    lemma_find_char_from, lemma_rfind_char_before, lemma_skip_ws, lemma_skip_ws_unique,
    lemma_trim_exact, rfind_char, rfind_char_before, skip_ws, string_of_range, trim, trim_window,
};

verus! {

// ---------------------------------------------------------------------------
// Specification of the repair.
// ---------------------------------------------------------------------------

/// A code fence (three backticks) starts at index `p` of `s`.
pub open spec fn is_fence_at(s: Seq<char>, p: int) -> bool {
    &&& 0 <= p
    &&& p + 3 <= s.len()
    &&& s[p] == '`'
    &&& s[p + 1] == '`'
    &&& s[p + 2] == '`'
}

/// The last index at or below `p` where a code fence starts.
pub open spec fn last_fence_at_or_before(s: Seq<char>, p: int) -> Option<int>
    decreases p + 1,
{
    if p < 0 {
        None
    } else if is_fence_at(s, p) {
        Some(p)
    } else {
        last_fence_at_or_before(s, p - 1)
    }
}

/// Where the last code fence of `s` starts (what `str::rfind("```")` returns).
pub open spec fn rfind_fence(s: Seq<char>) -> Option<int> {
    last_fence_at_or_before(s, s.len() - 3)
}

/// A leading fence is removed together with the rest of its line (the
/// language tag, such as `json`); with no newline after it, only the three
/// backticks go.
pub open spec fn strip_open_fence(s: Seq<char>) -> Seq<char> {
    if is_fence_at(s, 0) {
        let rest = s.skip(3);
        match find_char(rest, '\n') {
            Some(nl) => rest.skip(nl + 1),
            None => rest,
        }
    } else {
        s
    }
}

/// The last fence is cut off, with everything after it, when only
/// whitespace follows it.
pub open spec fn strip_close_fence(s: Seq<char>) -> Seq<char> {
    match rfind_fence(s) {
        Some(p) => if all_ws(s.skip(p + 3)) {
            s.take(p)
        } else {
            s
        },
        None => s,
    }
}

/// The text with surrounding whitespace and code fences removed.
pub open spec fn defenced(raw: Seq<char>) -> Seq<char> {
    trim(strip_close_fence(strip_open_fence(trim(raw))))
}

/// From the first `{` through the last `}`, when a `{` comes before the last
/// `}`; otherwise the text unchanged.
pub open spec fn narrow_to_object(s: Seq<char>) -> Seq<char> {
    match (find_char(s, '{'), rfind_char(s, '}')) {
        (Some(a), Some(b)) => if b > a {
            s.subrange(a, b + 1)
        } else {
            s
        },
        _ => s,
    }
}

/// A closing brace or bracket.
pub open spec fn is_closer(c: char) -> bool {
    c == '}' || c == ']'
}

/// The comma at index `i` of `s` is followed, after optional whitespace, by
/// a closing brace or bracket: it is a trailing comma, and goes.
pub open spec fn is_trailing_comma(s: Seq<char>, i: int) -> bool {
    &&& s[i] == ','
    &&& skip_ws(s, i + 1) < s.len()
    &&& is_closer(s[skip_ws(s, i + 1)])
}

/// The first `n` characters of `s`, without their trailing commas.
pub open spec fn commas_kept(s: Seq<char>, n: int) -> Seq<char>
    decreases n,
{
    if n <= 0 {
        seq![]
    } else if is_trailing_comma(s, n - 1) {
        commas_kept(s, n - 1)
    } else {
        commas_kept(s, n - 1).push(s[n - 1])
    }
}

/// `s` with every trailing comma removed and every other character kept.
pub open spec fn strip_commas(s: Seq<char>) -> Seq<char> {
    commas_kept(s, s.len() as int)
}

/// What [`repair_json_text`] makes of a model's raw output.
pub open spec fn repaired_json(raw: Seq<char>) -> Seq<char> {
    strip_commas(narrow_to_object(defenced(raw)))
}

// ---------------------------------------------------------------------------
// Searches over a window `[lo, hi)` of a character vector.
// ---------------------------------------------------------------------------

/// The first index of `c` in `cs[lo..hi]`, counted from the start of `cs`.
fn find_in_window(cs: &Vec<char>, c: char, lo: usize, hi: usize) -> (r: Option<usize>)
    requires
        lo <= hi <= cs.len(),
    ensures
        match r {
            Some(k) => lo <= k < hi && find_char(cs@.subrange(lo as int, hi as int), c) == Some(
                k - lo,
            ),
            None => find_char(cs@.subrange(lo as int, hi as int), c) is None,
        },
{
    let ghost t = cs@.subrange(lo as int, hi as int);
    let mut i = lo;
    while i < hi
        invariant
            lo <= i <= hi <= cs.len(),
            t == cs@.subrange(lo as int, hi as int),
            find_char_from(t, c, (i - lo) as int) == find_char(t, c),
        decreases hi - i,
    {
        if cs[i] == c {
            return Some(i);
        }
        i += 1;
    }
    None
}

/// The last index of `c` in `cs[lo..hi]`, counted from the start of `cs`.
fn rfind_in_window(cs: &Vec<char>, c: char, lo: usize, hi: usize) -> (r: Option<usize>)
    requires
        lo <= hi <= cs.len(),
    ensures
        match r {
            Some(k) => lo <= k < hi && rfind_char(cs@.subrange(lo as int, hi as int), c) == Some(
                k - lo,
            ),
            None => rfind_char(cs@.subrange(lo as int, hi as int), c) is None,
        },
{
    let ghost t = cs@.subrange(lo as int, hi as int);
    let mut j = hi;
    while j > lo
        invariant
            lo <= j <= hi <= cs.len(),
            t == cs@.subrange(lo as int, hi as int),
            rfind_char_before(t, c, (j - lo) as int) == rfind_char(t, c),
        decreases j,
    {
        if cs[j - 1] == c {
            return Some(j - 1);
        }
        j -= 1;
    }
    None
}

/// Where the last code fence in `cs[lo..hi]` starts, counted from the start of `cs`.
fn rfind_fence_in_window(cs: &Vec<char>, lo: usize, hi: usize) -> (r: Option<usize>)
    requires
        lo <= hi <= cs.len(),
    ensures
        match r {
            Some(p) => lo <= p && p + 3 <= hi && rfind_fence(cs@.subrange(lo as int, hi as int))
                == Some(p - lo),
            None => rfind_fence(cs@.subrange(lo as int, hi as int)) is None,
        },
{
    let ghost t = cs@.subrange(lo as int, hi as int);
    if hi - lo < 3 {
        return None;
    }
    let mut p = hi - 3;
    loop
        invariant
            lo <= p,
            p + 3 <= hi <= cs.len(),
            t == cs@.subrange(lo as int, hi as int),
            last_fence_at_or_before(t, (p - lo) as int) == rfind_fence(t),
        decreases p,
    {
        if cs[p] == '`' && cs[p + 1] == '`' && cs[p + 2] == '`' {
            return Some(p);
        }
        if p == lo {
            assert(!is_fence_at(t, 0));
            assert(last_fence_at_or_before(t, -1) is None);
            return None;
        }
        p -= 1;
    }
}

/// The first index at or after `i` in `cs[..hi]` that holds a non-whitespace
/// character, or `hi`.
fn skip_ws_in_window(cs: &Vec<char>, i: usize, hi: usize) -> (r: usize)
    requires
        i <= hi <= cs.len(),
    ensures
        i <= r <= hi,
        forall|k: int| i <= k < r ==> #[trigger] is_ws(cs@[k]),
        r < hi ==> !is_ws(cs@[r as int]),
{
    let mut j = i;
    while j < hi && is_whitespace(cs[j])
        invariant
            i <= j <= hi <= cs.len(),
            forall|k: int| i <= k < j ==> #[trigger] is_ws(cs@[k]),
        decreases hi - j,
    {
        j += 1;
    }
    j
}

// ---------------------------------------------------------------------------
// The repair itself.
// ---------------------------------------------------------------------------

/// Removes a comma that appears (possibly followed by whitespace) directly
/// before a closing `}` or `]`.
fn strip_trailing_commas(s: &str) -> (r: String)
    ensures
        r@ == strip_commas(s@),
{
    let cs = chars_of(s);
    let n = cs.len();
    let mut out = String::new();
    let mut i: usize = 0;
    while i < n
        invariant
            i <= n == cs@.len(),
            cs@ == s@,
            out@ == commas_kept(cs@, i as int),
        decreases n - i,
    {
        let mut drop = false;
        if cs[i] == ',' {
            let j = skip_ws_in_window(&cs, i + 1, n);
            proof {
                lemma_skip_ws(cs@, i + 1);
                lemma_skip_ws_unique(cs@, i + 1, j as int);
            }
            if j < n && (cs[j] == '}' || cs[j] == ']') {
                drop = true;
            }
        }
        if !drop {
            out.push(cs[i]);
        }
        i += 1;
    }
    out
}

/// The window of `cs` left after [`strip_open_fence`] on `cs[lo..hi]`.
fn strip_open_fence_window(cs: &Vec<char>, lo: usize, hi: usize) -> (r: usize)
    requires
        lo <= hi <= cs.len(),
    ensures
        lo <= r <= hi,
        cs@.subrange(r as int, hi as int) == strip_open_fence(cs@.subrange(lo as int, hi as int)),
{
    let ghost s0 = cs@.subrange(lo as int, hi as int);
    if hi - lo >= 3 && cs[lo] == '`' && cs[lo + 1] == '`' && cs[lo + 2] == '`' {
        assert(s0.skip(3) == cs@.subrange(lo + 3, hi as int));
        match find_in_window(&cs, '\n', lo + 3, hi) {
            Some(nl) => {
                assert(s0.skip(3).skip(nl - lo - 3 + 1) == cs@.subrange(nl + 1, hi as int));
                nl + 1
            },
            None => lo + 3,
        }
    } else {
        lo
    }
}

/// The window of `cs` left after [`strip_close_fence`] on `cs[lo..hi]`.
fn strip_close_fence_window(cs: &Vec<char>, lo: usize, hi: usize) -> (r: usize)
    requires
        lo <= hi <= cs.len(),
    ensures
        lo <= r <= hi,
        cs@.subrange(lo as int, r as int) == strip_close_fence(cs@.subrange(lo as int, hi as int)),
{
    let ghost s1 = cs@.subrange(lo as int, hi as int);
    match rfind_fence_in_window(&cs, lo, hi) {
        Some(p) => {
            let e = skip_ws_in_window(&cs, p + 3, hi);
            proof {
                lemma_all_ws_skip(s1, p + 3 - lo);
                assert forall|k: int| p + 3 - lo <= k < e - lo implies #[trigger] is_ws(s1[k]) by {
                    assert(s1[k] == cs@[k + lo]);
                }
                if e < hi {
                    assert(s1[e - lo] == cs@[e as int]);
                }
                lemma_skip_ws_unique(s1, p + 3 - lo, e - lo);
            }
            if e == hi {
                assert(s1.take(p - lo) == cs@.subrange(lo as int, p as int));
                p
            } else {
                hi
            }
        },
        None => hi,
    }
}

/// The window of `cs` left after [`narrow_to_object`] on `cs[lo..hi]`.
fn narrow_window(cs: &Vec<char>, lo: usize, hi: usize) -> (r: (usize, usize))
    requires
        lo <= hi <= cs.len(),
    ensures
        lo <= r.0 <= r.1 <= hi,
        cs@.subrange(r.0 as int, r.1 as int) == narrow_to_object(
            cs@.subrange(lo as int, hi as int),
        ),
{
    let ghost s = cs@.subrange(lo as int, hi as int);
    match (find_in_window(&cs, '{', lo, hi), rfind_in_window(&cs, '}', lo, hi)) {
        (Some(start), Some(end)) => {
            if end > start {
                assert(s.subrange(start - lo, end - lo + 1) == cs@.subrange(
                    start as int,
                    end + 1,
                ));
                (start, end + 1)
            } else {
                (lo, hi)
            }
        },
        _ => (lo, hi),
    }
}

/// Best-effort cleanup of a model's raw JSON output: strips ```json fences,
/// narrows to the outermost `{...}`, and removes trailing commas before a
/// closing brace/bracket. Does not itself validate the result is valid JSON.
pub fn repair_json_text(raw: &str) -> (r: String)
    ensures
        r@ == repaired_json(raw@),
{
    let cs = chars_of(raw);
    assert(cs@.subrange(0, cs@.len() as int) == raw@);
    let (lo, hi) = trim_window(&cs, 0, cs.len());
    let lo = strip_open_fence_window(&cs, lo, hi);
    let hi = strip_close_fence_window(&cs, lo, hi);
    let (lo, hi) = trim_window(&cs, lo, hi);
    let (lo, hi) = narrow_window(&cs, lo, hi);
    let narrowed = string_of_range(&cs, lo, hi);
    strip_trailing_commas(narrowed.as_str())
}

// ---------------------------------------------------------------------------
// Laws of the repair.
// ---------------------------------------------------------------------------

/// Not a comma.
pub open spec fn not_comma(c: char) -> bool {
    c != ','
}

/// The last code fence found at or below `p` starts at or below `p`.
proof fn lemma_last_fence(s: Seq<char>, p: int)
    ensures
        last_fence_at_or_before(s, p) matches Some(q) ==> q <= p && is_fence_at(s, q),
    decreases p + 1,
{
    if p >= 0 && !is_fence_at(s, p) {
        lemma_last_fence(s, p - 1);
    }
}

/// With no trailing comma among its first `n` characters, `s` loses none of them.
proof fn lemma_commas_kept_identity(s: Seq<char>, n: int)
    requires
        0 <= n <= s.len(),
        forall|i: int| 0 <= i < n ==> !#[trigger] is_trailing_comma(s, i),
    ensures
        commas_kept(s, n) == s.take(n),
    decreases n,
{
    if n > 0 {
        lemma_commas_kept_identity(s, n - 1);
        assert(!is_trailing_comma(s, n - 1));
        assert(s.take(n) == s.take(n - 1).push(s[n - 1]));
    }
}

/// Stripping trailing commas keeps the first character when it is not a comma.
proof fn lemma_commas_kept_first(s: Seq<char>, n: int)
    requires
        1 <= n <= s.len(),
        s[0] != ',',
    ensures
        commas_kept(s, n).len() >= 1,
        commas_kept(s, n)[0] == s[0],
    decreases n,
{
    if n > 1 {
        lemma_commas_kept_first(s, n - 1);
        if !is_trailing_comma(s, n - 1) {
            assert(commas_kept(s, n)[0] == commas_kept(s, n - 1)[0]);
        }
    } else {
        assert(!is_trailing_comma(s, 0));
        assert(commas_kept(s, 0).len() == 0);
        assert(commas_kept(s, 1) == seq![s[0]]);
    }
}

/// Removing commas from what [`strip_commas`] keeps of a prefix gives the
/// same as removing them from the prefix itself.
proof fn lemma_commas_kept_filter(s: Seq<char>, n: int)
    requires
        0 <= n <= s.len(),
    ensures
        commas_kept(s, n).filter(|c: char| not_comma(c)) == s.take(n).filter(|c: char| not_comma(c)),
    decreases n,
{
    reveal(Seq::filter);
    if n > 0 {
        lemma_commas_kept_filter(s, n - 1);
        assert(s.take(n).drop_last() == s.take(n - 1));
        if !is_trailing_comma(s, n - 1) {
            assert(commas_kept(s, n).drop_last() == commas_kept(s, n - 1));
        }
    } else {
        assert(s.take(0).len() == 0);
    }
}

/// Trailing-comma removal takes out commas and nothing else: every other
/// character survives, in order, and nothing is added.
pub proof fn law_strip_commas_removes_only_commas(s: Seq<char>)
    ensures
        strip_commas(s).filter(|c: char| not_comma(c)) == s.filter(|c: char| not_comma(c)),
        strip_commas(s).len() <= s.len(),
{
    lemma_commas_kept_filter(s, s.len() as int);
    assert(s.take(s.len() as int) == s);
    lemma_commas_kept_len(s, s.len() as int);
}

/// What [`strip_commas`] keeps of a prefix is no longer than the prefix.
proof fn lemma_commas_kept_len(s: Seq<char>, n: int)
    requires
        0 <= n <= s.len(),
    ensures
        commas_kept(s, n).len() <= n,
    decreases n,
{
    if n > 0 {
        lemma_commas_kept_len(s, n - 1);
    }
}

/// A bare JSON-like object: it starts with `{`, ends with `}`, and has no
/// comma before a closing brace or bracket.
pub open spec fn is_clean_object(t: Seq<char>) -> bool {
    &&& t.len() >= 2
    &&& t[0] == '{'
    &&& t[t.len() - 1] == '}'
    &&& forall|i: int| 0 <= i < t.len() ==> !#[trigger] is_trailing_comma(t, i)
}

/// Three backticks.
pub open spec fn fence() -> Seq<char> {
    seq!['`', '`', '`']
}

/// Narrowing and comma stripping leave a clean object as it is.
proof fn lemma_clean_object_is_kept(t: Seq<char>)
    requires
        is_clean_object(t),
    ensures
        strip_commas(narrow_to_object(t)) == t,
{
    let n = t.len() as int;
    assert(find_char(t, '{') == Some(0int));
    assert(rfind_char(t, '}') == Some(n - 1));
    assert(t.subrange(0, n) == t);
    assert(narrow_to_object(t) == t);
    lemma_commas_kept_identity(t, n);
    assert(t.take(n) == t);
}

/// Output that is already a bare object comes through repair unchanged:
/// repairing grammar-constrained output is a no-op on every character.
pub proof fn law_repair_keeps_a_clean_object(t: Seq<char>)
    requires
        is_clean_object(t),
    ensures
        repaired_json(t) == t,
{
    let n = t.len() as int;
    lemma_trim_exact(t, 0, n);
    assert(t.subrange(0, n) == t);
    // There is no leading fence.
    assert(strip_open_fence(t) == t);
    // A trailing fence would be followed by the closing brace.
    lemma_last_fence(t, n - 3);
    if let Some(p) = rfind_fence(t) {
        assert(t.skip(p + 3)[n - 1 - (p + 3)] == t[n - 1]);
        assert(!all_ws(t.skip(p + 3)));
    }
    assert(strip_close_fence(t) == t);
    assert(defenced(t) == t);
    lemma_clean_object_is_kept(t);
}

/// A clean object wrapped in a code fence — with any language tag on the
/// fence's line — repairs to the object alone.
pub proof fn law_repair_unwraps_a_fenced_object(tag: Seq<char>, body: Seq<char>)
    requires
        is_clean_object(body),
        forall|k: int| 0 <= k < tag.len() ==> #[trigger] tag[k] != '\n',
    ensures
        repaired_json(fence() + tag + seq!['\n'] + body + seq!['\n'] + fence()) == body,
{
    let raw = fence() + tag + seq!['\n'] + body + seq!['\n'] + fence();
    let n = raw.len() as int;
    // Trimming finds nothing to trim.
    lemma_trim_exact(raw, 0, n);
    assert(raw.subrange(0, n) == raw);
    // The opening fence goes with its line.
    let rest = raw.skip(3);
    assert(rest == tag + seq!['\n'] + body + seq!['\n'] + fence());
    lemma_find_char_from(rest, '\n', 0);
    assert(rest[tag.len() as int] == '\n');
    assert forall|m: int| 0 <= m < tag.len() implies #[trigger] rest[m] != '\n' by {
        assert(rest[m] == tag[m]);
    }
    assert(find_char(rest, '\n') == Some(tag.len() as int));
    let s1 = rest.skip(tag.len() as int + 1);
    assert(s1 == body + seq!['\n'] + fence());
    assert(strip_open_fence(raw) == s1);
    // The closing fence ends the text, so it goes.
    let m1 = s1.len() as int;
    assert(is_fence_at(s1, m1 - 3));
    assert(rfind_fence(s1) == Some(m1 - 3));
    assert(all_ws(s1.skip(m1)));
    let s2 = s1.take(m1 - 3);
    assert(s2 == body + seq!['\n']);
    assert(strip_close_fence(s1) == s2);
    // The newline before it is trimmed away.
    lemma_trim_exact(s2, 0, body.len() as int);
    assert(s2.subrange(0, body.len() as int) == body);
    assert(defenced(raw) == body);
    lemma_clean_object_is_kept(body);
}

/// Whenever the unfenced text holds a `{` before a `}`, the repaired text is
/// framed as an object: it starts with `{` and ends with `}`.
pub proof fn law_repair_frames_an_object(raw: Seq<char>, i: int, j: int)
    requires
        0 <= i < j < defenced(raw).len(),
        defenced(raw)[i] == '{',
        defenced(raw)[j] == '}',
    ensures
        repaired_json(raw).len() >= 2,
        repaired_json(raw)[0] == '{',
        repaired_json(raw)[repaired_json(raw).len() - 1] == '}',
{
    let d = defenced(raw);
    lemma_find_char_from(d, '{', 0);
    lemma_rfind_char_before(d, '}', d.len() as int);
    let a = find_char(d, '{')->0;
    let b = rfind_char(d, '}')->0;
    assert(a <= i && j <= b);
    let t = d.subrange(a, b + 1);
    assert(narrow_to_object(d) == t);
    let m = t.len() as int;
    lemma_commas_kept_first(t, m);
    assert(t[m - 1] == '}');
    assert(!is_trailing_comma(t, m - 1));
    assert(commas_kept(t, m) == commas_kept(t, m - 1).push(t[m - 1]));
    if m - 1 >= 1 {
        lemma_commas_kept_first(t, m - 1);
    }
}

/// The comma at index `i` of `s` is followed by a run of whitespace, of any
/// length, and then by a closing brace or bracket.
pub open spec fn comma_closes_after_whitespace(s: Seq<char>, i: int) -> bool {
    &&& s[i] == ','
    &&& exists|k: int|
        #![trigger s[k]]
        i < k < s.len() && (s[k] == '}' || s[k] == ']') && forall|m: int|
            #![trigger s[m]]
            i < m < k ==> is_ws(s[m])
}

/// The characters of `s[..n]`, in order, leaving out exactly those at
/// indices where [`comma_closes_after_whitespace`] holds.
pub open spec fn chars_without_closing_commas(s: Seq<char>, n: int) -> Seq<char> {
    Seq::new(n as nat, |i: int| (i, s[i])).filter(
        |p: (int, char)| !comma_closes_after_whitespace(s, p.0),
    ).map_values(|p: (int, char)| p.1)
}

/// A trailing comma, in the sense [`is_trailing_comma`] tests by scanning,
/// is exactly a comma followed by whitespace and then a closer.
proof fn lemma_trailing_comma_direct(s: Seq<char>, i: int)
    requires
        0 <= i < s.len(),
    ensures
        is_trailing_comma(s, i) <==> comma_closes_after_whitespace(s, i),
{
    lemma_skip_ws(s, i + 1);
    let j = skip_ws(s, i + 1);
    if is_trailing_comma(s, i) {
        assert(forall|m: int| i < m < j ==> #[trigger] is_ws(s[m]));
        assert(s[j] == '}' || s[j] == ']');
    }
    if comma_closes_after_whitespace(s, i) {
        let k = choose|k: int|
            #![trigger s[k]]
            i < k < s.len() && (s[k] == '}' || s[k] == ']') && forall|m: int|
                #![trigger s[m]]
                i < m < k ==> is_ws(s[m]);
        assert(!is_ws(s[k]));
        if j < k {
            assert(is_ws(s[j]));
        }
        if k < j {
            assert(is_ws(s[k]));
        }
        assert(j == k);
    }
}

proof fn lemma_commas_kept_direct(s: Seq<char>, n: int)
    requires
        0 <= n <= s.len(),
    ensures
        commas_kept(s, n) == chars_without_closing_commas(s, n),
    decreases n,
{
    reveal(Seq::filter);
    let pred = |p: (int, char)| !comma_closes_after_whitespace(s, p.0);
    let f = |p: (int, char)| p.1;
    let pairs = Seq::new(n as nat, |i: int| (i, s[i]));
    if n == 0 {
        assert(pairs.filter(pred) =~= Seq::<(int, char)>::empty());
        assert(chars_without_closing_commas(s, n) =~= Seq::<char>::empty());
    } else {
        lemma_commas_kept_direct(s, n - 1);
        lemma_trailing_comma_direct(s, n - 1);
        let prev = Seq::new((n - 1) as nat, |i: int| (i, s[i]));
        assert(pairs.drop_last() =~= prev);
        assert(pairs.last() == (n - 1, s[n - 1]));
        assert(pairs.filter(pred) == if pred(pairs.last()) {
            prev.filter(pred).push(pairs.last())
        } else {
            prev.filter(pred)
        });
        if pred(pairs.last()) {
            assert(prev.filter(pred).push(pairs.last()).map_values(f) =~= prev.filter(
                pred,
            ).map_values(f).push(s[n - 1]));
        }
    }
}

/// Trailing-comma removal drops exactly the commas that are followed, after
/// a whitespace run of any length, by `}` or `]`, and keeps every other
/// character, in order.
pub proof fn law_strip_commas_drops_exactly_closing_commas(s: Seq<char>)
    ensures
        strip_commas(s) == chars_without_closing_commas(s, s.len() as int),
{
    lemma_commas_kept_direct(s, s.len() as int);
}

/// Text that already starts with `{` and ends with `}` is not cut by fence
/// stripping, trimming or narrowing.
proof fn lemma_object_shape_is_kept(t: Seq<char>)
    requires
        t.len() >= 2,
        t[0] == '{',
        t[t.len() - 1] == '}',
    ensures
        narrow_to_object(defenced(t)) == t,
{
    let n = t.len() as int;
    lemma_trim_exact(t, 0, n);
    assert(t.subrange(0, n) == t);
    assert(strip_open_fence(t) == t);
    lemma_last_fence(t, n - 3);
    if let Some(p) = rfind_fence(t) {
        assert(t.skip(p + 3)[n - 1 - (p + 3)] == t[n - 1]);
        assert(!all_ws(t.skip(p + 3)));
    }
    assert(strip_close_fence(t) == t);
    assert(defenced(t) == t);
    assert(find_char(t, '{') == Some(0int));
    assert(rfind_char(t, '}') == Some(n - 1));
}

/// Repairing text shaped as an object — `{` first, `}` last — removes its
/// trailing commas and nothing else: every comma followed by whitespace and
/// a closer goes, every other character stays in order.
pub proof fn law_repair_of_an_object_drops_its_closing_commas(t: Seq<char>)
    requires
        t.len() >= 2,
        t[0] == '{',
        t[t.len() - 1] == '}',
    ensures
        repaired_json(t) == chars_without_closing_commas(t, t.len() as int),
{
    lemma_object_shape_is_kept(t);
    lemma_commas_kept_direct(t, t.len() as int);
}

// ---------------------------------------------------------------------------
// Deciding when repair is needed, and what it yields.
// ---------------------------------------------------------------------------

/// `raw`, trimmed, does not parse as a single JSON object.
pub open spec fn spec_needs_repair(raw: Seq<char>) -> bool {
    !(json_value_kind(trim(raw)) matches Ok(JsonKind::Object))
}

/// Whether a parse result falls short of a JSON object.
pub fn repair_needed_for(parsed: &Result<JsonKind, String>) -> (r: bool)
    ensures
        r == !(parsed matches Ok(JsonKind::Object)),
{
    match parsed {
        Ok(JsonKind::Object) => false,
        _ => true,
    }
}

/// `true` when `raw` isn't already a single JSON object and would have to go
/// through [`repair_json_text`] to become one.
pub fn needs_repair(raw: &str) -> (r: bool)
    ensures
        r == spec_needs_repair(raw@),
{
    let cs = chars_of(raw);
    assert(cs@.subrange(0, cs@.len() as int) == raw@);
    let (lo, hi) = trim_window(&cs, 0, cs.len());
    let trimmed = string_of_range(&cs, lo, hi);
    let parsed = parse_json_kind(trimmed.as_str());
    repair_needed_for(&parsed)
}

/// The error for repaired output that parses, but not as an object.
pub open spec fn not_an_object_message() -> Seq<char> {
    "model output was valid JSON but not an object"@
}

/// The error for repaired output that does not parse, given the parser's message.
pub open spec fn invalid_after_repair_message(parser_error: Seq<char>) -> Seq<char> {
    "invalid JSON after repair: "@ + parser_error
}

/// What becomes of repaired text, given how it parsed.
pub open spec fn spec_outcome_after_repair(
    cleaned: Seq<char>,
    parsed: Result<JsonKind, Seq<char>>,
) -> Result<Seq<char>, Seq<char>> {
    match parsed {
        Ok(JsonKind::Object) => Ok(cleaned),
        Ok(_) => Err(not_an_object_message()),
        Err(e) => Err(invalid_after_repair_message(e)),
    }
}

/// A `Result` of strings, taken by its characters.
pub open spec fn result_chars(r: Result<String, String>) -> Result<Seq<char>, Seq<char>> {
    match r {
        Ok(t) => Ok(t@),
        Err(e) => Err(e@),
    }
}

/// A parse result whose error is taken by its characters.
pub open spec fn kind_chars(r: Result<JsonKind, String>) -> Result<JsonKind, Seq<char>> {
    match r {
        Ok(k) => Ok(k),
        Err(e) => Err(e@),
    }
}

/// Repaired text is kept when it parses as an object; otherwise it becomes
/// the error the schema step reports.
pub fn outcome_after_repair(cleaned: String, parsed: Result<JsonKind, String>) -> (r: Result<
    String,
    String,
>)
    ensures
        result_chars(r) == spec_outcome_after_repair(cleaned@, kind_chars(parsed)),
{
    match parsed {
        Ok(JsonKind::Object) => Ok(cleaned),
        Ok(_) => Err(String::from_str("model output was valid JSON but not an object")),
        Err(e) => {
            let mut msg = String::from_str("invalid JSON after repair: ");
            msg.append(e.as_str());
            Err(msg)
        },
    }
}

/// The JSON object text that a model's raw output yields, ready for the
/// extraction schema, and whether it took the repair path to get there.
pub struct PreparedJson {
    /// The output needed [`repair_json_text`]: a repair fallback happened,
    /// whether or not the repaired text then parsed.
    pub repaired: bool,
    /// The text of a single JSON object, or why there is none.
    pub json: Result<String, String>,
}

/// What [`prepare_extraction_json`] yields for `raw`: the trimmed output when
/// it already is an object, else the outcome of repairing it.
pub open spec fn spec_prepared_json(raw: Seq<char>) -> Result<Seq<char>, Seq<char>> {
    if spec_needs_repair(raw) {
        spec_outcome_after_repair(repaired_json(raw), json_value_kind(repaired_json(raw)))
    } else {
        Ok(trim(raw))
    }
}

/// Routes a model's raw output to the extraction schema. Output that is
/// already one JSON object is taken as it is (trimmed); anything else goes
/// through [`repair_json_text`] and must then parse as an object.
pub fn prepare_extraction_json(raw: &str) -> (r: PreparedJson)
    ensures
        r.repaired == spec_needs_repair(raw@),
        result_chars(r.json) == spec_prepared_json(raw@),
{
    let cs = chars_of(raw);
    assert(cs@.subrange(0, cs@.len() as int) == raw@);
    let (lo, hi) = trim_window(&cs, 0, cs.len());
    let trimmed = string_of_range(&cs, lo, hi);
    let parsed = parse_json_kind(trimmed.as_str());
    if !repair_needed_for(&parsed) {
        return PreparedJson { repaired: false, json: Ok(trimmed) };
    }
    let cleaned = repair_json_text(raw);
    let reparsed = parse_json_kind(cleaned.as_str());
    PreparedJson { repaired: true, json: outcome_after_repair(cleaned, reparsed) }
}

/// No repair is needed exactly when the whole raw output, trimmed, parses as
/// one JSON object.
pub proof fn law_no_repair_only_for_a_whole_object(raw: Seq<char>)
    ensures
        !spec_needs_repair(raw) <==> json_value_kind(trim(raw)) == Ok::<JsonKind, Seq<char>>(
            JsonKind::Object,
        ),
{
}

/// Whatever text the routing hands on to the schema parses as one JSON
/// object.
pub proof fn law_handed_on_text_is_an_object(raw: Seq<char>)
    ensures
        spec_prepared_json(raw) matches Ok(t) ==> json_value_kind(t) == Ok::<JsonKind, Seq<char>>(
            JsonKind::Object,
        ),
{
}

/// On the repair path the text handed on is the full repair of the raw
/// output: it is taken when it parses as an object; otherwise the error says
/// why.
pub proof fn law_fallback_hands_on_the_full_repair(raw: Seq<char>)
    requires
        !(json_value_kind(trim(raw)) matches Ok(JsonKind::Object)),
    ensures
        match json_value_kind(repaired_json(raw)) {
            Ok(JsonKind::Object) => spec_prepared_json(raw) == Ok::<Seq<char>, Seq<char>>(
                repaired_json(raw),
            ),
            Ok(_) => spec_prepared_json(raw) == Err::<Seq<char>, Seq<char>>(
                "model output was valid JSON but not an object"@,
            ),
            Err(e) => spec_prepared_json(raw) == Err::<Seq<char>, Seq<char>>(
                "invalid JSON after repair: "@ + e,
            ),
        },
{
}

/// An object whose raw output already starts with `{` and ends with `}` but
/// needs repair is handed on with its trailing commas removed — every other
/// character kept — whenever that text parses as an object.
pub proof fn law_fallback_strips_the_closing_commas_of_an_object(raw: Seq<char>)
    requires
        raw.len() >= 2,
        raw[0] == '{',
        raw[raw.len() - 1] == '}',
        !(json_value_kind(trim(raw)) matches Ok(JsonKind::Object)),
        json_value_kind(chars_without_closing_commas(raw, raw.len() as int)) == Ok::<
            JsonKind,
            Seq<char>,
        >(JsonKind::Object),
    ensures
        spec_prepared_json(raw) == Ok::<Seq<char>, Seq<char>>(
            chars_without_closing_commas(raw, raw.len() as int),
        ),
{
    law_repair_of_an_object_drops_its_closing_commas(raw);
}

} // verus!
