//! Reading the `theme` entry out of a `Cookie` header's text.

use vstd::prelude::*;
use vstd::string::*;

verus! {

/// The theme used when a request names none.
pub const DEFAULT_THEME: &'static str = "light";

/// The cookie entry that carries the theme.
pub const THEME_ENTRY: &'static str = "theme";

/// Unicode `White_Space`, the characters that `str::trim` removes.
pub open spec fn is_ws(c: char) -> bool {
    let u = c as u32;
    (0x9 <= u && u <= 0xd) || u == 0x20 || u == 0x85 || u == 0xa0 || u == 0x1680
        || (0x2000 <= u && u <= 0x200a) || u == 0x2028 || u == 0x2029 || u == 0x202f
        || u == 0x205f || u == 0x3000
}

/// The first index at or after `i` that holds no whitespace, or `s.len()`.
pub open spec fn skip_ws(s: Seq<char>, i: int) -> int
    decreases s.len() - i,
{
    if 0 <= i < s.len() && is_ws(s[i]) {
        skip_ws(s, i + 1)
    } else {
        i
    }
}

/// The end of `s[lo..j]` once trailing whitespace is dropped.
pub open spec fn back_ws(s: Seq<char>, lo: int, j: int) -> int
    decreases j - lo,
{
    if lo < j <= s.len() && is_ws(s[j - 1]) {
        back_ws(s, lo, j - 1)
    } else {
        j
    }
}

/// `s` without leading and trailing whitespace.
pub open spec fn trim(s: Seq<char>) -> Seq<char> {
    let lo = skip_ws(s, 0);
    s.subrange(lo, back_ws(s, lo, s.len() as int))
}

/// The first index at or after `i` that holds `c`, or `s.len()`.
pub open spec fn find_from(s: Seq<char>, c: char, i: int) -> int
    decreases s.len() - i,
{
    if i < 0 || i >= s.len() {
        s.len() as int
    } else if s[i] == c {
        i
    } else {
        find_from(s, c, i + 1)
    }
}

/// The theme that one cookie entry `name=value` gives: its value when its
/// trimmed name is `theme`. An entry without `=` gives none.
pub open spec fn entry_theme(piece: Seq<char>) -> Option<Seq<char>> {
    let e = find_from(piece, '=', 0);
    if e < piece.len() && trim(piece.subrange(0, e)) == THEME_ENTRY@ {
        Some(trim(piece.subrange(e + 1, piece.len() as int)))
    } else {
        None
    }
}

/// The theme of the first entry, among the `;`-separated entries that start
/// at `start`, that names one.
pub open spec fn theme_from(s: Seq<char>, start: int) -> Option<Seq<char>>
    decreases s.len() - start,
{
    if 0 <= start <= s.len() {
        let end = find_from(s, ';', start);
        match entry_theme(s.subrange(start, end)) {
            Some(v) => Some(v),
            None => if start <= end < s.len() {
                theme_from(s, end + 1)
            } else {
                None
            },
        }
    } else {
        None
    }
}

/// The theme that a cookie header's text selects: that of its first `theme`
/// entry, else the default.
pub open spec fn resolve_cookie(s: Seq<char>) -> Seq<char> {
    match theme_from(s, 0) {
        Some(v) => v,
        None => DEFAULT_THEME@,
    }
}

proof fn lemma_find_bounds(s: Seq<char>, c: char, i: int)
    requires
        0 <= i <= s.len(),
    ensures
        i <= find_from(s, c, i) <= s.len(),
        find_from(s, c, i) < s.len() ==> s[find_from(s, c, i)] == c,
        forall|k: int| i <= k < find_from(s, c, i) ==> s[k] != c,
    decreases s.len() - i,
{
    if i < s.len() && s[i] != c {
        lemma_find_bounds(s, c, i + 1);
    }
}

proof fn lemma_skip_bounds(s: Seq<char>, i: int)
    requires
        0 <= i <= s.len(),
    ensures
        i <= skip_ws(s, i) <= s.len(),
    decreases s.len() - i,
{
    if i < s.len() && is_ws(s[i]) {
        lemma_skip_bounds(s, i + 1);
    }
}

proof fn lemma_back_bounds(s: Seq<char>, lo: int, j: int)
    requires
        0 <= lo <= j <= s.len(),
    ensures
        lo <= back_ws(s, lo, j) <= j,
    decreases j - lo,
{
    if lo < j && is_ws(s[j - 1]) {
        lemma_back_bounds(s, lo, j - 1);
    }
}

/// Every character of `w` is whitespace.
pub open spec fn all_ws(w: Seq<char>) -> bool {
    forall|i: int| 0 <= i < w.len() ==> is_ws(#[trigger] w[i])
}

proof fn lemma_find_skip(s: Seq<char>, c: char, i: int, j: int)
    requires
        0 <= i <= j <= s.len(),
        forall|k: int| i <= k < j ==> s[k] != c,
    ensures
        find_from(s, c, i) == find_from(s, c, j),
    decreases j - i,
{
    if i < j {
        lemma_find_skip(s, c, i + 1, j);
    }
}

proof fn lemma_find_prefix(a: Seq<char>, b: Seq<char>, c: char, i: int)
    requires
        0 <= i <= a.len(),
        find_from(a, c, i) < a.len(),
    ensures
        find_from(a + b, c, i) == find_from(a, c, i),
    decreases a.len() - i,
{
    if i < a.len() && a[i] != c {
        lemma_find_prefix(a, b, c, i + 1);
    }
}

proof fn lemma_find_shift(a: Seq<char>, b: Seq<char>, c: char, j: int)
    requires
        0 <= j <= b.len(),
    ensures
        find_from(a + b, c, a.len() + j) == a.len() + find_from(b, c, j),
    decreases b.len() - j,
{
    if j < b.len() && b[j] != c {
        lemma_find_shift(a, b, c, j + 1);
    }
}

proof fn lemma_theme_shift(a: Seq<char>, b: Seq<char>, j: int)
    requires
        0 <= j <= b.len(),
    ensures
        theme_from(a + b, a.len() + j) == theme_from(b, j),
    decreases b.len() - j,
{
    let s = a + b;
    lemma_find_shift(a, b, ';', j);
    lemma_find_bounds(b, ';', j);
    let end = find_from(b, ';', j);
    assert(s.subrange(a.len() + j, a.len() + end) =~= b.subrange(j, end));
    if end < b.len() {
        lemma_theme_shift(a, b, end + 1);
    }
}

proof fn lemma_theme_prefix(a: Seq<char>, b: Seq<char>, i: int)
    requires
        a.len() == 0 || a.last() == ';',
        0 <= i <= a.len(),
        theme_from(a, i) is None,
    ensures
        theme_from(a + b, i) == theme_from(a + b, a.len() as int),
    decreases a.len() - i,
{
    if i < a.len() {
        lemma_find_bounds(a, ';', i);
        let end = find_from(a, ';', i);
        assert(end < a.len());
        lemma_find_prefix(a, b, ';', i);
        assert((a + b).subrange(i, end) =~= a.subrange(i, end));
        lemma_theme_prefix(a, b, end + 1);
    }
}

proof fn lemma_skip_pad(s: Seq<char>, w: int, i: int)
    requires
        0 <= i <= w < s.len(),
        forall|k: int| i <= k < w ==> is_ws(s[k]),
        !is_ws(s[w]),
    ensures
        skip_ws(s, i) == w,
    decreases w - i,
{
    if i < w {
        lemma_skip_pad(s, w, i + 1);
    }
}

proof fn lemma_back_pad(s: Seq<char>, lo: int, e: int, j: int)
    requires
        0 <= lo < e <= j <= s.len(),
        forall|k: int| e <= k < j ==> is_ws(s[k]),
        !is_ws(s[e - 1]),
    ensures
        back_ws(s, lo, j) == e,
    decreases j - e,
{
    if e < j {
        lemma_back_pad(s, lo, e, j - 1);
    }
}

/// Whitespace around a word that neither starts nor ends with whitespace
/// is trimmed away.
proof fn lemma_trim_padded(w: Seq<char>, x: Seq<char>, v: Seq<char>)
    requires
        all_ws(w),
        all_ws(v),
        x.len() > 0,
        !is_ws(x[0]),
        !is_ws(x.last()),
    ensures
        trim(w + x + v) == x,
{
    let s = w + x + v;
    lemma_skip_pad(s, w.len() as int, 0);
    lemma_back_pad(s, w.len() as int, (w.len() + x.len()) as int, s.len() as int);
    assert(s.subrange(w.len() as int, (w.len() + x.len()) as int) =~= x);
}

proof fn lemma_padded_lacks(w: Seq<char>, x: Seq<char>, v: Seq<char>, c: char)
    requires
        all_ws(w),
        all_ws(v),
        !is_ws(c),
        forall|k: int| 0 <= k < x.len() ==> x[k] != c,
    ensures
        forall|k: int| 0 <= k < (w + x + v).len() ==> (w + x + v)[k] != c,
{
    assert forall|k: int| 0 <= k < (w + x + v).len() implies (w + x + v)[k] != c by {
        if k < w.len() {
            assert(is_ws(w[k]));
        } else if k >= w.len() + x.len() {
            assert(is_ws(v[k - w.len() - x.len()]));
        }
    }
}

proof fn lemma_entry_dark(w1: Seq<char>, w2: Seq<char>, w3: Seq<char>, w4: Seq<char>)
    requires
        all_ws(w1),
        all_ws(w2),
        all_ws(w3),
        all_ws(w4),
    ensures
        entry_theme(w1 + THEME_ENTRY@ + w2 + seq!['='] + w3 + "dark"@ + w4) == Some("dark"@),
        forall|k: int|
            0 <= k < (w1 + THEME_ENTRY@ + w2 + seq!['='] + w3 + "dark"@ + w4).len() ==> (w1
                + THEME_ENTRY@ + w2 + seq!['='] + w3 + "dark"@ + w4)[k] != ';',
{
    reveal_strlit("theme");
    reveal_strlit("dark");
    let name = w1 + THEME_ENTRY@ + w2;
    let value = w3 + "dark"@ + w4;
    let entry = name + seq!['='] + value;
    assert(entry =~= w1 + THEME_ENTRY@ + w2 + seq!['='] + w3 + "dark"@ + w4);
    lemma_padded_lacks(w1, THEME_ENTRY@, w2, ';');
    lemma_padded_lacks(w3, "dark"@, w4, ';');
    lemma_padded_lacks(w1, THEME_ENTRY@, w2, '=');
    assert forall|k: int| 0 <= k < entry.len() implies entry[k] != ';' by {
        if k < name.len() {
            assert(entry[k] == name[k]);
        } else if k > name.len() {
            assert(entry[k] == value[k - name.len() - 1]);
        }
    }
    assert forall|k: int| 0 <= k < name.len() implies entry[k] != '=' by {
        assert(entry[k] == name[k]);
    }
    lemma_find_skip(entry, '=', 0, name.len() as int);
    assert(entry.subrange(0, name.len() as int) =~= name);
    assert(entry.subrange((name.len() + 1) as int, entry.len() as int) =~= value);
    lemma_trim_padded(w1, THEME_ENTRY@, w2);
    lemma_trim_padded(w3, "dark"@, w4);
}

/// A cookie entry `theme=dark`, with any whitespace around its name and its
/// value and any entries around it, selects `dark` unless an entry before
/// it already names a theme.
pub proof fn lemma_dark_entry_selects_dark(
    before: Seq<char>,
    w1: Seq<char>,
    w2: Seq<char>,
    w3: Seq<char>,
    w4: Seq<char>,
    after: Seq<char>,
)
    requires
        before.len() == 0 || before.last() == ';',
        theme_from(before, 0) is None,
        after.len() == 0 || after[0] == ';',
        all_ws(w1),
        all_ws(w2),
        all_ws(w3),
        all_ws(w4),
    ensures
        resolve_cookie(before + (w1 + THEME_ENTRY@ + w2 + seq!['='] + w3 + "dark"@ + w4) + after)
            == "dark"@,
{
    let entry = w1 + THEME_ENTRY@ + w2 + seq!['='] + w3 + "dark"@ + w4;
    let r = entry + after;
    let s = before + entry + after;
    assert(before + r =~= s);

    // The scan passes over the entries before without a match.
    lemma_theme_prefix(before, r, 0);
    lemma_theme_shift(before, r, 0);
    assert(theme_from(s, 0) == theme_from(r, 0));

    // The next piece is the entry itself, which selects `dark`.
    lemma_entry_dark(w1, w2, w3, w4);
    lemma_find_skip(r, ';', 0, entry.len() as int);
    assert(r.subrange(0, entry.len() as int) =~= entry);
}

/// Whether `c` is whitespace in the sense of `char::is_whitespace`.
pub fn is_whitespace(c: char) -> (r: bool)
    ensures
        r == is_ws(c),
{
    let u = c as u32;
    (0x9 <= u && u <= 0xd) || u == 0x20 || u == 0x85 || u == 0xa0 || u == 0x1680 || (0x2000
        <= u && u <= 0x200a) || u == 0x2028 || u == 0x2029 || u == 0x202f || u == 0x205f || u
        == 0x3000
}

/// The index of the first `c` in `s` at or after `i`, or the length of `s`.
pub fn find_char(s: &str, c: char, i: usize) -> (r: usize)
    requires
        i <= s@.len(),
    ensures
        r == find_from(s@, c, i as int),
{
    let n = s.unicode_len();
    let mut j = i;
    while j < n && s.get_char(j) != c
        invariant
            i <= j <= n,
            n == s@.len(),
            find_from(s@, c, i as int) == find_from(s@, c, j as int),
        decreases n - j,
    {
        j = j + 1;
    }
    j
}

/// `s` without leading and trailing whitespace, as `str::trim` gives it.
pub fn trim_ws(s: &str) -> (r: &str)
    ensures
        r@ == trim(s@),
{
    let n = s.unicode_len();
    let mut lo: usize = 0;
    while lo < n && is_whitespace(s.get_char(lo))
        invariant
            lo <= n,
            n == s@.len(),
            skip_ws(s@, 0) == skip_ws(s@, lo as int),
        decreases n - lo,
    {
        lo = lo + 1;
    }
    let mut hi: usize = n;
    while hi > lo && is_whitespace(s.get_char(hi - 1))
        invariant
            lo <= hi <= n,
            n == s@.len(),
            lo == skip_ws(s@, 0),
            back_ws(s@, lo as int, n as int) == back_ws(s@, lo as int, hi as int),
        decreases hi - lo,
    {
        hi = hi - 1;
    }
    s.substring_char(lo, hi)
}

/// The theme that one cookie entry gives, if it is a `theme` entry.
pub fn entry_value(piece: &str) -> (r: Option<String>)
    ensures
        r matches Some(v) ==> entry_theme(piece@) == Some(v@),
        r is None ==> entry_theme(piece@) is None,
{
    let n = piece.unicode_len();
    let e = find_char(piece, '=', 0);
    proof {
        lemma_find_bounds(piece@, '=', 0);
    }
    if e == n {
        return None;
    }
    let name = trim_ws(piece.substring_char(0, e));
    if String::from_str(name) == String::from_str(THEME_ENTRY) {
        let value = trim_ws(piece.substring_char(e + 1, n));
        Some(String::from_str(value))
    } else {
        None
    }
}

/// The theme that a cookie header's text selects: the value of its first
/// entry named `theme`, with name and value trimmed, else `light`.
pub fn theme_from_cookie(cookie: &str) -> (r: String)
    ensures
        r@ == resolve_cookie(cookie@),
{
    let n = cookie.unicode_len();
    let mut start: usize = 0;
    loop
        invariant
            start <= n,
            n == cookie@.len(),
            theme_from(cookie@, 0) == theme_from(cookie@, start as int),
        decreases n - start,
    {
        let end = find_char(cookie, ';', start);
        proof {
            lemma_find_bounds(cookie@, ';', start as int);
        }
        let piece = cookie.substring_char(start, end);
        if let Some(v) = entry_value(piece) {
            return v;
        }
        if end == n {
            return String::from_str(DEFAULT_THEME);
        }
        start = end + 1;
    }
}

} // verus!
