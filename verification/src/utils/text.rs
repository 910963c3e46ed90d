//! Character-level text primitives shared by the SQL and connection-string
//! builders: whitespace trimming, ASCII case folding, decimal rendering and
//! integer parsing, all stated over `Seq<char>`.

use vstd::prelude::*;

verus! {

// ---------------------------------------------------------------------------
// Whitespace and trimming
// ---------------------------------------------------------------------------

/// The Unicode `White_Space` property, which is what `char::is_whitespace`
/// (and therefore `str::trim`) tests.
pub open spec fn is_ws(c: char) -> bool {
    ||| ('\u{9}' <= c && c <= '\u{d}')
    ||| c == ' '
    ||| c == '\u{85}'
    ||| c == '\u{a0}'
    ||| c == '\u{1680}'
    ||| ('\u{2000}' <= c && c <= '\u{200a}')
    ||| c == '\u{2028}'
    ||| c == '\u{2029}'
    ||| c == '\u{202f}'
    ||| c == '\u{205f}'
    ||| c == '\u{3000}'
}

/// `s` without its leading whitespace.
pub open spec fn trim_start(s: Seq<char>) -> Seq<char>
    decreases s.len(),
{
    if s.len() > 0 && is_ws(s[0]) {
        trim_start(s.drop_first())
    } else {
        s
    }
}

/// `s` without its trailing whitespace.
pub open spec fn trim_end(s: Seq<char>) -> Seq<char>
    decreases s.len(),
{
    if s.len() > 0 && is_ws(s.last()) {
        trim_end(s.drop_last())
    } else {
        s
    }
}

/// `s` without leading and trailing whitespace.
pub open spec fn trim(s: Seq<char>) -> Seq<char> {
    trim_end(trim_start(s))
}

pub fn is_whitespace(c: char) -> (b: bool)
    ensures
        b == is_ws(c),
{
    ('\u{9}' <= c && c <= '\u{d}') || c == ' ' || c == '\u{85}' || c == '\u{a0}' || c
        == '\u{1680}' || ('\u{2000}' <= c && c <= '\u{200a}') || c == '\u{2028}' || c
        == '\u{2029}' || c == '\u{202f}' || c == '\u{205f}' || c == '\u{3000}'
}

/// Start of `trim_start(v[a..n])` within `v`.
pub fn trim_start_from(v: &Vec<char>, a: usize, n: usize) -> (i: usize)
    requires
        a <= n <= v@.len(),
    ensures
        a <= i <= n,
        trim_start(v@.subrange(a as int, n as int)) == v@.subrange(i as int, n as int),
        i < n ==> !is_ws(v@[i as int]),
{
    let mut i: usize = a;
    while i < n && is_whitespace(v[i])
        invariant
            a <= i <= n <= v@.len(),
            trim_start(v@.subrange(a as int, n as int)) == trim_start(
                v@.subrange(i as int, n as int),
            ),
        decreases n - i,
    {
        assert(v@.subrange(i as int, n as int).drop_first() =~= v@.subrange(i + 1, n as int));
        assert(v@.subrange(i as int, n as int)[0] == v@[i as int]);
        i = i + 1;
    }
    if i < n {
        assert(v@.subrange(i as int, n as int)[0] == v@[i as int]);
    }
    i
}

/// End of `trim_end(v[a..n])` within `v`.
pub fn trim_end_to(v: &Vec<char>, a: usize, n: usize) -> (j: usize)
    requires
        a <= n <= v@.len(),
    ensures
        a <= j <= n,
        trim_end(v@.subrange(a as int, n as int)) == v@.subrange(a as int, j as int),
        j > a ==> !is_ws(v@[j - 1]),
{
    let mut j: usize = n;
    while j > a && is_whitespace(v[j - 1])
        invariant
            a <= j <= n <= v@.len(),
            trim_end(v@.subrange(a as int, n as int)) == trim_end(
                v@.subrange(a as int, j as int),
            ),
        decreases j,
    {
        assert(v@.subrange(a as int, j as int).drop_last() =~= v@.subrange(a as int, j - 1));
        assert(v@.subrange(a as int, j as int).last() == v@[j - 1]);
        j = j - 1;
    }
    if j > a {
        assert(v@.subrange(a as int, j as int).last() == v@[j - 1]);
    }
    j
}

/// Bounds `(start, end)` of `trim(v[a..n])` within `v`.
pub fn trim_between(v: &Vec<char>, a: usize, n: usize) -> (r: (usize, usize))
    requires
        a <= n <= v@.len(),
    ensures
        a <= r.0 <= r.1 <= n,
        trim(v@.subrange(a as int, n as int)) == v@.subrange(r.0 as int, r.1 as int),
        trim_start(v@.subrange(a as int, n as int)) == v@.subrange(r.0 as int, n as int),
        r.0 < r.1 ==> !is_ws(v@[r.0 as int]) && !is_ws(v@[r.1 - 1]),
{
    let i = trim_start_from(v, a, n);
    let j = trim_end_to(v, i, n);
    if i < j {
        // j > i, so v[i] is the first character of the trimmed text.
    }
    (i, j)
}

/// Bounds `(start, end)` of `trim(v)` within `v`.
pub fn trim_bounds(v: &Vec<char>) -> (r: (usize, usize))
    ensures
        r.0 <= r.1 <= v@.len(),
        trim(v@) == v@.subrange(r.0 as int, r.1 as int),
        trim_start(v@) == v@.skip(r.0 as int),
        r.0 < r.1 ==> !is_ws(v@[r.0 as int]) && !is_ws(v@[r.1 - 1]),
{
    assert(v@.subrange(0, v@.len() as int) =~= v@);
    let r = trim_between(v, 0, v.len());
    assert(v@.subrange(r.0 as int, v@.len() as int) =~= v@.skip(r.0 as int));
    r
}

/// `str::trim`.
pub fn trim_str(s: &str) -> (r: &str)
    ensures
        r@ == trim(s@),
{
    let v = chars_of(s);
    let (i, j) = trim_bounds(&v);
    s.substring_char(i, j)
}

/// `str::trim_start`.
pub fn trim_start_str(s: &str) -> (r: &str)
    ensures
        r@ == trim_start(s@),
{
    let v = chars_of(s);
    let (i, _j) = trim_bounds(&v);
    assert(v@.skip(i as int) =~= v@.subrange(i as int, v@.len() as int));
    s.substring_char(i, v.len())
}

/// A sequence that neither starts nor ends with whitespace is its own trim.
pub proof fn lemma_trim_noop(s: Seq<char>)
    requires
        s.len() == 0 || (!is_ws(s[0]) && !is_ws(s.last())),
    ensures
        trim_start(s) == s,
        trim_end(s) == s,
        trim(s) == s,
{
}

pub proof fn lemma_trim_end_len(s: Seq<char>)
    ensures
        trim_end(s).len() <= s.len(),
        trim_end(s) == s.take(trim_end(s).len() as int),
    decreases s.len(),
{
    if s.len() > 0 && is_ws(s.last()) {
        lemma_trim_end_len(s.drop_last());
        assert(s.drop_last().take(trim_end(s).len() as int) =~= s.take(trim_end(s).len() as int));
    } else {
        assert(s.take(s.len() as int) =~= s);
    }
}

/// What `trim_end` keeps ends with a character that is not whitespace.
pub proof fn lemma_trim_end_last(s: Seq<char>)
    ensures
        trim_end(s).len() > 0 ==> !is_ws(trim_end(s).last()),
    decreases s.len(),
{
    if s.len() > 0 && is_ws(s.last()) {
        lemma_trim_end_last(s.drop_last());
    }
}

/// Dropping the first character commutes with `trim_end` when at least two
/// characters are kept.
proof fn lemma_trim_end_drop_first(s: Seq<char>)
    requires
        trim_end(s).len() >= 2,
    ensures
        trim_end(s.drop_first()) == trim_end(s).drop_first(),
    decreases s.len(),
{
    if is_ws(s.last()) {
        let d = s.drop_last();
        lemma_trim_end_drop_first(d);
        assert(s.drop_first().drop_last() =~= d.drop_first());
    } else {
        assert(s.drop_first().last() == s.last());
    }
}

/// `trim` keeps the last character `trim_end` keeps.
pub proof fn lemma_trim_last(s: Seq<char>)
    requires
        trim_end(s).len() > 0,
    ensures
        trim(s).len() > 0,
        trim(s).last() == trim_end(s).last(),
    decreases s.len(),
{
    if is_ws(s[0]) {
        lemma_trim_end_last(s);
        lemma_trim_end_len(s);
        assert(trim_end(s)[0] == s[0]);
        lemma_trim_end_drop_first(s);
        lemma_trim_last(s.drop_first());
    }
}

// ---------------------------------------------------------------------------
// Building character sequences
// ---------------------------------------------------------------------------

/// The characters of a string slice, in order.
pub fn chars_of(s: &str) -> (r: Vec<char>)
    ensures
        r@ == s@,
{
    let mut v: Vec<char> = Vec::new();
    for c in it: s.chars()
        invariant
            v@ == it.seq().take(it.index() as int),
    {
        v.push(c);
    }
    proof {
        broadcast use vstd::string::group_string_axioms;
    }
    assert(v@ =~= s@);
    v
}

/// Appends the characters of `s` to `out`.
pub fn push_str(out: &mut Vec<char>, s: &str)
    ensures
        final(out)@ == old(out)@ + s@,
{
    let ghost start = out@;
    for c in it: s.chars()
        invariant
            out@ == start + it.seq().take(it.index() as int),
    {
        out.push(c);
        assert(it.seq().take(it.index() + 1) =~= it.seq().take(it.index() as int).push(c));
    }
    proof {
        broadcast use vstd::string::group_string_axioms;
    }
    assert(out@ =~= start + s@);
}

/// Appends the characters of `v` to `out`.
pub fn push_chars(out: &mut Vec<char>, v: &Vec<char>)
    ensures
        final(out)@ == old(out)@ + v@,
{
    let ghost start = out@;
    let mut i: usize = 0;
    while i < v.len()
        invariant
            i <= v@.len(),
            out@ == start + v@.take(i as int),
        decreases v@.len() - i,
    {
        out.push(v[i]);
        assert(v@.take(i + 1) =~= v@.take(i as int).push(v@[i as int]));
        i = i + 1;
    }
    assert(v@.take(v@.len() as int) =~= v@);
}

/// Appends `v[from..to]` to `out`.
pub fn push_range(out: &mut Vec<char>, v: &Vec<char>, from: usize, to: usize)
    requires
        from <= to <= v@.len(),
    ensures
        final(out)@ == old(out)@ + v@.subrange(from as int, to as int),
{
    let ghost start = out@;
    let mut i: usize = from;
    while i < to
        invariant
            from <= i <= to <= v@.len(),
            out@ == start + v@.subrange(from as int, i as int),
        decreases to - i,
    {
        out.push(v[i]);
        assert(v@.subrange(from as int, i + 1) =~= v@.subrange(from as int, i as int).push(
            v@[i as int],
        ));
        i = i + 1;
    }
}

/// `std`'s `String: FromIterator<&char>`: a `String` holding exactly the
/// characters of `v`, in order.
#[verifier::external_body]
pub fn string_from_chars(v: &Vec<char>) -> (s: String)
    ensures
        s@ == v@,
{
    v.iter().collect()
}

/// A `String` holding a copy of `s`.
pub fn string_of(s: &str) -> (r: String)
    ensures
        r@ == s@,
{
    let mut r = String::new();
    r.append(s);
    assert(r@ =~= s@);
    r
}

/// Character-wise equality of two character vectors.
pub fn chars_eq(a: &Vec<char>, b: &Vec<char>) -> (r: bool)
    ensures
        r == (a@ == b@),
{
    if a.len() != b.len() {
        return false;
    }
    let mut i: usize = 0;
    while i < a.len()
        invariant
            a@.len() == b@.len(),
            i <= a@.len(),
            forall|k: int| 0 <= k < i ==> a@[k] == b@[k],
        decreases a@.len() - i,
    {
        if a[i] != b[i] {
            return false;
        }
        i = i + 1;
    }
    assert(a@ =~= b@);
    true
}

/// Equality of two string slices (`str`'s `==`).
pub fn str_eq(a: &str, b: &str) -> (r: bool)
    ensures
        r == (a@ == b@),
{
    let av = chars_of(a);
    let bv = chars_of(b);
    chars_eq(&av, &bv)
}

/// The characters of an optional string.
pub open spec fn opt_view(o: Option<String>) -> Option<Seq<char>> {
    match o {
        Some(s) => Some(s@),
        None => None,
    }
}

/// The characters of an optional string slice.
pub open spec fn opt_str_view(o: Option<&str>) -> Option<Seq<char>> {
    match o {
        Some(s) => Some(s@),
        None => None,
    }
}

/// `parts` separated by `sep` (`[String]::join`).
pub open spec fn join(parts: Seq<Seq<char>>, sep: Seq<char>) -> Seq<char>
    decreases parts.len(),
{
    if parts.len() == 0 {
        Seq::empty()
    } else if parts.len() == 1 {
        parts[0]
    } else {
        join(parts.drop_last(), sep) + sep + parts.last()
    }
}

/// The character sequences held by a list of character vectors.
pub open spec fn views(parts: Seq<Vec<char>>) -> Seq<Seq<char>> {
    parts.map_values(|p: Vec<char>| p@)
}

/// The parts separated by `sep`.
pub fn join_chars(parts: &Vec<Vec<char>>, sep: &str) -> (r: Vec<char>)
    ensures
        r@ == join(views(parts@), sep@),
{
    let mut out: Vec<char> = Vec::new();
    let mut i: usize = 0;
    while i < parts.len()
        invariant
            i <= parts@.len(),
            out@ == join(views(parts@).take(i as int), sep@),
        decreases parts@.len() - i,
    {
        let ghost before = out@;
        if i > 0 {
            push_str(&mut out, sep);
        }
        push_chars(&mut out, &parts[i]);
        proof {
            let vs = views(parts@);
            assert(vs.take(i + 1).drop_last() =~= vs.take(i as int));
            assert(vs.take(i + 1).last() == parts@[i as int]@);
            if i == 0 {
                assert(vs.take(1) =~= seq![parts@[0]@]);
            }
        }
        i = i + 1;
    }
    assert(views(parts@).take(parts@.len() as int) =~= views(parts@));
    out
}

// ---------------------------------------------------------------------------
// Searching
// ---------------------------------------------------------------------------

/// Does `needle` occur in `s` as a contiguous run?
pub open spec fn contains_seq(s: Seq<char>, needle: Seq<char>) -> bool {
    exists|i: int|
        0 <= i && i + needle.len() <= s.len() && #[trigger] s.subrange(i, i + needle.len())
            == needle
}

/// Does `s` begin with `p` at position `i`?
pub open spec fn occurs_at(s: Seq<char>, p: Seq<char>, i: int) -> bool {
    0 <= i && i + p.len() <= s.len() && s.subrange(i, i + p.len()) == p
}

pub fn occurs_at_exec(s: &Vec<char>, p: &Vec<char>, i: usize) -> (b: bool)
    ensures
        b == occurs_at(s@, p@, i as int),
{
    if i > s.len() || p.len() > s.len() - i {
        return false;
    }
    let mut k: usize = 0;
    while k < p.len()
        invariant
            i + p@.len() <= s@.len(),
            s@.len() == s.len(),
            k <= p@.len(),
            forall|m: int| 0 <= m < k ==> s@[i + m] == p@[m],
        decreases p@.len() - k,
    {
        if s[i + k] != p[k] {
            assert(s@.subrange(i as int, i + p@.len())[k as int] != p@[k as int]);
            return false;
        }
        k = k + 1;
    }
    assert(s@.subrange(i as int, i + p@.len()) =~= p@);
    true
}

pub fn contains_exec(s: &Vec<char>, p: &Vec<char>) -> (b: bool)
    ensures
        b == contains_seq(s@, p@),
{
    if p.len() == 0 {
        assert(s@.subrange(0int, 0int + p@.len()) =~= p@);
        return true;
    }
    if p.len() > s.len() {
        return false;
    }
    let last = s.len() - p.len();
    let mut i: usize = 0;
    while i <= last
        invariant
            last == s@.len() - p@.len(),
            last < s@.len(),
            s@.len() == s.len(),
            i <= last + 1,
            forall|m: int| 0 <= m < i ==> !occurs_at(s@, p@, m),
        decreases last + 1 - i,
    {
        if occurs_at_exec(s, p, i) {
            assert(s@.subrange(i as int, i + p@.len()) == p@);
            return true;
        }
        i = i + 1;
    }
    assert forall|m: int|
        0 <= m && m + p@.len() <= s@.len() implies #[trigger] s@.subrange(m, m + p@.len())
        != p@ by {
        assert(!occurs_at(s@, p@, m));
    }
    false
}

pub fn contains_str(s: &Vec<char>, p: &str) -> (b: bool)
    ensures
        b == contains_seq(s@, p@),
{
    let pv = chars_of(p);
    contains_exec(s, &pv)
}

/// Does `v` hold the character `c`?
pub fn has_char(v: &Vec<char>, c: char) -> (b: bool)
    ensures
        b == v@.contains(c),
{
    let mut i: usize = 0;
    while i < v.len()
        invariant
            i <= v@.len(),
            forall|m: int| 0 <= m < i ==> v@[m] != c,
        decreases v@.len() - i,
    {
        if v[i] == c {
            return true;
        }
        i = i + 1;
    }
    false
}

/// Index of the first `c` in `s`, if any.
pub open spec fn first_index_of(s: Seq<char>, c: char) -> Option<int> {
    if s.contains(c) {
        Some(choose|i: int| 0 <= i < s.len() && s[i] == c && forall|k: int| 0 <= k < i ==> s[k] != c)
    } else {
        None
    }
}

pub fn find_char(v: &Vec<char>, c: char) -> (r: Option<usize>)
    ensures
        match r {
            Some(i) => i < v@.len() && v@[i as int] == c && forall|k: int| 0 <= k < i ==> v@[k] != c,
            None => !v@.contains(c),
        },
        r matches Some(i) ==> first_index_of(v@, c) == Some(i as int),
        r is None ==> first_index_of(v@, c) is None,
{
    let mut i: usize = 0;
    while i < v.len()
        invariant
            i <= v@.len(),
            forall|m: int| 0 <= m < i ==> v@[m] != c,
        decreases v@.len() - i,
    {
        if v[i] == c {
            proof {
                lemma_first_index_unique(v@, c, i as int);
            }
            return Some(i);
        }
        i = i + 1;
    }
    None
}

pub proof fn lemma_first_index_unique(s: Seq<char>, c: char, i: int)
    requires
        0 <= i < s.len(),
        s[i] == c,
        forall|k: int| 0 <= k < i ==> s[k] != c,
    ensures
        first_index_of(s, c) == Some(i),
{
    assert(s.contains(c));
    let j = choose|j: int| 0 <= j < s.len() && s[j] == c && forall|k: int| 0 <= k < j ==> s[k] != c;
    if j < i {
        assert(s[j] != c);
    }
    if i < j {
        assert(s[i] != c);
    }
}

// ---------------------------------------------------------------------------
// ASCII case
// ---------------------------------------------------------------------------

pub open spec fn ascii_upper(c: char) -> char {
    if 'a' <= c && c <= 'z' {
        ((c as u32) - 32) as char
    } else {
        c
    }
}

pub open spec fn ascii_lower(c: char) -> char {
    if 'A' <= c && c <= 'Z' {
        ((c as u32) + 32) as char
    } else {
        c
    }
}

/// `str::to_ascii_uppercase` over a character sequence.
pub open spec fn ascii_upper_seq(s: Seq<char>) -> Seq<char> {
    s.map_values(|c: char| ascii_upper(c))
}

/// `str::eq_ignore_ascii_case`.
pub open spec fn eq_ignore_ascii_case(a: Seq<char>, b: Seq<char>) -> bool {
    a.len() == b.len() && forall|i: int| 0 <= i < a.len() ==> ascii_lower(#[trigger] a[i]) == ascii_lower(b[i])
}

pub fn to_ascii_upper(c: char) -> (r: char)
    ensures
        r == ascii_upper(c),
{
    if 'a' <= c && c <= 'z' {
        ((c as u8) - 32) as char
    } else {
        c
    }
}

pub fn to_ascii_lower(c: char) -> (r: char)
    ensures
        r == ascii_lower(c),
{
    if 'A' <= c && c <= 'Z' {
        ((c as u8) + 32) as char
    } else {
        c
    }
}

/// `eq_ignore_ascii_case` between `v[from..from + p.len()]` and `p`.
pub fn eq_ignore_ascii_case_at(v: &Vec<char>, from: usize, p: &str) -> (b: bool)
    requires
        from <= v@.len(),
    ensures
        b == (from + p@.len() <= v@.len() && eq_ignore_ascii_case(
            v@.subrange(from as int, from + p@.len()),
            p@,
        )),
{
    let pv = chars_of(p);
    if pv.len() > v.len() - from {
        return false;
    }
    let ghost w = v@.subrange(from as int, from + pv@.len());
    let mut k: usize = 0;
    while k < pv.len()
        invariant
            from + pv@.len() <= v@.len(),
            v@.len() == v.len(),
            pv@ == p@,
            w == v@.subrange(from as int, from + pv@.len()),
            k <= pv@.len(),
            forall|m: int| 0 <= m < k ==> ascii_lower(#[trigger] w[m]) == ascii_lower(pv@[m]),
        decreases pv@.len() - k,
    {
        if to_ascii_lower(v[from + k]) != to_ascii_lower(pv[k]) {
            assert(w[k as int] == v@[from + k]);
            return false;
        }
        assert(w[k as int] == v@[from + k]);
        k = k + 1;
    }
    true
}

/// Does `ascii_upper_seq(v[from..])` begin with `p`?
pub fn upper_starts_with_at(v: &Vec<char>, from: usize, p: &str) -> (b: bool)
    requires
        from <= v@.len(),
    ensures
        b == p@.is_prefix_of(ascii_upper_seq(v@.skip(from as int))),
{
    let pv = chars_of(p);
    let ghost u = ascii_upper_seq(v@.skip(from as int));
    if pv.len() > v.len() - from {
        return false;
    }
    let mut k: usize = 0;
    while k < pv.len()
        invariant
            from + pv@.len() <= v@.len(),
            v@.len() == v.len(),
            pv@ == p@,
            u == ascii_upper_seq(v@.skip(from as int)),
            k <= pv@.len(),
            forall|m: int| 0 <= m < k ==> u[m] == pv@[m],
        decreases pv@.len() - k,
    {
        assert(u[k as int] == ascii_upper(v@[from + k]));
        if to_ascii_upper(v[from + k]) != pv[k] {
            return false;
        }
        k = k + 1;
    }
    assert(u.take(pv@.len() as int) =~= pv@);
    true
}

// ---------------------------------------------------------------------------
// Unicode case mapping
// ---------------------------------------------------------------------------

/// The text `str::to_uppercase` gives for `s`: the full Unicode uppercase
/// mapping, which may change a string's length.
pub uninterp spec fn unicode_upper(s: Seq<char>) -> Seq<char>;

/// `str::to_uppercase`. Its result is named by `unicode_upper`, applied to
/// `s`; nothing else about the Unicode case tables is stated.
#[verifier::external_body]
pub fn to_uppercase(s: &str) -> (r: String)
    ensures
        r@ == unicode_upper(s@),
{
    s.to_uppercase()
}

} // verus!
