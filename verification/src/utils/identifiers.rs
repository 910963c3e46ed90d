//! SQL identifier quoting for Informix.
//!
//! Informix only honours double-quoted identifiers when `DELIMIDENT` is
//! enabled; the connection string always sets `DELIMIDENT=Y` (see `connstr`)
//! so the quoting below is safe. A literal double quote inside an identifier
//! is escaped by doubling it.

use vstd::prelude::*;

use crate::utils::text::{chars_of, contains_seq, string_from_chars};

verus! {

pub const QUOTE: char = '"';

/// `s` with every `q` doubled.
pub open spec fn doubled(s: Seq<char>, q: char) -> Seq<char>
    decreases s.len(),
{
    if s.len() == 0 {
        Seq::<char>::empty()
    } else {
        (if s[0] == q {
            seq![q, q]
        } else {
            seq![s[0]]
        }) + doubled(s.drop_first(), q)
    }
}

/// `s` enclosed in `q`, with embedded `q` doubled.
pub open spec fn enclosed(s: Seq<char>, q: char) -> Seq<char> {
    seq![q] + doubled(s, q) + seq![q]
}

/// Reads the body of a `q`-delimited token (the text after its opening `q`):
/// a doubled `q` stands for one `q`, a single `q` closes the token. Gives the
/// token's content and the text after the closing `q`, or `None` when the
/// token is never closed.
pub open spec fn read_delimited(t: Seq<char>, q: char) -> Option<(Seq<char>, Seq<char>)>
    decreases t.len(),
{
    if t.len() == 0 {
        None
    } else if t[0] == q {
        if t.len() >= 2 && t[1] == q {
            match read_delimited(t.skip(2), q) {
                Some((c, r)) => Some((seq![q] + c, r)),
                None => None,
            }
        } else {
            Some((Seq::<char>::empty(), t.drop_first()))
        }
    } else {
        match read_delimited(t.drop_first(), q) {
            Some((c, r)) => Some((seq![t[0]] + c, r)),
            None => None,
        }
    }
}

pub proof fn lemma_doubled_append(a: Seq<char>, b: Seq<char>, q: char)
    ensures
        doubled(a + b, q) == doubled(a, q) + doubled(b, q),
    decreases a.len(),
{
    if a.len() == 0 {
        assert(a + b =~= b);
        assert(doubled(a, q) =~= Seq::<char>::empty());
        assert(doubled(a, q) + doubled(b, q) =~= doubled(b, q));
    } else {
        lemma_doubled_append(a.drop_first(), b, q);
        assert((a + b).drop_first() =~= a.drop_first() + b);
        assert((a + b)[0] == a[0]);
        let head = if a[0] == q {
            seq![q, q]
        } else {
            seq![a[0]]
        };
        assert(doubled(a + b, q) =~= head + (doubled(a.drop_first(), q) + doubled(b, q)));
        assert(doubled(a, q) =~= head + doubled(a.drop_first(), q));
    }
}

/// Reading back a doubled body followed by its closing `q` gives exactly the
/// original text, and stops right after that closing `q`, provided the
/// text after it does not itself begin with `q`.
pub proof fn lemma_read_doubled(s: Seq<char>, rest: Seq<char>, q: char)
    requires
        rest.len() == 0 || rest[0] != q,
    ensures
        read_delimited(doubled(s, q) + seq![q] + rest, q) == Some((s, rest)),
    decreases s.len(),
{
    let t = doubled(s, q) + seq![q] + rest;
    if s.len() == 0 {
        assert(doubled(s, q) =~= Seq::<char>::empty());
        assert(t =~= seq![q] + rest);
        assert(t.drop_first() =~= rest);
        assert(s =~= Seq::<char>::empty());
    } else {
        lemma_read_doubled(s.drop_first(), rest, q);
        let t2 = doubled(s.drop_first(), q) + seq![q] + rest;
        if s[0] == q {
            assert(t =~= seq![q, q] + t2);
            assert(t.skip(2) =~= t2);
            assert(seq![q] + s.drop_first() =~= s);
        } else {
            assert(t =~= seq![s[0]] + t2);
            assert(t.drop_first() =~= t2);
            assert(seq![s[0]] + s.drop_first() =~= s);
        }
    }
}

/// Characters of `s`, enclosed in `q` with every embedded `q` doubled.
pub fn enclose_chars(s: &str, q: char) -> (r: Vec<char>)
    ensures
        r@ == enclosed(s@, q),
{
    let v = chars_of(s);
    let mut out: Vec<char> = Vec::new();
    out.push(q);
    let mut i: usize = 0;
    while i < v.len()
        invariant
            i <= v@.len(),
            out@ == seq![q] + doubled(v@.take(i as int), q),
        decreases v@.len() - i,
    {
        let c = v[i];
        if c == q {
            out.push(q);
        }
        out.push(c);
        proof {
            let one = seq![c];
            assert(v@.take(i + 1) =~= v@.take(i as int) + one);
            lemma_doubled_append(v@.take(i as int), one, q);
            assert(one.drop_first() =~= Seq::<char>::empty());
            assert(doubled(one.drop_first(), q) =~= Seq::<char>::empty());
            if c == q {
                assert(doubled(one, q) =~= seq![q, q]);
            } else {
                assert(doubled(one, q) =~= seq![c]);
            }
            assert(out@ =~= seq![q] + doubled(v@.take(i + 1), q));
        }
        i = i + 1;
    }
    out.push(q);
    assert(v@.take(v@.len() as int) =~= v@);
    assert(out@ =~= enclosed(s@, q));
    out
}

/// Quotes an identifier with double quotes, doubling embedded quotes.
pub fn quote_identifier(name: &str) -> (r: String)
    ensures
        r@ == enclosed(name@, QUOTE),
{
    let v = enclose_chars(name, QUOTE);
    string_from_chars(&v)
}

/// A quoted identifier reads back as exactly the name it quotes: after the
/// opening quote, the delimited token holds `name` and ends at the last
/// character, whatever quotes `name` contains.
pub proof fn law_quote_identifier_reads_back(name: Seq<char>)
    ensures
        read_delimited(enclosed(name, QUOTE).drop_first(), QUOTE) == Some(
            (name, Seq::<char>::empty()),
        ),
{
    lemma_read_doubled(name, Seq::<char>::empty(), QUOTE);
    assert(enclosed(name, QUOTE).drop_first() =~= doubled(name, QUOTE) + seq![QUOTE]
        + Seq::<char>::empty());
}

/// Distinct names give distinct quoted identifiers.
pub proof fn law_quote_identifier_injective(a: Seq<char>, b: Seq<char>)
    requires
        enclosed(a, QUOTE) == enclosed(b, QUOTE),
    ensures
        a == b,
{
    law_quote_identifier_reads_back(a);
    law_quote_identifier_reads_back(b);
}

// ---------------------------------------------------------------------------
// Text that holds no quote cannot come from a quote boundary
// ---------------------------------------------------------------------------

/// An occurrence of a quote-free `n` in `a + b` lies within `a` or within
/// `b` when a quote stands on either side of the seam.
pub proof fn lemma_contains_split(a: Seq<char>, b: Seq<char>, n: Seq<char>, q: char)
    requires
        contains_seq(a + b, n),
        !n.contains(q),
        (a.len() > 0 && a.last() == q) || (b.len() > 0 && b[0] == q),
    ensures
        contains_seq(a, n) || contains_seq(b, n),
{
    let s = a + b;
    let i = choose|i: int|
        0 <= i && i + n.len() <= s.len() && #[trigger] s.subrange(i, i + n.len()) == n;
    if i + n.len() <= a.len() {
        assert(a.subrange(i, i + n.len()) =~= n);
    } else if i >= a.len() {
        assert(b.subrange(i - a.len(), i - a.len() + n.len()) =~= n);
    } else if a.len() > 0 && a.last() == q {
        let k = a.len() - 1 - i;
        assert(n[k] == s.subrange(i, i + n.len())[k]);
        assert(n[k] == q);
    } else {
        let k = a.len() - i;
        assert(n[k] == s.subrange(i, i + n.len())[k]);
        assert(n[k] == q);
    }
}

/// A quote-free prefix of `doubled(y, q)` is the same prefix of `y`.
proof fn lemma_doubled_prefix(y: Seq<char>, q: char, m: int)
    requires
        0 <= m <= doubled(y, q).len(),
        !doubled(y, q).take(m).contains(q),
    ensures
        m <= y.len(),
        doubled(y, q).take(m) == y.take(m),
    decreases y.len(),
{
    let d = doubled(y, q);
    if m > 0 {
        assert(y.len() > 0);
        assert(d.take(m)[0] == d[0]);
        let rest = y.drop_first();
        if y[0] == q {
            assert(d[0] == q);
            assert(d.take(m).contains(q));
        } else {
            assert(d =~= seq![y[0]] + doubled(rest, q));
            let dr = doubled(rest, q);
            assert(dr.take(m - 1) =~= d.take(m).drop_first());
            if dr.take(m - 1).contains(q) {
                let k = choose|k: int| 0 <= k < dr.take(m - 1).len() && #[trigger] dr.take(m - 1)[k] == q;
                assert(d.take(m)[k + 1] == q);
            }
            lemma_doubled_prefix(rest, q, m - 1);
            assert(d.take(m) =~= seq![y[0]] + dr.take(m - 1));
            assert(y.take(m) =~= seq![y[0]] + rest.take(m - 1));
            assert(d.take(m) =~= y.take(m));
        }
    } else {
        assert(d.take(m) =~= y.take(m));
    }
}

/// Quote-free text found in `doubled(s, q)` is found in `s`.
proof fn lemma_doubled_contains(s: Seq<char>, q: char, n: Seq<char>)
    requires
        n.len() > 0,
        !n.contains(q),
        contains_seq(doubled(s, q), n),
    ensures
        contains_seq(s, n),
    decreases s.len(),
{
    let d = doubled(s, q);
    let i = choose|i: int|
        0 <= i && i + n.len() <= d.len() && #[trigger] d.subrange(i, i + n.len()) == n;
    assert(s.len() > 0);
    let rest = s.drop_first();
    let dr = doubled(rest, q);
    if s[0] == q {
        assert(d =~= seq![q, q] + dr);
        if i < 2 {
            assert(n[0] == d.subrange(i, i + n.len())[0]);
            assert(n[0] == q);
        } else {
            assert(dr.subrange(i - 2, i - 2 + n.len()) =~= n);
            lemma_doubled_contains(rest, q, n);
            let j = choose|j: int|
                0 <= j && j + n.len() <= rest.len() && #[trigger] rest.subrange(j, j + n.len())
                    == n;
            assert(s.subrange(j + 1, j + 1 + n.len()) =~= n);
        }
    } else {
        assert(d =~= seq![s[0]] + dr);
        if i >= 1 {
            assert(dr.subrange(i - 1, i - 1 + n.len()) =~= n);
            lemma_doubled_contains(rest, q, n);
            let j = choose|j: int|
                0 <= j && j + n.len() <= rest.len() && #[trigger] rest.subrange(j, j + n.len())
                    == n;
            assert(s.subrange(j + 1, j + 1 + n.len()) =~= n);
        } else {
            let m = n.len() - 1;
            assert(dr.take(m) =~= n.drop_first());
            if dr.take(m).contains(q) {
                let k = choose|k: int| 0 <= k < dr.take(m).len() && #[trigger] dr.take(m)[k] == q;
                assert(n[k + 1] == q);
            }
            lemma_doubled_prefix(rest, q, m);
            assert(n[0] == d.subrange(0, n.len() as int)[0]);
            assert(n[0] == s[0]);
            assert(n =~= seq![s[0]] + rest.take(m));
            assert(s.subrange(0, n.len() as int) =~= seq![s[0]] + rest.take(m));
        }
    }
}

/// Quote-free text that a name does not hold is not held by the name once
/// quoted either.
pub proof fn lemma_enclosed_free(x: Seq<char>, q: char, n: Seq<char>)
    requires
        n.len() > 0,
        !n.contains(q),
        !contains_seq(x, n),
    ensures
        !contains_seq(enclosed(x, q), n),
        enclosed(x, q)[0] == q,
        enclosed(x, q).last() == q,
{
    let d = doubled(x, q);
    assert(enclosed(x, q) =~= seq![q] + (d + seq![q]));
    if contains_seq(enclosed(x, q), n) {
        lemma_contains_split(seq![q], d + seq![q], n, q);
        if contains_seq(seq![q], n) {
            let i = choose|i: int|
                0 <= i && i + n.len() <= 1 && #[trigger] seq![q].subrange(i, i + n.len()) == n;
            assert(n[0] == q);
        } else {
            lemma_contains_split(d, seq![q], n, q);
            if contains_seq(seq![q], n) {
                let i = choose|i: int|
                    0 <= i && i + n.len() <= 1 && #[trigger] seq![q].subrange(i, i + n.len()) == n;
                assert(n[0] == q);
            } else {
                lemma_doubled_contains(x, q, n);
            }
        }
    }
}

} // verus!
