//! Character-level helpers shared by the parsers of this crate.
use vstd::prelude::*;
use vstd::std_specs::iter::IteratorSpec;

verus! {

/// The characters of `s`, in order.
pub(crate) fn chars_of(s: &str) -> (r: Vec<char>)
    ensures
        r@ == s@,
{
    broadcast use vstd::string::group_string_axioms;

    let mut it = s.chars();
    let mut r: Vec<char> = Vec::new();
    loop
        invariant
            it.obeys_prophetic_iter_laws(),
            it.decrease() is Some,
            r@ + it.remaining() == s@,
        ensures
            r@ == s@,
        decreases it.decrease()->0,
    {
        match it.next() {
            Some(c) => {
                let ghost before = r@;
                r.push(c);
                proof {
                    assert(before.push(c) + it.remaining() =~= before + seq![c] + it.remaining());
                }
            },
            None => {
                proof {
                    assert(r@ + it.remaining() =~= r@);
                }
                break;
            },
        }
    }
    r
}

/// Relies on `String`'s `FromIterator<char>`: the string made of the characters of `v`.
#[verifier::external_body]
pub(crate) fn string_of(v: &[char]) -> (r: String)
    ensures
        r@ == v@,
{
    v.iter().collect()
}

/// The view of an optional string.
pub open spec fn opt_view(o: Option<String>) -> Option<Seq<char>> {
    match o {
        Some(s) => Some(s@),
        None => None,
    }
}

pub open spec fn is_ascii_digit(c: char) -> bool {
    '0' <= c && c <= '9'
}

/// `p` is a prefix of `s`.
pub open spec fn has_prefix(s: Seq<char>, p: Seq<char>) -> bool {
    p.len() <= s.len() && s.subrange(0, p.len() as int) == p
}

/// Whether the characters of `v` from `start` on begin with `p`.
pub fn starts_with_at(v: &Vec<char>, start: usize, p: &Vec<char>) -> (r: bool)
    requires
        start <= v.len(),
    ensures
        r == has_prefix(v@.subrange(start as int, v@.len() as int), p@),
{
    if p.len() > v.len() - start {
        return false;
    }
    let mut i: usize = 0;
    while i < p.len()
        invariant
            i <= p.len(),
            start + p.len() <= v.len(),
            forall|j: int| 0 <= j < i ==> v@[start + j] == p@[j],
        decreases p.len() - i,
    {
        if v[start + i] != p[i] {
            proof {
                let t = v@.subrange(start as int, v@.len() as int);
                assert(t.subrange(0, p@.len() as int)[i as int] != p@[i as int]);
            }
            return false;
        }
        i += 1;
    }
    proof {
        let t = v@.subrange(start as int, v@.len() as int);
        assert(t.subrange(0, p@.len() as int) =~= p@);
    }
    true
}

/// The characters of `v` from `start` up to `end`.
pub fn slice_chars(v: &Vec<char>, start: usize, end: usize) -> (r: Vec<char>)
    requires
        start <= end <= v.len(),
    ensures
        r@ == v@.subrange(start as int, end as int),
{
    let mut r: Vec<char> = Vec::new();
    let mut i: usize = start;
    while i < end
        invariant
            start <= i <= end,
            end <= v.len(),
            r@ == v@.subrange(start as int, i as int),
        decreases end - i,
    {
        r.push(v[i]);
        proof {
            assert(v@.subrange(start as int, i + 1) =~= v@.subrange(start as int, i as int).push(v@[i as int]));
        }
        i += 1;
    }
    r
}

/// Whether two character sequences are equal.
pub fn chars_eq(a: &Vec<char>, b: &Vec<char>) -> (r: bool)
    ensures
        r == (a@ == b@),
{
    if a.len() != b.len() {
        return false;
    }
    let mut i: usize = 0;
    while i < a.len()
        invariant
            i <= a.len(),
            a.len() == b.len(),
            forall|j: int| 0 <= j < i ==> a@[j] == b@[j],
        decreases a.len() - i,
    {
        if a[i] != b[i] {
            return false;
        }
        i += 1;
    }
    proof {
        assert(a@ =~= b@);
    }
    true
}

/// Whether two strings hold the same characters.
pub fn str_eq(a: &str, b: &str) -> (r: bool)
    ensures
        r == (a@ == b@),
{
    chars_eq(&chars_of(a), &chars_of(b))
}

/// `a` followed by `b`.
pub fn concat_strs(a: &str, b: &str) -> (r: String)
    ensures
        r@ == a@ + b@,
{
    let s = a.to_owned();
    s.concat(b)
}

/// The views of a sequence of character vectors.
pub open spec fn views(v: Seq<Vec<char>>) -> Seq<Seq<char>> {
    v.map_values(|p: Vec<char>| p@)
}

/// The pieces of `s` between occurrences of `sep`, as `str::split` gives them:
/// there is always at least one piece, and a separator at either end yields an
/// empty piece there.
pub open spec fn split_spec(s: Seq<char>, sep: char) -> Seq<Seq<char>>
    decreases s.len(),
{
    if s.len() == 0 {
        seq![Seq::empty()]
    } else {
        let init = split_spec(s.drop_last(), sep);
        if s.last() == sep {
            init.push(Seq::empty())
        } else {
            init.update(init.len() - 1, init.last().push(s.last()))
        }
    }
}

pub proof fn lemma_split_nonempty(s: Seq<char>, sep: char)
    ensures
        split_spec(s, sep).len() >= 1,
    decreases s.len(),
{
    if s.len() > 0 {
        lemma_split_nonempty(s.drop_last(), sep);
    }
}

/// A line without the carriage return that may end it.
pub open spec fn strip_cr(l: Seq<char>) -> Seq<char> {
    if l.len() > 0 && l.last() == '\r' {
        l.drop_last()
    } else {
        l
    }
}

/// The lines of `s`, as `str::lines` gives them: split at line feeds, a final
/// empty piece dropped, and a carriage return removed where it ends a line
/// that a line feed follows.
pub open spec fn lines_spec(s: Seq<char>) -> Seq<Seq<char>> {
    let pieces = split_spec(s, '\n');
    let kept = if pieces.last().len() == 0 {
        pieces.drop_last()
    } else {
        pieces
    };
    kept.map(|i: int, l: Seq<char>| line_at(pieces.len(), i, l))
}

/// Piece `i` of `n` pieces split at line feeds, as a line: every piece but the
/// last is followed by a line feed, so a carriage return before it goes.
pub open spec fn line_at(n: nat, i: int, l: Seq<char>) -> Seq<char> {
    if i + 1 < n {
        strip_cr(l)
    } else {
        l
    }
}

/// The pieces of `v` between occurrences of `sep`.
pub fn split_chars(v: &Vec<char>, sep: char) -> (r: Vec<Vec<char>>)
    ensures
        views(r@) == split_spec(v@, sep),
        r@.len() >= 1,
{
    let mut pieces: Vec<Vec<char>> = Vec::new();
    let mut cur: Vec<char> = Vec::new();
    let mut i: usize = 0;
    proof {
        assert(v@.take(0) =~= Seq::<char>::empty());
        assert(views(pieces@).push(cur@) =~= split_spec(v@.take(0), sep));
    }
    while i < v.len()
        invariant
            i <= v.len(),
            views(pieces@).push(cur@) == split_spec(v@.take(i as int), sep),
        decreases v.len() - i,
    {
        proof {
            assert(v@.take(i + 1).drop_last() =~= v@.take(i as int));
            lemma_split_nonempty(v@.take(i as int), sep);
        }
        let c = v[i];
        if c == sep {
            let ghost before = views(pieces@).push(cur@);
            pieces.push(cur);
            cur = Vec::new();
            proof {
                assert(views(pieces@) =~= before);
                assert(views(pieces@).push(cur@) =~= before.push(Seq::empty()));
            }
        } else {
            let ghost before = views(pieces@).push(cur@);
            cur.push(c);
            proof {
                assert(views(pieces@).push(cur@) =~= before.update(
                    before.len() - 1,
                    before.last().push(c),
                ));
            }
        }
        i += 1;
    }
    let ghost before = views(pieces@).push(cur@);
    pieces.push(cur);
    proof {
        assert(v@.take(v@.len() as int) =~= v@);
        assert(views(pieces@) =~= before);
    }
    pieces
}

/// The lines of `v`.
pub fn lines_of(v: &Vec<char>) -> (r: Vec<Vec<char>>)
    ensures
        views(r@) == lines_spec(v@),
{
    let pieces = split_chars(v, '\n');
    let n: usize = if pieces[pieces.len() - 1].len() == 0 {
        pieces.len() - 1
    } else {
        pieces.len()
    };
    let ghost kept = if views(pieces@).last().len() == 0 {
        views(pieces@).drop_last()
    } else {
        views(pieces@)
    };
    let mut r: Vec<Vec<char>> = Vec::new();
    let mut i: usize = 0;
    while i < n
        invariant
            n <= pieces@.len(),
            i <= n,
            kept.len() == n,
            forall|j: int| 0 <= j < n ==> kept[j] == pieces@[j]@,
            views(r@) == kept.take(i as int).map(|k: int, l: Seq<char>| line_at(pieces@.len(), k, l)),
        decreases n - i,
    {
        let line = &pieces[i];
        let len = line.len();
        let stripped = if i + 1 < pieces.len() && len > 0 && line[len - 1] == '\r' {
            slice_chars(line, 0, len - 1)
        } else {
            slice_chars(line, 0, len)
        };
        proof {
            assert(line@.subrange(0, len as int) =~= line@);
            if len > 0 {
                assert(line@.subrange(0, len - 1) =~= line@.drop_last());
            }
        }
        assert(stripped@ == line_at(pieces@.len(), i as int, kept[i as int]));
        let ghost prev = views(r@);
        r.push(stripped);
        proof {
            assert(views(r@) =~= prev.push(stripped@));
            assert(kept.take(i + 1) =~= kept.take(i as int).push(kept[i as int]));
            assert(views(r@) =~= kept.take(i + 1).map(|k: int, l: Seq<char>| line_at(pieces@.len(), k, l)));
        }
        i += 1;
    }
    proof {
        assert(kept.take(n as int) =~= kept);
    }
    r
}

/// `s` with every occurrence of the non-empty `pat` replaced by `with`,
/// occurrences taken left to right without overlap, as `str::replace` does.
pub open spec fn replace_spec(s: Seq<char>, pat: Seq<char>, with: Seq<char>) -> Seq<char>
    recommends
        pat.len() > 0,
    decreases s.len(),
{
    if s.len() == 0 || pat.len() == 0 {
        s
    } else if has_prefix(s, pat) {
        with + replace_spec(s.subrange(pat.len() as int, s.len() as int), pat, with)
    } else {
        seq![s[0]] + replace_spec(s.subrange(1, s.len() as int), pat, with)
    }
}

/// `s` with every occurrence of `pat` replaced by `with`.
pub fn replace_str(s: &str, pat: &str, with: &str) -> (r: String)
    requires
        pat@.len() > 0,
    ensures
        r@ == replace_spec(s@, pat@, with@),
{
    let v = chars_of(s);
    let p = chars_of(pat);
    let w = chars_of(with);
    let n = v.len();
    let mut out: Vec<char> = Vec::new();
    let mut i: usize = 0;
    proof {
        assert(v@.subrange(0, n as int) =~= v@);
        assert(out@ + replace_spec(v@, p@, w@) =~= replace_spec(v@, p@, w@));
    }
    while i < n
        invariant
            n == v@.len(),
            i <= n,
            p@ == pat@,
            p@.len() > 0,
            out@ + replace_spec(v@.subrange(i as int, n as int), p@, w@) == replace_spec(v@, p@, w@),
        decreases n - i,
    {
        let ghost rest = v@.subrange(i as int, n as int);
        if starts_with_at(&v, i, &p) {
            let mut k: usize = 0;
            let ghost out0 = out@;
            while k < w.len()
                invariant
                    k <= w@.len(),
                    out@ == out0 + w@.subrange(0, k as int),
                decreases w.len() - k,
            {
                out.push(w[k]);
                proof {
                    assert(w@.subrange(0, k + 1) =~= w@.subrange(0, k as int).push(w@[k as int]));
                }
                k += 1;
            }
            proof {
                assert(w@.subrange(0, w@.len() as int) =~= w@);
                assert(rest.subrange(p@.len() as int, rest.len() as int) =~= v@.subrange(
                    i + p@.len(),
                    n as int,
                ));
                assert(out0 + (w@ + replace_spec(v@.subrange(i + p@.len(), n as int), p@, w@))
                    =~= out@ + replace_spec(v@.subrange(i + p@.len(), n as int), p@, w@));
            }
            i = i + p.len();
        } else {
            let ghost out0 = out@;
            out.push(v[i]);
            proof {
                assert(rest.subrange(1, rest.len() as int) =~= v@.subrange(i + 1, n as int));
                assert(out0 + (seq![rest[0]] + replace_spec(v@.subrange(i + 1, n as int), p@, w@))
                    =~= out@ + replace_spec(v@.subrange(i + 1, n as int), p@, w@));
            }
            i = i + 1;
        }
    }
    proof {
        assert(v@.subrange(n as int, n as int) =~= Seq::<char>::empty());
        assert(out@ + Seq::<char>::empty() =~= out@);
    }
    string_of(out.as_slice())
}

} // verus!
