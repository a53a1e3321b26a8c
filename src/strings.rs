//! Operations on strings, stated over their characters.

use vstd::prelude::*;

verus! {

/// Lexicographic order on character sequences, by code point.
pub open spec fn lex_lt(a: Seq<char>, b: Seq<char>) -> bool
    decreases a.len(),
{
    if a.len() == 0 {
        b.len() > 0
    } else if b.len() == 0 {
        false
    } else if a[0] < b[0] {
        true
    } else if a[0] > b[0] {
        false
    } else {
        lex_lt(a.drop_first(), b.drop_first())
    }
}

/// Does `p` occur in `s`?
pub open spec fn seq_contains(s: Seq<char>, p: Seq<char>) -> bool {
    exists|i: int| 0 <= i && i + p.len() <= s.len() && #[trigger] s.subrange(i, i + p.len()) == p
}

/// `s` with every occurrence of the non-empty `p` taken out, scanning from
/// the left; `s` itself when `p` is empty.
pub open spec fn remove_all(s: Seq<char>, p: Seq<char>) -> Seq<char>
    decreases s.len(),
{
    if p.len() == 0 || s.len() < p.len() {
        s
    } else if s.subrange(0, p.len() as int) == p {
        remove_all(s.subrange(p.len() as int, s.len() as int), p)
    } else {
        seq![s[0]] + remove_all(s.drop_first(), p)
    }
}

/// `s` with every occurrence of `c` taken out.
pub open spec fn remove_char(s: Seq<char>, c: char) -> Seq<char>
    decreases s.len(),
{
    if s.len() == 0 {
        s
    } else if s.last() == c {
        remove_char(s.drop_last(), c)
    } else {
        remove_char(s.drop_last(), c).push(s.last())
    }
}

/// Relies on `String::push`: appends one character.
#[verifier::external_body]
pub(crate) fn push_char(s: &mut String, c: char)
    ensures
        final(s)@ == old(s)@.push(c),
{
    s.push(c)
}

/// The characters of a string.
pub fn chars_of(s: &str) -> (r: Vec<char>)
    ensures
        r@ == s@,
{
    let n = s.unicode_len();
    let mut out: Vec<char> = Vec::new();
    let mut i: usize = 0;
    while i < n
        invariant
            n == s@.len(),
            i <= n,
            out@ == s@.subrange(0, i as int),
        decreases n - i,
    {
        out.push(s.get_char(i));
        i = i + 1;
        proof {
            assert(out@ =~= s@.subrange(0, i as int));
        }
    }
    proof {
        assert(out@ =~= s@);
    }
    out
}

/// The string made of the characters `v[from..]`, appended to `s`.
pub fn push_chars(s: &mut String, v: &Vec<char>, from: usize)
    requires
        from <= v@.len(),
    ensures
        final(s)@ == old(s)@ + v@.subrange(from as int, v@.len() as int),
{
    let mut i: usize = from;
    while i < v.len()
        invariant
            from <= i <= v@.len(),
            s@ == old(s)@ + v@.subrange(from as int, i as int),
        decreases v.len() - i,
    {
        push_char(s, v[i]);
        i = i + 1;
        proof {
            assert(s@ =~= old(s)@ + v@.subrange(from as int, i as int));
        }
    }
}

/// The concatenation of two strings.
pub fn concat(a: &str, b: &str) -> (r: String)
    ensures
        r@ == a@ + b@,
{
    let mut s = String::from_str(a);
    s.append(b);
    s
}

proof fn lemma_lex_lt_prefix(a: Seq<char>, b: Seq<char>, i: int)
    requires
        0 <= i <= a.len(),
        i <= b.len(),
        a.subrange(0, i) == b.subrange(0, i),
    ensures
        lex_lt(a, b) == lex_lt(a.subrange(i, a.len() as int), b.subrange(i, b.len() as int)),
    decreases i,
{
    if i > 0 {
        assert(a[0] == a.subrange(0, i)[0]);
        assert(b[0] == b.subrange(0, i)[0]);
        let a1 = a.drop_first();
        let b1 = b.drop_first();
        assert(a1.subrange(0, i - 1) =~= a.subrange(0, i).drop_first());
        assert(b1.subrange(0, i - 1) =~= b.subrange(0, i).drop_first());
        lemma_lex_lt_prefix(a1, b1, i - 1);
        assert(a1.subrange(i - 1, a1.len() as int) =~= a.subrange(i, a.len() as int));
        assert(b1.subrange(i - 1, b1.len() as int) =~= b.subrange(i, b.len() as int));
    } else {
        assert(a.subrange(0, a.len() as int) =~= a);
        assert(b.subrange(0, b.len() as int) =~= b);
    }
}

/// Compare two character sequences: negative, zero or positive as `a` is
/// less than, equal to or greater than `b`.
pub fn compare_chars(a: &Vec<char>, b: &Vec<char>) -> (r: i8)
    ensures
        (r < 0) == lex_lt(a@, b@),
        (r == 0) == (a@ == b@),
        (r > 0) == lex_lt(b@, a@),
{
    let mut i: usize = 0;
    while i < a.len() && i < b.len()
        invariant
            i <= a@.len(),
            i <= b@.len(),
            a@.subrange(0, i as int) == b@.subrange(0, i as int),
        decreases a.len() - i,
    {
        if a[i] != b[i] {
            proof {
                lemma_lex_lt_prefix(a@, b@, i as int);
                lemma_lex_lt_prefix(b@, a@, i as int);
                assert(a@.subrange(i as int, a@.len() as int)[0] == a@[i as int]);
                assert(b@.subrange(i as int, b@.len() as int)[0] == b@[i as int]);
                assert(a@[i as int] != b@[i as int]);
            }
            if a[i] < b[i] {
                return -1;
            } else {
                return 1;
            }
        }
        proof {
            assert(a@.subrange(0, i + 1) =~= a@.subrange(0, i as int).push(a@[i as int]));
            assert(b@.subrange(0, i + 1) =~= b@.subrange(0, i as int).push(b@[i as int]));
        }
        i = i + 1;
    }
    proof {
        lemma_lex_lt_prefix(a@, b@, i as int);
        lemma_lex_lt_prefix(b@, a@, i as int);
    }
    if a.len() < b.len() {
        proof {
            assert(a@.subrange(i as int, a@.len() as int).len() == 0);
            assert(a@ != b@);
        }
        -1
    } else if a.len() > b.len() {
        proof {
            assert(b@.subrange(i as int, b@.len() as int).len() == 0);
        }
        1
    } else {
        proof {
            assert(a@ =~= a@.subrange(0, i as int));
            assert(b@ =~= b@.subrange(0, i as int));
            assert(a@.subrange(i as int, a@.len() as int).len() == 0);
        }
        0
    }
}

/// Do the characters `p` stand in `s` at `at`?
fn matches_at(s: &Vec<char>, p: &Vec<char>, at: usize) -> (r: bool)
    requires
        at + p@.len() <= s.len(),
    ensures
        r == (s@.subrange(at as int, at + p@.len()) == p@),
{
    let mut j: usize = 0;
    while j < p.len()
        invariant
            at + p@.len() <= s.len(),
            j <= p@.len(),
            s@.subrange(at as int, at + j) == p@.subrange(0, j as int),
        decreases p.len() - j,
    {
        if s[at + j] != p[j] {
            proof {
                assert(s@.subrange(at as int, at + p@.len())[j as int] != p@[j as int]);
            }
            return false;
        }
        proof {
            assert(s@.subrange(at as int, at + j + 1) =~= s@.subrange(at as int, at + j).push(
                s@[at + j],
            ));
            assert(p@.subrange(0, j + 1) =~= p@.subrange(0, j as int).push(p@[j as int]));
        }
        j = j + 1;
    }
    proof {
        assert(p@.subrange(0, j as int) =~= p@);
    }
    true
}

/// Does `p` occur in `s`?
pub fn contains_chars(s: &Vec<char>, p: &Vec<char>) -> (r: bool)
    ensures
        r == seq_contains(s@, p@),
{
    if p.len() > s.len() {
        return false;
    }
    let last = s.len() - p.len();
    let mut i: usize = 0;
    loop
        invariant
            last == s@.len() - p@.len(),
            last + p@.len() == s.len(),
            i <= last,
            forall|k: int| 0 <= k < i ==> #[trigger] s@.subrange(k, k + p@.len()) != p@,
        decreases last - i,
    {
        if matches_at(s, p, i) {
            return true;
        }
        if i == last {
            return false;
        }
        i = i + 1;
    }
}

proof fn lemma_remove_all_step(s: Seq<char>, p: Seq<char>, i: int)
    requires
        p.len() > 0,
        0 <= i,
        i + p.len() <= s.len(),
    ensures
        s.subrange(i, i + p.len()) == p ==> remove_all(s.subrange(i, s.len() as int), p)
            == remove_all(s.subrange(i + p.len(), s.len() as int), p),
        s.subrange(i, i + p.len()) != p ==> remove_all(s.subrange(i, s.len() as int), p) == seq![
            s[i],
        ] + remove_all(s.subrange(i + 1, s.len() as int), p),
{
    let t = s.subrange(i, s.len() as int);
    assert(t.subrange(0, p.len() as int) =~= s.subrange(i, i + p.len()));
    assert(t.subrange(p.len() as int, t.len() as int) =~= s.subrange(
        i + p.len(),
        s.len() as int,
    ));
    assert(t.drop_first() =~= s.subrange(i + 1, s.len() as int));
}

/// `s` with every occurrence of `p` taken out.
pub fn remove_all_chars(s: &Vec<char>, p: &Vec<char>) -> (r: String)
    ensures
        r@ == remove_all(s@, p@),
{
    let mut out = String::new();
    if p.len() == 0 {
        push_chars(&mut out, s, 0);
        proof {
            assert(s@.subrange(0, s@.len() as int) =~= s@);
        }
        return out;
    }
    let mut i: usize = 0;
    proof {
        assert(s@.subrange(0, s@.len() as int) =~= s@);
    }
    while i < s.len() && p.len() <= s.len() - i
        invariant
            p@.len() > 0,
            i <= s@.len(),
            out@ + remove_all(s@.subrange(i as int, s@.len() as int), p@) == remove_all(s@, p@),
        decreases s.len() - i,
    {
        proof {
            lemma_remove_all_step(s@, p@, i as int);
        }
        if matches_at(s, p, i) {
            i = i + p.len();
        } else {
            let ghost before = out@;
            push_char(&mut out, s[i]);
            proof {
                assert(out@ + remove_all(s@.subrange(i + 1, s@.len() as int), p@) =~= before
                    + remove_all(s@.subrange(i as int, s@.len() as int), p@));
            }
            i = i + 1;
        }
    }
    let ghost before = out@;
    push_chars(&mut out, s, i);
    proof {
        assert(remove_all(s@.subrange(i as int, s@.len() as int), p@) == s@.subrange(
            i as int,
            s@.len() as int,
        ));
        assert(out@ =~= before + remove_all(s@.subrange(i as int, s@.len() as int), p@));
    }
    out
}

/// `s` with every occurrence of `c` taken out.
pub fn remove_char_chars(s: &Vec<char>, c: char) -> (r: String)
    ensures
        r@ == remove_char(s@, c),
{
    let mut out = String::new();
    let mut i: usize = 0;
    while i < s.len()
        invariant
            i <= s@.len(),
            out@ == remove_char(s@.subrange(0, i as int), c),
        decreases s.len() - i,
    {
        let ghost before = out@;
        proof {
            assert(s@.subrange(0, i + 1).drop_last() =~= s@.subrange(0, i as int));
            assert(s@.subrange(0, i + 1).last() == s@[i as int]);
        }
        if s[i] != c {
            push_char(&mut out, s[i]);
        }
        i = i + 1;
    }
    proof {
        assert(s@.subrange(0, s@.len() as int) =~= s@);
    }
    out
}

} // verus!
