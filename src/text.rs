//! Small string helpers over the character view of `str`.

use vstd::prelude::*;

verus! {

/// Compares two strings character by character.
pub fn str_eq(a: &str, b: &str) -> (r: bool)
    ensures
        r == (a@ == b@),
{
    let n = a.unicode_len();
    if n != b.unicode_len() {
        return false;
    }
    let mut i: usize = 0;
    while i < n
        invariant
            n == a@.len(),
            n == b@.len(),
            i <= n,
            forall|j: int| 0 <= j < i ==> a@[j] == b@[j],
        decreases n - i,
    {
        if a.get_char(i) != b.get_char(i) {
            return false;
        }
        i = i + 1;
    }
    assert(a@ =~= b@);
    true
}

/// Whether `c` has the Unicode `White_Space` property, as `char::is_whitespace` says.
pub open spec fn is_white(c: char) -> bool {
    let u = c as u32;
    (0x9 <= u && u <= 0xd) || u == 0x20 || u == 0x85 || u == 0xa0 || u == 0x1680 || (0x2000 <= u
        && u <= 0x200a) || u == 0x2028 || u == 0x2029 || u == 0x202f || u == 0x205f || u == 0x3000
}

/// `s` without its leading whitespace.
pub open spec fn trim_start(s: Seq<char>) -> Seq<char>
    decreases s.len(),
{
    if s.len() > 0 && is_white(s[0]) {
        trim_start(s.drop_first())
    } else {
        s
    }
}

/// `s` without its trailing whitespace.
pub open spec fn trim_end(s: Seq<char>) -> Seq<char>
    decreases s.len(),
{
    if s.len() > 0 && is_white(s.last()) {
        trim_end(s.drop_last())
    } else {
        s
    }
}

/// `s` without its leading and trailing whitespace.
pub open spec fn trimmed(s: Seq<char>) -> Seq<char> {
    trim_end(trim_start(s))
}

/// Whether `c` is whitespace.
pub fn is_white_char(c: char) -> (r: bool)
    ensures
        r == is_white(c),
{
    let u = c as u32;
    (0x9 <= u && u <= 0xd) || u == 0x20 || u == 0x85 || u == 0xa0 || u == 0x1680 || (0x2000 <= u
        && u <= 0x200a) || u == 0x2028 || u == 0x2029 || u == 0x202f || u == 0x205f || u == 0x3000
}

/// `s` without its leading and trailing whitespace.
pub fn trim(s: &str) -> (r: &str)
    ensures
        r@ == trimmed(s@),
{
    let n = s.unicode_len();
    let mut i: usize = 0;
    assert(s@.subrange(0, n as int) =~= s@);
    while i < n && is_white_char(s.get_char(i))
        invariant
            n == s@.len(),
            i <= n,
            trim_start(s@) == trim_start(s@.subrange(i as int, n as int)),
        decreases n - i,
    {
        assert(s@.subrange(i as int, n as int).drop_first() =~= s@.subrange(i + 1, n as int));
        i = i + 1;
    }
    assert(trim_start(s@) == s@.subrange(i as int, n as int));
    let mut j: usize = n;
    while j > i && is_white_char(s.get_char(j - 1))
        invariant
            n == s@.len(),
            i <= j <= n,
            trim_end(s@.subrange(i as int, n as int)) == trim_end(s@.subrange(i as int, j as int)),
        decreases j,
    {
        assert(s@.subrange(i as int, j as int).drop_last() =~= s@.subrange(i as int, j - 1));
        j = j - 1;
    }
    assert(trim_end(s@.subrange(i as int, j as int)) == s@.subrange(i as int, j as int));
    s.substring_char(i, j)
}

/// The pieces of `s` between occurrences of `c`, as `str::split` gives them.
pub open spec fn split_on(s: Seq<char>, c: char) -> Seq<Seq<char>>
    decreases s.len(),
{
    if s.len() == 0 {
        seq![Seq::empty()]
    } else {
        let p = split_on(s.drop_last(), c);
        if s.last() == c {
            p.push(Seq::empty())
        } else {
            p.update(p.len() - 1, p.last().push(s.last()))
        }
    }
}

/// The part of `s` before the first `c`, and the part after it if there is one.
pub open spec fn split_once(s: Seq<char>, c: char) -> (Seq<char>, Option<Seq<char>>)
    decreases s.len(),
{
    if s.len() == 0 {
        (Seq::empty(), None)
    } else {
        let (before, after) = split_once(s.drop_last(), c);
        match after {
            Some(a) => (before, Some(a.push(s.last()))),
            None => if s.last() == c {
                (before, Some(Seq::empty()))
            } else {
                (before.push(s.last()), None)
            },
        }
    }
}

proof fn lemma_split_on_len(s: Seq<char>, c: char)
    ensures
        split_on(s, c).len() >= 1,
    decreases s.len(),
{
    if s.len() > 0 {
        lemma_split_on_len(s.drop_last(), c);
    }
}

/// Splits `s` at every `c`.
pub fn split_char<'a>(s: &'a str, c: char) -> (r: Vec<&'a str>)
    ensures
        r@.map_values(|x: &str| x@) == split_on(s@, c),
{
    let n = s.unicode_len();
    let mut parts: Vec<&'a str> = Vec::new();
    let mut start: usize = 0;
    let mut i: usize = 0;
    assert(s@.subrange(0, 0) =~= Seq::<char>::empty());
    assert(parts@.map_values(|x: &str| x@).push(s@.subrange(0, 0)) =~= split_on(s@.subrange(0, 0), c));
    while i < n
        invariant
            n == s@.len(),
            start <= i <= n,
            parts@.map_values(|x: &str| x@).push(s@.subrange(start as int, i as int)) == split_on(s@.subrange(0, i as int), c),
        decreases n - i,
    {
        let ghost pre = s@.subrange(0, i + 1);
        assert(pre.drop_last() =~= s@.subrange(0, i as int));
        assert(pre.last() == s@[i as int]);
        proof { lemma_split_on_len(s@.subrange(0, i as int), c); }
        if s.get_char(i) == c {
            let ghost before = parts@;
            let piece = s.substring_char(start, i);
            parts.push(piece);
            assert(parts@.map_values(|x: &str| x@) =~= before.map_values(|x: &str| x@).push(piece@));
            assert(s@.subrange(i + 1, i + 1) =~= Seq::<char>::empty());
            start = i + 1;
        } else {
            assert(s@.subrange(start as int, i + 1) =~= s@.subrange(start as int, i as int).push(s@[i as int]));
        }
        i = i + 1;
    }
    let ghost before = parts@;
    let piece = s.substring_char(start, n);
    parts.push(piece);
    assert(parts@.map_values(|x: &str| x@) =~= before.map_values(|x: &str| x@).push(piece@));
    assert(s@.subrange(0, n as int) =~= s@);
    parts
}

proof fn lemma_split_once_found(s: Seq<char>, c: char, p: int, k: int)
    requires
        0 <= p < k <= s.len(),
        s[p] == c,
        forall|j: int| 0 <= j < p ==> s[j] != c,
    ensures
        split_once(s.subrange(0, k), c) == (s.subrange(0, p), Some(s.subrange(p + 1, k))),
    decreases k - p,
{
    let pre = s.subrange(0, k);
    assert(pre.drop_last() =~= s.subrange(0, k - 1));
    if k == p + 1 {
        lemma_split_once_none(s, c, p);
        assert(s.subrange(p + 1, k) =~= Seq::<char>::empty());
    } else {
        lemma_split_once_found(s, c, p, k - 1);
        assert(s.subrange(p + 1, k) =~= s.subrange(p + 1, k - 1).push(s[k - 1]));
    }
}

proof fn lemma_split_once_none(s: Seq<char>, c: char, k: int)
    requires
        0 <= k <= s.len(),
        forall|j: int| 0 <= j < k ==> s[j] != c,
    ensures
        split_once(s.subrange(0, k), c) == (s.subrange(0, k), None::<Seq<char>>),
    decreases k,
{
    if k > 0 {
        let pre = s.subrange(0, k);
        assert(pre.drop_last() =~= s.subrange(0, k - 1));
        lemma_split_once_none(s, c, k - 1);
        assert(s.subrange(0, k - 1).push(s[k - 1]) =~= s.subrange(0, k));
    } else {
        assert(s.subrange(0, 0) =~= Seq::<char>::empty());
    }
}

/// Splits `s` at its first `c`, if it has one.
pub fn split_at_first<'a>(s: &'a str, c: char) -> (r: (&'a str, Option<&'a str>))
    ensures
        split_once(s@, c) == (r.0@, match r.1 { Some(a) => Some(a@), None => None::<Seq<char>> }),
{
    let n = s.unicode_len();
    let mut i: usize = 0;
    while i < n
        invariant
            n == s@.len(),
            i <= n,
            forall|j: int| 0 <= j < i ==> s@[j] != c,
        decreases n - i,
    {
        if s.get_char(i) == c {
            proof {
                lemma_split_once_found(s@, c, i as int, n as int);
                assert(s@.subrange(0, n as int) =~= s@);
            }
            return (s.substring_char(0, i), Some(s.substring_char(i + 1, n)));
        }
        i = i + 1;
    }
    proof {
        lemma_split_once_none(s@, c, n as int);
        assert(s@.subrange(0, n as int) =~= s@);
    }
    (s, None)
}

} // verus!
