//! Character classes and token boundaries of request text.

use vstd::prelude::*;

verus! {

/// The characters that separate tokens: those with the Unicode
/// `White_Space` property.
pub open spec fn is_space(c: char) -> bool {
    let n = c as u32;
    ||| 0x09 <= n <= 0x0D
    ||| n == 0x20
    ||| n == 0x85
    ||| n == 0xA0
    ||| n == 0x1680
    ||| 0x2000 <= n <= 0x200A
    ||| n == 0x2028
    ||| n == 0x2029
    ||| n == 0x202F
    ||| n == 0x205F
    ||| n == 0x3000
}

/// Whether `c` separates tokens.
pub fn is_whitespace(c: char) -> (r: bool)
    ensures
        r == is_space(c),
{
    let n: u32 = c as u32;
    (0x09 <= n && n <= 0x0D) || n == 0x20 || n == 0x85 || n == 0xA0 || n == 0x1680 || (0x2000 <= n
        && n <= 0x200A) || n == 0x2028 || n == 0x2029 || n == 0x202F || n == 0x205F || n == 0x3000
}

/// The characters of `s`, in order.
pub fn chars_of(s: &str) -> (v: Vec<char>)
    ensures
        v@ == s@,
{
    let mut v: Vec<char> = Vec::new();
    for c in it: s.chars()
        invariant
            it.seq() == s@,
            v@ == s@.take(it.index() as int),
    {
        v.push(c);
    }
    v
}

/// Where the run of separators that begins at `from` ends.
pub open spec fn skip_spaces(s: Seq<char>, from: int) -> int
    decreases s.len() - from,
{
    if 0 <= from < s.len() && is_space(s[from]) {
        skip_spaces(s, from + 1)
    } else {
        from
    }
}

/// Where the run of non-separators that begins at `from` ends.
pub open spec fn skip_word(s: Seq<char>, from: int) -> int
    decreases s.len() - from,
{
    if 0 <= from < s.len() && !is_space(s[from]) {
        skip_word(s, from + 1)
    } else {
        from
    }
}

/// The place of the first `c` at or after `from`, or the length of `s`
/// where there is none.
pub open spec fn find(s: Seq<char>, c: char, from: int) -> int
    decreases s.len() - from,
{
    if 0 <= from < s.len() && s[from] != c {
        find(s, c, from + 1)
    } else {
        from
    }
}

/// The first token of `s`: what stands between the leading separators and
/// the next separator. Empty where `s` holds separators only.
pub open spec fn first_token(s: Seq<char>) -> Seq<char> {
    let a = skip_spaces(s, 0);
    s.subrange(a, skip_word(s, a))
}

/// What is left of `s` behind its first token.
pub open spec fn after_first_token(s: Seq<char>) -> Seq<char> {
    s.subrange(skip_word(s, skip_spaces(s, 0)), s.len() as int)
}

/// Where piece `n` of `s` begins, the pieces being what `sep` separates;
/// `None` where `s` has no more than `n` pieces.
pub open spec fn piece_start(s: Seq<char>, sep: char, n: nat) -> Option<int>
    decreases n,
{
    if n == 0 {
        Some(0)
    } else {
        match piece_start(s, sep, (n - 1) as nat) {
            Some(p) => {
                let q = find(s, sep, p);
                if q < s.len() {
                    Some(q + 1)
                } else {
                    None
                }
            },
            None => None,
        }
    }
}

/// Piece `n` of `s`, counted from 0.
pub open spec fn piece(s: Seq<char>, sep: char, n: nat) -> Option<Seq<char>> {
    match piece_start(s, sep, n) {
        Some(p) => Some(s.subrange(p, find(s, sep, p))),
        None => None,
    }
}

/// `skip_spaces` stops inside `s`, behind separators only, and before a
/// character that is none.
pub proof fn lemma_skip_spaces(s: Seq<char>, from: int)
    requires
        0 <= from <= s.len(),
    ensures
        from <= skip_spaces(s, from) <= s.len(),
        forall|i: int| from <= i < skip_spaces(s, from) ==> is_space(#[trigger] s[i]),
        skip_spaces(s, from) < s.len() ==> !is_space(s[skip_spaces(s, from)]),
    decreases s.len() - from,
{
    if from < s.len() && is_space(s[from]) {
        lemma_skip_spaces(s, from + 1);
    }
}

/// `skip_word` stops inside `s`, behind non-separators only, and before a
/// separator.
pub proof fn lemma_skip_word(s: Seq<char>, from: int)
    requires
        0 <= from <= s.len(),
    ensures
        from <= skip_word(s, from) <= s.len(),
        forall|i: int| from <= i < skip_word(s, from) ==> !is_space(#[trigger] s[i]),
        skip_word(s, from) < s.len() ==> is_space(s[skip_word(s, from)]),
    decreases s.len() - from,
{
    if from < s.len() && !is_space(s[from]) {
        lemma_skip_word(s, from + 1);
    }
}

/// `find` stops inside `s`, at the first `c`.
pub proof fn lemma_find(s: Seq<char>, c: char, from: int)
    requires
        0 <= from <= s.len(),
    ensures
        from <= find(s, c, from) <= s.len(),
        forall|i: int| from <= i < find(s, c, from) ==> #[trigger] s[i] != c,
        find(s, c, from) < s.len() ==> s[find(s, c, from)] == c,
    decreases s.len() - from,
{
    if from < s.len() && s[from] != c {
        lemma_find(s, c, from + 1);
    }
}

/// Where piece `n` begins lies inside `s`.
pub proof fn lemma_piece_start(s: Seq<char>, sep: char, n: nat)
    ensures
        piece_start(s, sep, n) matches Some(p) ==> 0 <= p <= s.len(),
    decreases n,
{
    if n > 0 {
        lemma_piece_start(s, sep, (n - 1) as nat);
        if let Some(p) = piece_start(s, sep, (n - 1) as nat) {
            lemma_find(s, sep, p);
        }
    }
}

/// The first token holds no separator, and is empty only where `s` holds
/// nothing else.
pub proof fn lemma_first_token_is_a_token(s: Seq<char>)
    ensures
        forall|i: int| 0 <= i < first_token(s).len() ==> !is_space(#[trigger] first_token(s)[i]),
        first_token(s).len() == 0 ==> forall|i: int| 0 <= i < s.len() ==> is_space(#[trigger] s[i]),
{
    let a = skip_spaces(s, 0);
    lemma_skip_spaces(s, 0);
    lemma_skip_word(s, a);
}

/// A piece holds no separator, and what stands before it ends with one.
pub proof fn lemma_piece_is_between_separators(s: Seq<char>, sep: char, n: nat)
    requires
        piece(s, sep, n) is Some,
    ensures
        forall|i: int|
            0 <= i < piece(s, sep, n)->Some_0.len() ==> #[trigger] piece(s, sep, n)->Some_0[i]
                != sep,
        n > 0 ==> 0 < piece_start(s, sep, n)->Some_0 <= s.len() && s[piece_start(s, sep, n)->Some_0
            - 1] == sep,
{
    lemma_piece_start(s, sep, n);
    let p = piece_start(s, sep, n)->Some_0;
    lemma_find(s, sep, p);
    if n > 0 {
        lemma_piece_start(s, sep, (n - 1) as nat);
        lemma_find(s, sep, piece_start(s, sep, (n - 1) as nat)->Some_0);
    }
}

fn scan_spaces(v: &Vec<char>, from: usize) -> (r: usize)
    requires
        from <= v.len(),
    ensures
        r == skip_spaces(v@, from as int),
        from <= r <= v.len(),
{
    let mut i: usize = from;
    while i < v.len() && is_whitespace(v[i])
        invariant
            from <= i <= v.len(),
            skip_spaces(v@, from as int) == skip_spaces(v@, i as int),
        decreases v.len() - i,
    {
        i += 1;
    }
    i
}

fn scan_word(v: &Vec<char>, from: usize) -> (r: usize)
    requires
        from <= v.len(),
    ensures
        r == skip_word(v@, from as int),
        from <= r <= v.len(),
{
    let mut i: usize = from;
    while i < v.len() && !is_whitespace(v[i])
        invariant
            from <= i <= v.len(),
            skip_word(v@, from as int) == skip_word(v@, i as int),
        decreases v.len() - i,
    {
        i += 1;
    }
    i
}

pub(crate) fn scan_for(v: &Vec<char>, c: char, from: usize) -> (r: usize)
    requires
        from <= v.len(),
    ensures
        r == find(v@, c, from as int),
        from <= r <= v.len(),
{
    let mut i: usize = from;
    while i < v.len() && v[i] != c
        invariant
            from <= i <= v.len(),
            find(v@, c, from as int) == find(v@, c, i as int),
        decreases v.len() - i,
    {
        i += 1;
    }
    i
}

/// The first token of `s`.
pub fn leading_token(s: &str) -> (r: &str)
    ensures
        r@ == first_token(s@),
{
    let v = chars_of(s);
    let a = scan_spaces(&v, 0);
    let b = scan_word(&v, a);
    s.substring_char(a, b)
}

/// What is left of `s` behind its first token.
pub fn behind_leading_token(s: &str) -> (r: &str)
    ensures
        r@ == after_first_token(s@),
{
    let v = chars_of(s);
    let a = scan_spaces(&v, 0);
    let b = scan_word(&v, a);
    s.substring_char(b, v.len())
}

/// Piece `n` of `s`, the pieces being what `sep` separates.
pub fn nth_piece(s: &str, sep: char, n: usize) -> (r: Option<&str>)
    ensures
        match r {
            Some(p) => piece(s@, sep, n as nat) == Some(p@),
            None => piece(s@, sep, n as nat) is None,
        },
{
    let v = chars_of(s);
    let mut start: usize = 0;
    let mut k: usize = 0;
    while k < n
        invariant
            k <= n,
            v@ == s@,
            start <= v.len(),
            piece_start(v@, sep, k as nat) == Some(start as int),
        decreases n - k,
    {
        let q = scan_for(&v, sep, start);
        if q == v.len() {
            proof {
                assert(piece_start(v@, sep, (k + 1) as nat) is None);
                lemma_no_piece_beyond(v@, sep, (k + 1) as nat, n as nat);
            }
            return None;
        }
        start = q + 1;
        k += 1;
    }
    let end = scan_for(&v, sep, start);
    Some(s.substring_char(start, end))
}

/// Behind a piece that `s` does not have, it has none.
pub proof fn lemma_no_piece_beyond(s: Seq<char>, sep: char, k: nat, n: nat)
    requires
        piece_start(s, sep, k) is None,
        k <= n,
    ensures
        piece_start(s, sep, n) is None,
    decreases n,
{
    if k < n {
        lemma_no_piece_beyond(s, sep, k, (n - 1) as nat);
    }
}

/// Whether `a` and `b` hold the same characters.
pub fn same_text(a: &str, b: &str) -> (r: bool)
    ensures
        r == (a@ == b@),
{
    let va = chars_of(a);
    let vb = chars_of(b);
    if va.len() != vb.len() {
        return false;
    }
    let mut i: usize = 0;
    while i < va.len()
        invariant
            va@ == a@,
            vb@ == b@,
            va.len() == vb.len(),
            i <= va.len(),
            va@.take(i as int) == vb@.take(i as int),
        decreases va.len() - i,
    {
        if va[i] != vb[i] {
            return false;
        }
        proof {
            assert(va@.take(i + 1) == va@.take(i as int).push(va@[i as int]));
            assert(vb@.take(i + 1) == vb@.take(i as int).push(vb@[i as int]));
        }
        i += 1;
    }
    proof {
        assert(va@.take(va.len() as int) == va@);
        assert(vb@.take(vb.len() as int) == vb@);
    }
    true
}

/// What follows `prefix` in `s`, where `s` begins with it.
pub fn without_prefix<'a>(s: &'a str, prefix: &str) -> (r: Option<&'a str>)
    ensures
        match r {
            Some(rest) => prefix@.is_prefix_of(s@) && rest@ == s@.skip(prefix@.len() as int),
            None => !prefix@.is_prefix_of(s@),
        },
{
    let vs = chars_of(s);
    let vp = chars_of(prefix);
    if vs.len() < vp.len() {
        return None;
    }
    let mut i: usize = 0;
    while i < vp.len()
        invariant
            vs@ == s@,
            vp@ == prefix@,
            vp.len() <= vs.len(),
            i <= vp.len(),
            vs@.take(i as int) == vp@.take(i as int),
        decreases vp.len() - i,
    {
        if vs[i] != vp[i] {
            proof {
                if prefix@.is_prefix_of(s@) {
                    assert(s@.subrange(0, prefix@.len() as int)[i as int] == prefix@[i as int]);
                }
            }
            return None;
        }
        proof {
            assert(vs@.take(i + 1) == vs@.take(i as int).push(vs@[i as int]));
            assert(vp@.take(i + 1) == vp@.take(i as int).push(vp@[i as int]));
        }
        i += 1;
    }
    proof {
        assert(vp@.take(vp.len() as int) == vp@);
        assert(s@.subrange(0, prefix@.len() as int) == s@.take(prefix@.len() as int));
        assert(s@.skip(prefix@.len() as int) == s@.subrange(
            prefix@.len() as int,
            s@.len() as int,
        ));
    }
    Some(s.substring_char(vp.len(), vs.len()))
}

} // verus!
