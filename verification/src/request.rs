//! Reading a raw request: method, path, id token and body.

use crate::text::{
    after_first_token, behind_leading_token, chars_of, find, first_token, is_space,
    leading_token, lemma_first_token_is_a_token, lemma_piece_is_between_separators,
    lemma_skip_spaces, lemma_skip_word, nth_piece, piece, scan_for, skip_spaces,
};
use vstd::prelude::*;

verus! {

/// The id token of a request text: the first token of its fifth piece,
/// the pieces being what `/` separates. Empty where the text has fewer
/// than five pieces.
pub open spec fn id_token(request: Seq<char>) -> Seq<char> {
    match piece(request, '/', 4) {
        Some(p) => first_token(p),
        None => Seq::empty(),
    }
}

/// The first line of `request`: what stands before its first line feed.
pub open spec fn first_line(request: Seq<char>) -> Seq<char> {
    request.subrange(0, find(request, '\n', 0))
}

/// The method: the first token of the first line.
pub open spec fn method_of(request: Seq<char>) -> Seq<char> {
    first_token(first_line(request))
}

/// The path: the second token of the first line.
pub open spec fn path_of(request: Seq<char>) -> Seq<char> {
    first_token(after_first_token(first_line(request)))
}

/// Whether a blank line, `\r\n\r\n`, begins at `i`.
pub open spec fn blank_line_at(s: Seq<char>, i: int) -> bool {
    &&& 0 <= i
    &&& i + 4 <= s.len()
    &&& s[i] == '\r'
    &&& s[i + 1] == '\n'
    &&& s[i + 2] == '\r'
    &&& s[i + 3] == '\n'
}

/// The place of the first blank line at or after `from`; where there is
/// none, a place too close to the end of `s` to hold one.
pub open spec fn find_blank_line(s: Seq<char>, from: int) -> int
    decreases s.len() - from,
{
    if 0 <= from && from + 4 <= s.len() && !blank_line_at(s, from) {
        find_blank_line(s, from + 1)
    } else {
        from
    }
}

/// The body: all that follows the first blank line. Empty where the
/// request has no blank line.
pub open spec fn body_of(request: Seq<char>) -> Seq<char> {
    let i = find_blank_line(request, 0);
    if blank_line_at(request, i) {
        request.subrange(i + 4, request.len() as int)
    } else {
        Seq::empty()
    }
}

/// No blank line begins before the place that `find_blank_line` gives.
pub proof fn lemma_find_blank_line(s: Seq<char>, from: int)
    requires
        0 <= from,
    ensures
        from <= find_blank_line(s, from),
        forall|j: int| from <= j < find_blank_line(s, from) ==> !blank_line_at(s, j),
        !blank_line_at(s, find_blank_line(s, from)) ==> forall|j: int|
            from <= j ==> !blank_line_at(s, j),
    decreases s.len() - from,
{
    if from + 4 <= s.len() && !blank_line_at(s, from) {
        lemma_find_blank_line(s, from + 1);
    }
}

/// Where a blank line begins at `i` and none before it, the body is what
/// follows these four characters; where none begins anywhere, the body is
/// empty.
pub proof fn lemma_body_follows_first_blank_line(request: Seq<char>, i: int)
    requires
        forall|j: int| 0 <= j < i ==> !blank_line_at(request, j),
    ensures
        blank_line_at(request, i) ==> body_of(request) == request.subrange(
            i + 4,
            request.len() as int,
        ),
        i >= request.len() ==> body_of(request) == Seq::<char>::empty(),
{
    lemma_find_blank_line(request, 0);
}

/// The id token holds neither a separator nor a `/`.
pub proof fn lemma_id_token_is_a_token(request: Seq<char>)
    ensures
        forall|i: int|
            0 <= i < id_token(request).len() ==> !is_space(#[trigger] id_token(request)[i])
                && id_token(request)[i] != '/',
{
    if let Some(p) = piece(request, '/', 4) {
        lemma_first_token_is_a_token(p);
        lemma_piece_is_between_separators(request, '/', 4);
        lemma_skip_spaces(p, 0);
        lemma_skip_word(p, skip_spaces(p, 0));
        assert forall|i: int| 0 <= i < first_token(p).len() implies #[trigger] first_token(p)[i]
            != '/' by {
            assert(first_token(p)[i] == p[skip_spaces(p, 0) + i]);
        }
    }
}

/// A request, taken apart.
#[derive(Debug, Clone, Copy, PartialEq, Eq)]
pub struct Request<'a> {
    pub method: &'a str,
    pub path: &'a str,
    pub body: &'a str,
}

/// The id token of `request`.
pub fn get_id(request: &str) -> (id: &str)
    ensures
        id@ == id_token(request@),
{
    match nth_piece(request, '/', 4) {
        Some(p) => leading_token(p),
        None => {
            proof {
                reveal_strlit("");
            }
            ""
        },
    }
}

/// The first line of `request`.
pub fn get_first_line(request: &str) -> (line: &str)
    ensures
        line@ == first_line(request@),
{
    let v = chars_of(request);
    let end = scan_for(&v, '\n', 0);
    request.substring_char(0, end)
}

/// The method of `request`.
pub fn get_method(request: &str) -> (method: &str)
    ensures
        method@ == method_of(request@),
{
    leading_token(get_first_line(request))
}

/// The path of `request`.
pub fn get_path(request: &str) -> (path: &str)
    ensures
        path@ == path_of(request@),
{
    leading_token(behind_leading_token(get_first_line(request)))
}

/// The body of `request`.
pub fn get_body(request: &str) -> (body: &str)
    ensures
        body@ == body_of(request@),
{
    let v = chars_of(request);
    let n = v.len();
    let mut i: usize = 0;
    while 4 <= n - i && !(v[i] == '\r' && v[i + 1] == '\n' && v[i + 2] == '\r' && v[i + 3] == '\n')
        invariant
            n == v.len(),
            i <= n,
            find_blank_line(v@, 0) == find_blank_line(v@, i as int),
        decreases n - i,
    {
        i += 1;
    }
    if 4 <= n - i {
        request.substring_char(i + 4, n)
    } else {
        proof {
            reveal_strlit("");
        }
        ""
    }
}

/// Takes `request` apart.
pub fn parse_request(request: &str) -> (r: Request<'_>)
    ensures
        r.method@ == method_of(request@),
        r.path@ == path_of(request@),
        r.body@ == body_of(request@),
{
    Request { method: get_method(request), path: get_path(request), body: get_body(request) }
}

} // verus!
