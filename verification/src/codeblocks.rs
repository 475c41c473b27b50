//! The fenced-code-block extractor: finds regions opened by three backticks,
//! optionally tagged `bash` or `sh` immediately after the opening fence, and
//! closed by the next three backticks; the trimmed contents are returned in
//! document order.

use crate::text::{trim, trim_spec};
use vstd::prelude::*;

verus! {

/// An opening or closing fence, three backticks, stands at position `i`.
pub open spec fn fence_at(s: Seq<char>, i: int) -> bool {
    0 <= i && i + 3 <= s.len() && s[i] == '`' && s[i + 1] == '`' && s[i + 2] == '`'
}

/// The position of the first fence at or after `from`, if any.
pub open spec fn find_fence_from(s: Seq<char>, from: int) -> Option<int>
    decreases s.len() - from,
{
    if from + 3 > s.len() {
        None
    } else if fence_at(s, from) {
        Some(from)
    } else {
        find_fence_from(s, from + 1)
    }
}

proof fn lemma_find_fence_props(s: Seq<char>, from: int)
    ensures
        match find_fence_from(s, from) {
            Some(o) => from <= o && fence_at(s, o) && (forall|j: int|
                from <= j < o ==> !fence_at(s, j)),
            None => forall|j: int| j >= from ==> !fence_at(s, j),
        },
    decreases s.len() - from,
{
    if from + 3 > s.len() {
    } else if fence_at(s, from) {
    } else {
        lemma_find_fence_props(s, from + 1);
    }
}

/// The word `w` stands in `s` at position `p`.
pub open spec fn matches_word(s: Seq<char>, p: int, w: Seq<char>) -> bool {
    0 <= p && p + w.len() <= s.len() && s.subrange(p, p + w.len() as int) == w
}

/// How many characters the language tag after an opening fence takes up:
/// `bash`, `sh`, or nothing.
pub open spec fn tag_len(s: Seq<char>, p: int) -> int {
    if matches_word(s, p, "bash"@) {
        4
    } else if matches_word(s, p, "sh"@) {
        2
    } else {
        0
    }
}

/// The trimmed bodies of the fenced blocks of `s` from position `from` on, in
/// document order. A block needs an opening fence, an optional tag, and a
/// closing fence; an unclosed opening fence yields nothing.
pub open spec fn extract_from(s: Seq<char>, from: int) -> Seq<Seq<char>>
    decreases s.len() - from,
    via extract_from_decreases
{
    match find_fence_from(s, from) {
        None => Seq::empty(),
        Some(o) => {
            let body_start = o + 3 + tag_len(s, o + 3);
            match find_fence_from(s, body_start) {
                None => Seq::empty(),
                Some(c) => seq![trim_spec(s.subrange(body_start, c))] + extract_from(s, c + 3),
            }
        },
    }
}

#[via_fn]
proof fn extract_from_decreases(s: Seq<char>, from: int) {
    lemma_find_fence_props(s, from);
    if let Some(o) = find_fence_from(s, from) {
        lemma_find_fence_props(s, o + 3 + tag_len(s, o + 3));
    }
}

/// The trimmed bodies of all fenced blocks of `s`, in document order.
pub open spec fn extract_blocks(s: Seq<char>) -> Seq<Seq<char>> {
    extract_from(s, 0)
}

/// Text without a fence holds no block: the extractor returns the empty
/// sequence rather than an error.
pub proof fn lemma_no_fence_no_blocks(s: Seq<char>)
    requires
        forall|i: int| !fence_at(s, i),
    ensures
        extract_blocks(s) == Seq::<Seq<char>>::empty(),
{
    lemma_find_fence_props(s, 0);
    if let Some(o) = find_fence_from(s, 0) {
        assert(fence_at(s, o));
    }
}

fn find_fence(s: &str, from: usize) -> (r: Option<usize>)
    requires
        from <= s@.len(),
    ensures
        match r {
            Some(o) => find_fence_from(s@, from as int) == Some(o as int) && from <= o && o + 3
                <= s@.len() && fence_at(s@, o as int),
            None => find_fence_from(s@, from as int) is None,
        },
{
    let len = s.unicode_len();
    if len < 3 {
        return None;
    }
    let mut i: usize = from;
    while i <= len - 3
        invariant
            from <= i <= len,
            3 <= len == s@.len(),
            find_fence_from(s@, from as int) == find_fence_from(s@, i as int),
        decreases len - i,
    {
        if s.get_char(i) == '`' && s.get_char(i + 1) == '`' && s.get_char(i + 2) == '`' {
            assert(fence_at(s@, i as int));
            return Some(i);
        }
        assert(!fence_at(s@, i as int));
        i = i + 1;
    }
    None
}

fn word_at(s: &str, p: usize, w: &str) -> (r: bool)
    ensures
        r == matches_word(s@, p as int, w@),
{
    let s_len = s.unicode_len();
    let w_len = w.unicode_len();
    if p > s_len || w_len > s_len - p {
        return false;
    }
    let mut k: usize = 0;
    while k < w_len
        invariant
            0 <= k <= w_len,
            p + w_len <= s_len,
            s_len == s@.len(),
            w_len == w@.len(),
            forall|j: int| 0 <= j < k ==> s@[p + j] == w@[j],
        decreases w_len - k,
    {
        if s.get_char(p + k) != w.get_char(k) {
            assert(s@.subrange(p as int, p + w@.len() as int)[k as int] == s@[p + k]);
            return false;
        }
        k = k + 1;
    }
    proof {
        assert(s@.subrange(p as int, p + w@.len() as int) =~= w@);
    }
    true
}

/// Extracts the fenced code blocks of a model reply, as [`extract_blocks`]
/// states: blocks open with three backticks, optionally tagged `bash` or
/// `sh`, close with three backticks, and are returned trimmed, in document
/// order. Untagged blocks count like tagged ones; text without a fence
/// yields the empty vector.
pub fn extract_code_blocks(text: &str) -> (r: Vec<String>)
    ensures
        r.deep_view() == extract_blocks(text@),
{
    let len = text.unicode_len();
    let mut out: Vec<String> = Vec::new();
    let mut pos: usize = 0;
    proof {
        assert(out.deep_view() =~= Seq::<Seq<char>>::empty());
        assert(out.deep_view() + extract_from(text@, 0) =~= extract_from(text@, 0));
    }
    loop
        invariant
            pos <= text@.len(),
            len == text@.len(),
            extract_blocks(text@) == out.deep_view() + extract_from(text@, pos as int),
        ensures
            extract_blocks(text@) == out.deep_view(),
        decreases text@.len() - pos,
    {
        let opening = find_fence(text, pos);
        match opening {
            None => {
                proof {
                    assert(extract_from(text@, pos as int) =~= Seq::<Seq<char>>::empty());
                    assert(out.deep_view() + extract_from(text@, pos as int) =~= out.deep_view());
                }
                return out;
            },
            Some(o) => {
                let mut body_start = o + 3;
                proof {
                    reveal_strlit("bash");
                    reveal_strlit("sh");
                }
                if word_at(text, body_start, "bash") {
                    body_start = body_start + 4;
                } else if word_at(text, body_start, "sh") {
                    body_start = body_start + 2;
                }
                proof {
                    assert(body_start as int == o + 3 + tag_len(text@, o + 3));
                }
                let closing = find_fence(text, body_start);
                match closing {
                    None => {
                        proof {
                            assert(extract_from(text@, pos as int) =~= Seq::<Seq<char>>::empty());
                            assert(out.deep_view() + extract_from(text@, pos as int)
                                =~= out.deep_view());
                        }
                        return out;
                    },
                    Some(c) => {
                        let ghost old_deep = out.deep_view();
                        let body = trim(text.substring_char(body_start, c));
                        out.push(String::from_str(body));
                        proof {
                            assert(out.deep_view() =~= old_deep.push(
                                trim_spec(text@.subrange(body_start as int, c as int)),
                            ));
                            assert(extract_from(text@, pos as int) == seq![
                                trim_spec(text@.subrange(body_start as int, c as int)),
                            ] + extract_from(text@, c + 3));
                            assert(out.deep_view() + extract_from(text@, c + 3)
                                =~= old_deep + extract_from(text@, pos as int));
                        }
                        pos = c + 3;
                    },
                }
            },
        }
    }
}

} // verus!
