//! What the library asks of a text.

use vstd::prelude::*;

verus! {

/// The index of the last `'/'` of `text` at or after `from`, if there is one.
pub open spec fn last_slash(text: Seq<char>, from: int) -> Option<int>
    decreases text.len() - from,
{
    if from < 0 || from >= text.len() {
        None
    } else {
        match last_slash(text, from + 1) {
            Some(later) => Some(later),
            None => if text[from] == '/' {
                Some(from)
            } else {
                None
            },
        }
    }
}

/// What `last_slash` returns is a `'/'` at or after `from` with none behind it.
pub proof fn lemma_last_slash(text: Seq<char>, from: int)
    requires
        0 <= from,
    ensures
        match last_slash(text, from) {
            Some(at) => from <= at < text.len() && text[at] == '/' && forall|k: int|
                at < k < text.len() ==> text[k] != '/',
            None => forall|k: int| from <= k < text.len() ==> text[k] != '/',
        },
    decreases text.len() - from,
{
    if from < text.len() {
        lemma_last_slash(text, from + 1);
    }
}

/// Whether `text` begins with `prefix`.
pub fn starts_with(text: &str, prefix: &str) -> (begins: bool)
    ensures
        begins == prefix@.is_prefix_of(text@),
{
    let wanted = prefix.unicode_len();
    let given = text.unicode_len();
    if given < wanted {
        return false;
    }
    let mut i: usize = 0;
    while i < wanted
        invariant
            i <= wanted,
            wanted == prefix@.len(),
            given == text@.len(),
            wanted <= given,
            forall|k: int| 0 <= k < i ==> prefix@[k] == text@[k],
        decreases wanted - i,
    {
        if prefix.get_char(i) != text.get_char(i) {
            return false;
        }
        i += 1;
    }
    true
}

/// The index of the last `'/'` of `text` at or after `from`.
pub fn find_last_slash(text: &str, from: usize) -> (found: Option<usize>)
    ensures
        match found {
            Some(at) => last_slash(text@, from as int) == Some(at as int),
            None => last_slash(text@, from as int) is None,
        },
{
    let length = text.unicode_len();
    let mut at: usize = length;
    while at > from
        invariant
            length == text@.len(),
            at <= length,
            forall|k: int| at <= k < length ==> text@[k] != '/',
        decreases at,
    {
        at -= 1;
        if text.get_char(at) == '/' {
            proof {
                lemma_last_slash(text@, from as int);
            }
            return Some(at);
        }
    }
    proof {
        lemma_last_slash(text@, from as int);
    }
    None
}

/// The lower-case form of an ASCII capital; any other character itself.
pub open spec fn ascii_lower(c: char) -> char {
    if 'A' <= c && c <= 'Z' {
        ((c as u8) + 32) as char
    } else {
        c
    }
}

/// A text with its ASCII capitals in lower case.
pub open spec fn lowered(text: Seq<char>) -> Seq<char> {
    text.map_values(|c: char| ascii_lower(c))
}

/// The lower-case form of an ASCII capital; any other character itself.
pub fn to_ascii_lower(c: char) -> (lower: char)
    ensures
        lower == ascii_lower(c),
{
    if 'A' <= c && c <= 'Z' {
        ((c as u8) + 32) as char
    } else {
        c
    }
}

/// Whether `text`, with its ASCII capitals in lower case, is `wanted`.
pub fn is_lowered(text: &str, wanted: &str) -> (same: bool)
    ensures
        same == (lowered(text@) == wanted@),
{
    let length = wanted.unicode_len();
    if text.unicode_len() != length {
        return false;
    }
    let mut i: usize = 0;
    while i < length
        invariant
            i <= length,
            length == wanted@.len(),
            length == text@.len(),
            forall|k: int| 0 <= k < i ==> lowered(text@)[k] == wanted@[k],
        decreases length - i,
    {
        if to_ascii_lower(text.get_char(i)) != wanted.get_char(i) {
            return false;
        }
        i += 1;
    }
    assert(lowered(text@) =~= wanted@);
    true
}

/// The first index from `from` on at which two texts part: where they
/// differ or one of them ends.
pub open spec fn parting(a: Seq<char>, b: Seq<char>, from: int) -> int
    decreases a.len() - from,
{
    if from < 0 || from >= a.len() || from >= b.len() || a[from] != b[from] {
        from
    } else {
        parting(a, b, from + 1)
    }
}

/// Whether `a` stands before `b` in the order of texts: the order of their
/// characters where they first differ, and a text before each text that it
/// begins. It is the order in which `String`s are compared.
pub open spec fn text_before(a: Seq<char>, b: Seq<char>) -> bool {
    let at = parting(a, b, 0);
    if at >= b.len() {
        false
    } else if at >= a.len() {
        true
    } else {
        a[at] < b[at]
    }
}

/// Where two texts part, they agree before, and there they differ or one
/// of them ends; and no other index is like that.
pub proof fn lemma_parting(a: Seq<char>, b: Seq<char>, from: int)
    requires
        0 <= from,
    ensures
        from <= parting(a, b, from),
        from <= a.len() && from <= b.len() ==> parting(a, b, from) <= a.len() && parting(
            a,
            b,
            from,
        ) <= b.len(),
        forall|k: int| from <= k < parting(a, b, from) ==> a[k] == b[k],
        parting(a, b, from) < a.len() && parting(a, b, from) < b.len() ==> a[parting(a, b, from)]
            != b[parting(a, b, from)],
        parting(a, b, from) == parting(b, a, from),
    decreases a.len() - from,
{
    if !(from >= a.len() || from >= b.len() || a[from] != b[from]) {
        lemma_parting(a, b, from + 1);
    }
}

/// An index before which two texts agree, and at which they differ or one
/// of them ends, is where they part.
pub proof fn lemma_parting_is(a: Seq<char>, b: Seq<char>, at: int)
    requires
        0 <= at <= a.len(),
        at <= b.len(),
        forall|k: int| 0 <= k < at ==> a[k] == b[k],
        at == a.len() || at == b.len() || a[at] != b[at],
    ensures
        parting(a, b, 0) == at,
{
    lemma_parting(a, b, 0);
}

/// No text stands before itself.
pub proof fn lemma_text_before_irreflexive(a: Seq<char>)
    ensures
        !text_before(a, a),
{
    lemma_parting(a, a, 0);
}

/// Of two different texts one stands before the other.
pub proof fn lemma_text_before_total(a: Seq<char>, b: Seq<char>)
    ensures
        a == b || text_before(a, b) || text_before(b, a),
        !(text_before(a, b) && text_before(b, a)),
{
    lemma_parting(a, b, 0);
    lemma_parting(b, a, 0);
    let at = parting(a, b, 0);
    if at >= a.len() && at >= b.len() {
        assert(a =~= b);
    }
}

/// What stands before a text that stands before another stands before the
/// other.
pub proof fn lemma_text_before_transitive(a: Seq<char>, b: Seq<char>, c: Seq<char>)
    requires
        text_before(a, b),
        text_before(b, c),
    ensures
        text_before(a, c),
{
    lemma_parting(a, b, 0);
    lemma_parting(b, c, 0);
    let first = parting(a, b, 0);
    let second = parting(b, c, 0);
    let at = if first <= second {
        first
    } else {
        second
    };
    assert forall|k: int| 0 <= k < at implies a[k] == c[k] by {
        assert(a[k] == b[k]);
        assert(b[k] == c[k]);
    }
    lemma_parting_is(a, c, at);
}

/// Whether `a` stands before `b` in the order of texts.
pub fn is_before(a: &str, b: &str) -> (before: bool)
    ensures
        before == text_before(a@, b@),
{
    let a_length = a.unicode_len();
    let b_length = b.unicode_len();
    let mut at: usize = 0;
    while at < a_length && at < b_length
        invariant
            a_length == a@.len(),
            b_length == b@.len(),
            at <= a_length,
            at <= b_length,
            forall|k: int| 0 <= k < at ==> a@[k] == b@[k],
        decreases a_length - at,
    {
        let left = a.get_char(at);
        let right = b.get_char(at);
        if left != right {
            proof {
                lemma_parting_is(a@, b@, at as int);
            }
            return left < right;
        }
        at += 1;
    }
    proof {
        lemma_parting_is(a@, b@, at as int);
    }
    at < b_length
}

} // verus!
