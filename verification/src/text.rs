//! Helpers on bytes and strings: finding a delimiter, splitting at it,
//! stripping a fixed marker, decoding UTF-8, and writing words on one line.

use vstd::prelude::*;
use vstd::slice::slice_subrange;
use vstd::string::StringExecFns;
use vstd::string::StringSliceAdditionalSpecFns;
use vstd::utf8::*;

verus! {

/// The byte that separates the tokens of a line.
pub const SPACE: u8 = 0x20;

/// The byte that ends every line.
pub const NEWLINE: u8 = 0x0a;

/// `n` is where the first `b` of `s` stands, or the length of `s` when `s`
/// holds no `b`.
pub open spec fn is_position(s: Seq<u8>, b: u8, n: int) -> bool {
    &&& 0 <= n <= s.len()
    &&& forall|i: int| 0 <= i < n ==> s[i] != b
    &&& n < s.len() ==> s[n] == b
}

/// Index of the first `b` in `s`, or `s.len()` when there is none.
pub open spec fn position(s: Seq<u8>, b: u8) -> int {
    choose|n: int| is_position(s, b, n)
}

/// Splits `s` at its first `b`: what stands before it and what stands after
/// it. `None` when `s` holds no `b`.
pub open spec fn cut(s: Seq<u8>, b: u8) -> Option<(Seq<u8>, Seq<u8>)> {
    let n = position(s, b);
    if 0 <= n < s.len() {
        Some((s.take(n), s.skip(n + 1)))
    } else {
        None
    }
}

proof fn lemma_position_from(s: Seq<u8>, b: u8, from: int) -> (n: int)
    requires
        0 <= from <= s.len(),
        forall|i: int| 0 <= i < from ==> s[i] != b,
    ensures
        is_position(s, b, n),
    decreases s.len() - from,
{
    if from == s.len() || s[from] == b {
        from
    } else {
        lemma_position_from(s, b, from + 1)
    }
}

/// Every sequence has exactly one position for every byte.
pub proof fn lemma_position(s: Seq<u8>, b: u8)
    ensures
        is_position(s, b, position(s, b)),
        forall|n: int| is_position(s, b, n) ==> n == position(s, b),
{
    let w = lemma_position_from(s, b, 0);
    let p = position(s, b);
    assert(is_position(s, b, p));
    assert forall|n: int| is_position(s, b, n) implies n == p by {
        if n < p {
            assert(s[n] == b);
        }
        if p < n {
            assert(s[p] == b);
        }
    }
}

/// A sequence can be cut at `b` exactly when it holds `b`.
pub proof fn lemma_cut_contains(s: Seq<u8>, b: u8)
    ensures
        cut(s, b) is Some <==> s.contains(b),
{
    lemma_position(s, b);
    let p = position(s, b);
    if s.contains(b) {
        let i = choose|i: int| 0 <= i < s.len() && s[i] == b;
        assert(p <= i);
    }
}

/// Cutting `head + [b] + tail` gives back `head` and `tail` when `head` is
/// free of `b`.
pub proof fn lemma_cut_joined(head: Seq<u8>, b: u8, tail: Seq<u8>)
    requires
        !head.contains(b),
    ensures
        cut(head + seq![b] + tail, b) == Some((head, tail)),
{
    let s = head + seq![b] + tail;
    let n = head.len() as int;
    assert forall|i: int| 0 <= i < n implies s[i] != b by {
        assert(s[i] == head[i]);
    }
    assert(s[n] == b);
    assert(is_position(s, b, n));
    lemma_position(s, b);
    assert(s.take(n) =~= head);
    assert(s.skip(n + 1) =~= tail);
}

/// Index of the first `b` in `input`, or its length when there is none.
pub fn find(input: &[u8], b: u8) -> (n: usize)
    ensures
        n == position(input@, b),
        n <= input@.len(),
{
    let mut i: usize = 0;
    while i < input.len() && input[i] != b
        invariant
            i <= input@.len(),
            forall|j: int| 0 <= j < i ==> input@[j] != b,
        decreases input@.len() - i,
    {
        i += 1;
    }
    proof {
        assert(is_position(input@, b, i as int));
        lemma_position(input@, b);
    }
    i
}

/// Splits `input` at its first `b`, dropping that byte.
pub fn split_once<'a>(input: &'a [u8], b: u8) -> (res: Option<(&'a [u8], &'a [u8])>)
    ensures
        match res {
            Some((head, tail)) => cut(input@, b) == Some((head@, tail@)),
            None => cut(input@, b) is None,
        },
{
    let n: usize = find(input, b);
    if n < input.len() {
        let head = slice_subrange(input, 0, n);
        let tail = slice_subrange(input, n + 1, input.len());
        Some((head, tail))
    } else {
        None
    }
}

/// Removes the bytes of `marker` from the front of `input`. `None` when
/// `input` does not begin with them.
pub fn strip_prefix<'a>(input: &'a [u8], marker: &str) -> (res: Option<&'a [u8]>)
    ensures
        res is Some <==> marker.spec_bytes().is_prefix_of(input@),
        res matches Some(rest) ==> rest@ == input@.skip(marker.spec_bytes().len() as int),
{
    let m = marker.as_bytes();
    if input.len() < m.len() {
        return None;
    }
    let mut i: usize = 0;
    while i < m.len()
        invariant
            i <= m@.len() <= input@.len(),
            m@ == marker.spec_bytes(),
            forall|j: int| 0 <= j < i ==> input@[j] == m@[j],
        decreases m@.len() - i,
    {
        if input[i] != m[i] {
            proof {
                assert(input@.subrange(0, m@.len() as int)[i as int] != m@[i as int]);
            }
            return None;
        }
        i += 1;
    }
    proof {
        assert(m@ =~= input@.subrange(0, m@.len() as int));
    }
    Some(slice_subrange(input, m.len(), input.len()))
}

/// The error of `core::str::from_utf8`, carried through and never looked into.
#[verifier::external_type_specification]
#[verifier::external_body]
pub struct ExUtf8Error(core::str::Utf8Error);

/// `core::str::from_utf8` checks that the bytes are valid UTF-8 and, when they
/// are, returns the very same bytes as a string slice. It fails on every other
/// input.
pub assume_specification[ core::str::from_utf8 ](v: &[u8]) -> (res: Result<
    &str,
    core::str::Utf8Error,
>)
    ensures
        res is Ok <==> valid_utf8(v@),
        res matches Ok(s) ==> s.spec_bytes() == v@,
;

/// Decodes `bytes` as UTF-8 into an owned string. `None` exactly when the
/// bytes are not valid UTF-8.
pub fn decode(bytes: &[u8]) -> (res: Option<String>)
    ensures
        res is Some <==> valid_utf8(bytes@),
        res matches Some(s) ==> s@ == decode_utf8(bytes@) && encode_utf8(s@) == bytes@,
{
    match core::str::from_utf8(bytes) {
        Ok(s) => {
            proof {
                encode_utf8_decode_utf8(s@);
            }
            Some(s.to_owned())
        },
        Err(_) => None,
    }
}

/// The views of a sequence of strings, in order.
pub open spec fn texts(words: Seq<String>) -> Seq<Seq<char>> {
    words.map_values(|word: String| word@)
}

/// `words` written on one line, with one space between neighbours.
pub open spec fn joined(words: Seq<Seq<char>>) -> Seq<char>
    decreases words.len(),
{
    if words.len() == 0 {
        Seq::empty()
    } else if words.len() == 1 {
        words[0]
    } else {
        joined(words.drop_last()) + seq![' '] + words.last()
    }
}

/// Writes `words` on one line, with one space between neighbours.
pub fn join(words: &Vec<String>) -> (line: String)
    ensures
        line@ == joined(texts(words@)),
{
    let mut line = String::new();
    let mut i: usize = 0;
    while i < words.len()
        invariant
            i <= words@.len(),
            line@ == joined(texts(words@).take(i as int)),
        decreases words@.len() - i,
    {
        proof {
            let ghost all = texts(words@);
            assert(all.take(i + 1).drop_last() =~= all.take(i as int));
            assert(all.take(i + 1).last() == words@[i as int]@);
        }
        if i > 0 {
            line.append(" ");
            proof {
                reveal_strlit(" ");
                assert(" "@ =~= seq![' ']);
            }
        }
        line.append(words[i].as_str());
        assert(line@ =~= joined(texts(words@).take(i + 1)));
        i += 1;
    }
    assert(texts(words@).take(words@.len() as int) =~= texts(words@));
    line
}

} // verus!
