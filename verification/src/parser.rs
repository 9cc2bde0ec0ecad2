//! Recognizers for the lines that every command may print: an error, a note,
//! and the marker that ends the output.
//!
//! A line is what stands before the first newline of the input; a recognizer
//! consumes the line together with its newline and hands back what follows.

use crate::text::{cut, decode, split_once, strip_prefix, NEWLINE};
use vstd::prelude::*;
use vstd::string::StringSliceAdditionalSpecFns;
use vstd::utf8::*;

verus! {

/// The byte `0`.
pub const ZERO: u8 = 0x30;

/// The byte `9`.
pub const NINE: u8 = 0x39;

/// The byte `)`.
pub const CLOSE: u8 = 0x29;

/// The bytes that open an error line.
pub open spec fn error_marker() -> Seq<u8> {
    "error: ".spec_bytes()
}

/// The bytes that open an informational line.
pub open spec fn info_marker() -> Seq<u8> {
    "info: ".spec_bytes()
}

/// The bytes that open the terminal line.
pub open spec fn exit_marker() -> Seq<u8> {
    "(exit code ".spec_bytes()
}

/// The free text of a line that opens with `marker`: all that follows the
/// marker, decoded. `None` when the line opens otherwise or the text is not
/// valid UTF-8.
pub open spec fn marked_text(line: Seq<u8>, marker: Seq<u8>) -> Option<Seq<char>> {
    if marker.is_prefix_of(line) && valid_utf8(line.skip(marker.len() as int)) {
        Some(decode_utf8(line.skip(marker.len() as int)))
    } else {
        None
    }
}

/// The message of an error line.
pub open spec fn error_of(line: Seq<u8>) -> Option<Seq<char>> {
    marked_text(line, error_marker())
}

/// The message of an informational line.
pub open spec fn info_of(line: Seq<u8>) -> Option<Seq<char>> {
    marked_text(line, info_marker())
}

/// `digits` is a decimal number: one or more ASCII digits.
pub open spec fn is_number(digits: Seq<u8>) -> bool {
    &&& digits.len() > 0
    &&& forall|i: int| 0 <= i < digits.len() ==> ZERO <= #[trigger] digits[i] <= NINE
}

/// The decimal number `digits` is zero.
pub open spec fn is_zero(digits: Seq<u8>) -> bool {
    forall|i: int| 0 <= i < digits.len() ==> #[trigger] digits[i] == ZERO
}

/// The status that a terminal line reports: `(exit code N)` with a decimal
/// exit code `N`, which means success exactly when it is zero.
pub open spec fn exit_of(line: Seq<u8>) -> Option<bool> {
    let code = line.skip(exit_marker().len() as int).drop_last();
    if exit_marker().is_prefix_of(line) && line.len() > exit_marker().len() && line.last() == CLOSE
        && is_number(code) {
        Some(is_zero(code))
    } else {
        None
    }
}

/// An error line at the front of `s`: its message and what follows the line.
pub open spec fn spec_error(s: Seq<u8>) -> Option<(Seq<char>, Seq<u8>)> {
    match cut(s, NEWLINE) {
        Some((line, rest)) => match error_of(line) {
            Some(text) => Some((text, rest)),
            None => None,
        },
        None => None,
    }
}

/// An informational line at the front of `s`: its message and what follows
/// the line.
pub open spec fn spec_info(s: Seq<u8>) -> Option<(Seq<char>, Seq<u8>)> {
    match cut(s, NEWLINE) {
        Some((line, rest)) => match info_of(line) {
            Some(text) => Some((text, rest)),
            None => None,
        },
        None => None,
    }
}

/// The terminal line at the front of `s`: its status and what follows the
/// line.
pub open spec fn spec_exit(s: Seq<u8>) -> Option<(bool, Seq<u8>)> {
    match cut(s, NEWLINE) {
        Some((line, rest)) => match exit_of(line) {
            Some(success) => Some((success, rest)),
            None => None,
        },
        None => None,
    }
}

/// The markers, byte by byte.
pub proof fn lemma_markers()
    ensures
        error_marker() == seq!['e' as u8, 'r' as u8, 'r' as u8, 'o' as u8, 'r' as u8, ':' as u8, ' ' as u8],
        info_marker() == seq!['i' as u8, 'n' as u8, 'f' as u8, 'o' as u8, ':' as u8, ' ' as u8],
        exit_marker() == seq![
            '(' as u8,
            'e' as u8,
            'x' as u8,
            'i' as u8,
            't' as u8,
            ' ' as u8,
            'c' as u8,
            'o' as u8,
            'd' as u8,
            'e' as u8,
            ' ' as u8,
        ],
{
    reveal_strlit("error: ");
    reveal_strlit("info: ");
    reveal_strlit("(exit code ");
    is_ascii_chars_encode_utf8("error: "@);
    is_ascii_chars_encode_utf8("info: "@);
    is_ascii_chars_encode_utf8("(exit code "@);
    assert(error_marker() =~= seq!['e' as u8, 'r' as u8, 'r' as u8, 'o' as u8, 'r' as u8, ':' as u8, ' ' as u8]);
    assert(info_marker() =~= seq!['i' as u8, 'n' as u8, 'f' as u8, 'o' as u8, ':' as u8, ' ' as u8]);
    assert(exit_marker() =~= seq![
        '(' as u8,
        'e' as u8,
        'x' as u8,
        'i' as u8,
        't' as u8,
        ' ' as u8,
        'c' as u8,
        'o' as u8,
        'd' as u8,
        'e' as u8,
        ' ' as u8,
    ]);
}

/// Decodes the text of `line` behind `marker`.
fn marked<'a>(line: &'a [u8], marker: &str) -> (res: Option<String>)
    ensures
        match res {
            Some(text) => marked_text(line@, marker.spec_bytes()) == Some(text@),
            None => marked_text(line@, marker.spec_bytes()) is None,
        },
{
    match strip_prefix(line, marker) {
        Some(body) => decode(body),
        None => None,
    }
}

/// Recognizes an error line at the front of `input`.
pub fn error<'a>(input: &'a [u8]) -> (res: Option<(String, &'a [u8])>)
    ensures
        match res {
            Some((text, rest)) => spec_error(input@) == Some((text@, rest@)),
            None => spec_error(input@) is None,
        },
{
    match split_once(input, NEWLINE) {
        Some((line, rest)) => match marked(line, "error: ") {
            Some(text) => Some((text, rest)),
            None => None,
        },
        None => None,
    }
}

/// Recognizes an informational line at the front of `input`.
pub fn info<'a>(input: &'a [u8]) -> (res: Option<(String, &'a [u8])>)
    ensures
        match res {
            Some((text, rest)) => spec_info(input@) == Some((text@, rest@)),
            None => spec_info(input@) is None,
        },
{
    match split_once(input, NEWLINE) {
        Some((line, rest)) => match marked(line, "info: ") {
            Some(text) => Some((text, rest)),
            None => None,
        },
        None => None,
    }
}

/// Reads the status off a terminal line.
fn exit_status(line: &[u8]) -> (res: Option<bool>)
    ensures
        res == exit_of(line@),
{
    match strip_prefix(line, "(exit code ") {
        Some(body) => {
            if body.len() < 2 || body[body.len() - 1] != CLOSE {
                return None;
            }
            let n: usize = body.len() - 1;
            let ghost code = body@.drop_last();
            assert(body@ == line@.skip(exit_marker().len() as int));
            assert(line@.last() == body@.last());
            let mut zero = true;
            let mut i: usize = 0;
            while i < n
                invariant
                    i <= n,
                    n == code.len(),
                    n + 1 == body@.len(),
                    code == body@.drop_last(),
                    body@ == line@.skip(exit_marker().len() as int),
                    exit_marker().is_prefix_of(line@),
                    line@.last() == CLOSE,
                    forall|j: int| 0 <= j < i ==> ZERO <= #[trigger] code[j] <= NINE,
                    zero <==> forall|j: int| 0 <= j < i ==> #[trigger] code[j] == ZERO,
                decreases n - i,
            {
                let b: u8 = body[i];
                assert(b == code[i as int]);
                if b < ZERO || b > NINE {
                    return None;
                }
                if b != ZERO {
                    zero = false;
                }
                i += 1;
            }
            Some(zero)
        },
        None => None,
    }
}

/// Recognizes the terminal line at the front of `input`.
pub fn exit<'a>(input: &'a [u8]) -> (res: Option<(bool, &'a [u8])>)
    ensures
        match res {
            Some((success, rest)) => spec_exit(input@) == Some((success, rest@)),
            None => spec_exit(input@) is None,
        },
{
    match split_once(input, NEWLINE) {
        Some((line, rest)) => match exit_status(line) {
            Some(success) => Some((success, rest)),
            None => None,
        },
        None => None,
    }
}

} // verus!
