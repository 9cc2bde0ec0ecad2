//! What holds of the grammar of `p4 where` for every input: the four shapes
//! of a line exclude one another, what is written is read back, lines keep
//! their order, and nothing is read from an output without a terminal line.

use crate::err::{ErrorKind, ItemView, P4Error};
use crate::parser::{error_of, exit_of, info_of, lemma_markers};
use crate::text::{cut, lemma_cut_joined, lemma_position, NEWLINE, SPACE};
use crate::where_::{
    is_result_sequence, outcome, result_view, FileItemView, FileView, Files,
};
use crate::where_parser::{
    depot_marker, file_of, is_depot_token, is_token, item_of, lemma_where_shape, prepend,
    spec_file, spec_item, spec_where,
};
use vstd::prelude::*;
use vstd::utf8::*;

verus! {

/// The marker of Perforce syntax, byte by byte.
pub proof fn lemma_depot_marker()
    ensures
        depot_marker() == seq!['/' as u8, '/' as u8],
{
    reveal_strlit("//");
    is_ascii_chars_encode_utf8("//"@);
    assert(depot_marker() =~= seq!['/' as u8, '/' as u8]);
}

/// The number of shapes that `line` has.
pub open spec fn shapes(line: Seq<u8>) -> nat {
    let data: nat = if file_of(line) is Some { 1 } else { 0 };
    let error: nat = if error_of(line) is Some { 1 } else { 0 };
    let info: nat = if info_of(line) is Some { 1 } else { 0 };
    let exit: nat = if exit_of(line) is Some { 1 } else { 0 };
    data + error + info + exit
}

/// A line has one shape or none: it cannot be read as a mapping, an error, a
/// note and the terminal line in more than one of these ways.
pub proof fn lemma_shapes_exclusive(line: Seq<u8>)
    ensures
        shapes(line) <= 1,
        exit_of(line) is Some ==> item_of(line) is None,
{
    lemma_markers();
    lemma_depot_marker();
    if file_of(line) is Some {
        let (depot, tail) = cut(line, SPACE)->0;
        assert(depot[0] == depot_marker()[0]);
        assert(line[0] == '/' as u8);
    }
    if error_of(line) is Some {
        assert(line[0] == line.subrange(0, 7)[0]);
        assert(line[0] == 'e' as u8);
    }
    if info_of(line) is Some {
        assert(line[0] == line.subrange(0, 6)[0]);
        assert(line[0] == 'i' as u8);
    }
    if exit_of(line) is Some {
        assert(line[0] == line.subrange(0, 11)[0]);
        assert(line[0] == '(' as u8);
    }
}

/// The data line that states a mapping between three tokens.
pub open spec fn data_line(depot: Seq<u8>, client: Seq<u8>, path: Seq<u8>) -> Seq<u8> {
    depot + seq![SPACE] + client + seq![SPACE] + path
}

/// A data line written from three tokens is read back as a mapping whose
/// three names are those tokens: each name decodes its token, and encodes to
/// the very bytes of the token again.
pub proof fn lemma_file_round_trip(
    depot: Seq<u8>,
    client: Seq<u8>,
    path: Seq<u8>,
    rest: Seq<u8>,
)
    requires
        is_depot_token(depot),
        is_depot_token(client),
        is_token(path),
    ensures
        file_of(data_line(depot, client, path)) == Some(
            FileView {
                depot_file: decode_utf8(depot),
                client_file: decode_utf8(client),
                path: decode_utf8(path),
            },
        ),
        spec_file(data_line(depot, client, path) + seq![NEWLINE] + rest) == Some(
            (
                FileView {
                    depot_file: decode_utf8(depot),
                    client_file: decode_utf8(client),
                    path: decode_utf8(path),
                },
                rest,
            ),
        ),
        encode_utf8(decode_utf8(depot)) == depot,
        encode_utf8(decode_utf8(client)) == client,
        encode_utf8(decode_utf8(path)) == path,
{
    let line = data_line(depot, client, path);
    let tail = client + seq![SPACE] + path;
    assert(line =~= depot + seq![SPACE] + tail);
    lemma_cut_joined(depot, SPACE, tail);
    lemma_cut_joined(client, SPACE, path);
    assert(!line.contains(NEWLINE)) by {
        if line.contains(NEWLINE) {
            let i = choose|i: int| 0 <= i < line.len() && line[i] == NEWLINE;
            if i < depot.len() {
                assert(depot[i] == NEWLINE);
            } else if i == depot.len() {
            } else if i < depot.len() + 1 + client.len() {
                assert(client[i - depot.len() - 1] == NEWLINE);
            } else if i == depot.len() + 1 + client.len() {
            } else {
                assert(path[i - depot.len() - client.len() - 2] == NEWLINE);
            }
        }
    }
    lemma_cut_joined(line, NEWLINE, rest);
    decode_utf8_encode_utf8(depot);
    decode_utf8_encode_utf8(client);
    decode_utf8_encode_utf8(path);
}

/// A line that is read as a mapping was written from three tokens, the
/// first two in Perforce syntax. The tokens are returned.
pub proof fn lemma_file_was_written(line: Seq<u8>) -> (tokens: (Seq<u8>, Seq<u8>, Seq<u8>))
    requires
        file_of(line) is Some,
    ensures
        is_depot_token(tokens.0),
        is_depot_token(tokens.1),
        is_token(tokens.2),
        line == data_line(tokens.0, tokens.1, tokens.2),
{
    lemma_position(line, SPACE);
    let (depot, tail) = cut(line, SPACE)->0;
    lemma_position(tail, SPACE);
    let (client, path) = cut(tail, SPACE)->0;
    assert(tail =~= client + seq![SPACE] + path);
    assert(line =~= data_line(depot, client, path));
    (depot, client, path)
}

/// `line` can stand in an output as an entry: it holds no newline and is a
/// data, error or informational line.
pub open spec fn is_item_line(line: Seq<u8>) -> bool {
    !line.contains(NEWLINE) && item_of(line) is Some
}

/// `line` can stand in an output as its terminal line.
pub open spec fn is_exit_line(line: Seq<u8>) -> bool {
    !line.contains(NEWLINE) && exit_of(line) is Some
}

/// `lines` written one after the other, each closed by a newline.
pub open spec fn written(lines: Seq<Seq<u8>>) -> Seq<u8>
    decreases lines.len(),
{
    if lines.len() == 0 {
        Seq::empty()
    } else {
        lines[0] + seq![NEWLINE] + written(lines.drop_first())
    }
}

/// What each of `lines` states, in the order of the lines.
pub open spec fn stated(lines: Seq<Seq<u8>>) -> Seq<FileItemView> {
    Seq::new(lines.len(), |i: int| item_of(lines[i])->0)
}

/// The terminal entry that `line` states.
pub open spec fn closing(line: Seq<u8>) -> FileItemView {
    ItemView::Exit { success: exit_of(line)->0 }
}

/// An entry line at the front of an output is read as its entry, and reading
/// goes on behind it.
proof fn lemma_item_line_read(first: Seq<u8>, tail: Seq<u8>)
    requires
        is_item_line(first),
    ensures
        spec_where(first + seq![NEWLINE] + tail) == prepend(
            seq![item_of(first)->0],
            spec_where(tail),
        ),
{
    lemma_cut_joined(first, NEWLINE, tail);
}

/// A terminal line at the front of an output ends the reading.
proof fn lemma_exit_line_read(last: Seq<u8>, rest: Seq<u8>)
    requires
        is_exit_line(last),
    ensures
        spec_where(last + seq![NEWLINE] + rest) == Some(
            (Seq::<FileItemView>::empty(), closing(last), rest),
        ),
{
    lemma_cut_joined(last, NEWLINE, rest);
    lemma_shapes_exclusive(last);
}

/// Order is preserved: from any interleaving of data, error and informational
/// lines followed by a terminal line, the entries are read in the order of
/// the lines, then the terminal entry, and what follows the terminal line is
/// handed back untouched.
pub proof fn lemma_order_preserved(lines: Seq<Seq<u8>>, last: Seq<u8>, rest: Seq<u8>)
    requires
        forall|i: int| 0 <= i < lines.len() ==> is_item_line(#[trigger] lines[i]),
        is_exit_line(last),
    ensures
        spec_where(written(lines) + last + seq![NEWLINE] + rest) == Some(
            (stated(lines), closing(last), rest),
        ),
    decreases lines.len(),
{
    let s = written(lines) + last + seq![NEWLINE] + rest;
    if lines.len() == 0 {
        assert(s =~= last + seq![NEWLINE] + rest);
        lemma_exit_line_read(last, rest);
        assert(stated(lines) =~= Seq::<FileItemView>::empty());
    } else {
        let first = lines[0];
        let others = lines.drop_first();
        let tail = written(others) + last + seq![NEWLINE] + rest;
        assert(s =~= first + seq![NEWLINE] + tail);
        assert(is_item_line(first));
        lemma_item_line_read(first, tail);
        assert forall|i: int| 0 <= i < others.len() implies is_item_line(#[trigger] others[i]) by {
            assert(others[i] == lines[i + 1]);
        }
        lemma_order_preserved(others, last, rest);
        assert(seq![item_of(first)->0] + stated(others) =~= stated(lines)) by {
            assert forall|i: int| 0 <= i < others.len() implies stated(others)[i] == stated(
                lines,
            )[i + 1] by {
                assert(others[i] == lines[i + 1]);
            }
        }
    }
}

/// Only what was written is read: an input from which entries are read is
/// made of the lines of those entries in their order, then a terminal line,
/// then what is handed back. The lines are returned.
pub proof fn lemma_read_was_written(s: Seq<u8>) -> (found: (Seq<Seq<u8>>, Seq<u8>))
    requires
        spec_where(s) is Some,
    ensures
        forall|i: int| 0 <= i < found.0.len() ==> is_item_line(#[trigger] found.0[i]),
        is_exit_line(found.1),
        spec_where(s) matches Some((items, exit, rest)) && items == stated(found.0) && exit
            == closing(found.1) && s == written(found.0) + found.1 + seq![NEWLINE] + rest,
    decreases s.len(),
{
    lemma_position(s, NEWLINE);
    let (line, after) = cut(s, NEWLINE)->0;
    assert(s =~= line + seq![NEWLINE] + after);
    if spec_item(s) is Some {
        let (others, last) = lemma_read_was_written(after);
        let lines = seq![line] + others;
        let (_, _, rest) = spec_where(after)->0;
        assert(lines.drop_first() =~= others);
        assert(s =~= written(lines) + last + seq![NEWLINE] + rest);
        assert(stated(lines) =~= seq![item_of(line)->0] + stated(others));
        (lines, last)
    } else {
        let lines = Seq::<Seq<u8>>::empty();
        assert(s =~= written(lines) + line + seq![NEWLINE] + after);
        assert(stated(lines) =~= Seq::<FileItemView>::empty());
        (lines, line)
    }
}

/// Every valid output is read: whatever the command line, an output made of
/// entries and one terminal line, with nothing behind it, gives a result, and
/// the last entry of the result is the terminal one.
pub proof fn lemma_valid_output_succeeds(
    command_line: Seq<Seq<char>>,
    lines: Seq<Seq<u8>>,
    last: Seq<u8>,
)
    requires
        forall|i: int| 0 <= i < lines.len() ==> is_item_line(#[trigger] lines[i]),
        is_exit_line(last),
    ensures
        outcome(command_line, Ok(written(lines) + last + seq![NEWLINE])) == Ok::<
            Seq<FileItemView>,
            crate::err::P4ErrorView,
        >(stated(lines).push(closing(last))),
        stated(lines).push(closing(last)).last() is Exit,
        is_result_sequence(stated(lines).push(closing(last))),
{
    let output = written(lines) + last + seq![NEWLINE];
    lemma_order_preserved(lines, last, Seq::empty());
    assert(output + Seq::<u8>::empty() =~= output);
    lemma_where_shape(output);
}

/// The bytes of `s` from `from` up to `to` are a line of `s`, closed by the
/// newline at `to`, and that line is a terminal line.
pub open spec fn exit_line_at(s: Seq<u8>, from: int, to: int) -> bool {
    &&& 0 <= from <= to < s.len()
    &&& from == 0 || s[from - 1] == NEWLINE
    &&& s[to] == NEWLINE
    &&& exit_of(s.subrange(from, to)) is Some
}

/// Some line of `s` is a terminal line.
pub open spec fn has_exit_line(s: Seq<u8>) -> bool {
    exists|from: int, to: int| exit_line_at(s, from, to)
}

/// Reading needs the terminal line: whatever can be read holds a line that
/// is a terminal line.
pub proof fn lemma_success_has_exit_line(s: Seq<u8>)
    requires
        spec_where(s) is Some,
    ensures
        has_exit_line(s),
    decreases s.len(),
{
    lemma_position(s, NEWLINE);
    let (line, rest) = cut(s, NEWLINE)->0;
    let n = line.len() as int;
    assert(s[n] == NEWLINE);
    if spec_item(s) is Some {
        lemma_success_has_exit_line(rest);
        let (from, to) = choose|from: int, to: int| exit_line_at(rest, from, to);
        assert(s.subrange(from + n + 1, to + n + 1) =~= rest.subrange(from, to));
        assert(s[to + n + 1] == rest[to]);
        if from > 0 {
            assert(s[from + n] == rest[from - 1]);
        }
        assert(exit_line_at(s, from + n + 1, to + n + 1));
    } else {
        assert(s.subrange(0, n) =~= line);
        assert(exit_line_at(s, 0, n));
    }
}

/// An output without a terminal line is a parse failure, never a result:
/// whatever the command line, the call fails, and with that kind.
pub proof fn lemma_missing_exit_line_fails(command_line: Seq<Seq<char>>, output: Seq<u8>)
    requires
        !has_exit_line(output),
    ensures
        spec_where(output) is None,
        outcome(command_line, Ok(output)) matches Err(error) && error.kind
            == ErrorKind::ParseFailed,
{
    if spec_where(output) is Some {
        lemma_success_has_exit_line(output);
    }
}

/// An empty output is a parse failure, never an empty result.
pub proof fn lemma_empty_output_fails(command_line: Seq<Seq<char>>)
    ensures
        spec_where(Seq::<u8>::empty()) is None,
        outcome(command_line, Ok(Seq::<u8>::empty())) matches Err(error) && error.kind
            == ErrorKind::ParseFailed,
{
    lemma_missing_exit_line_fails(command_line, Seq::<u8>::empty());
}

/// Every result is well formed: whatever the process wrote, a call that
/// succeeds gives at least one entry, the terminal entry is the last and the
/// only one of its kind, and every mapping has its three names.
pub proof fn lemma_result_well_formed(
    command_line: Seq<Seq<char>>,
    spawned: Result<Seq<u8>, Seq<char>>,
)
    ensures
        outcome(command_line, spawned) matches Ok(items) ==> is_result_sequence(items),
{
    if let Ok(output) = spawned {
        lemma_where_shape(output);
    }
}

/// Reading is repeatable: two calls with the same command line that are given
/// the same outcome of the process come to the same result, entry by entry
/// or error by error.
pub proof fn lemma_same_output_same_result(
    command_line: Seq<Seq<char>>,
    spawned: Result<Seq<u8>, Seq<char>>,
    first: Result<Files, P4Error>,
    second: Result<Files, P4Error>,
)
    requires
        result_view(first) == outcome(command_line, spawned),
        result_view(second) == outcome(command_line, spawned),
    ensures
        result_view(first) == result_view(second),
        first is Ok <==> second is Ok,
        first matches Ok(a) ==> second matches Ok(b) && a@ == b@,
{
}

} // verus!
