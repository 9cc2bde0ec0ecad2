//! The grammar of the output of `p4 where`: data lines, interleaved with
//! errors and notes, closed by the terminal line.

use crate::err::{Item, ItemView};
use crate::parser::{error, error_of, exit, info, info_of, spec_exit};
use crate::text::{cut, decode, find, lemma_cut_contains, split_once, strip_prefix, NEWLINE, SPACE};
use crate::where_::{views, File, FileItem, FileItemView, FileView};
use vstd::prelude::*;
use vstd::string::StringSliceAdditionalSpecFns;
use vstd::utf8::*;

verus! {

/// The bytes that open a name in Perforce syntax.
pub open spec fn depot_marker() -> Seq<u8> {
    "//".spec_bytes()
}

/// `t` can stand as one token of a data line: it is not empty, holds neither
/// a space nor a newline, and is valid UTF-8.
pub open spec fn is_token(t: Seq<u8>) -> bool {
    &&& t.len() > 0
    &&& !t.contains(SPACE)
    &&& !t.contains(NEWLINE)
    &&& valid_utf8(t)
}

/// `t` is a token in Perforce syntax.
pub open spec fn is_depot_token(t: Seq<u8>) -> bool {
    is_token(t) && depot_marker().is_prefix_of(t)
}

/// The mapping that a data line states: three tokens with one space between
/// them, the first two in Perforce syntax. `None` for any other line.
pub open spec fn file_of(line: Seq<u8>) -> Option<FileView> {
    match cut(line, SPACE) {
        Some((depot, tail)) => match cut(tail, SPACE) {
            Some((client, path)) => if is_depot_token(depot) && is_depot_token(client) && is_token(
                path,
            ) {
                Some(
                    FileView {
                        depot_file: decode_utf8(depot),
                        client_file: decode_utf8(client),
                        path: decode_utf8(path),
                    },
                )
            } else {
                None
            },
            None => None,
        },
        None => None,
    }
}

/// What a line of the output states, if it is no terminal line. Where a line
/// could be read in more than one way, a data line is preferred to an error
/// and an error to a note.
pub open spec fn item_of(line: Seq<u8>) -> Option<FileItemView> {
    match file_of(line) {
        Some(file) => Some(ItemView::Data(file)),
        None => match error_of(line) {
            Some(text) => Some(ItemView::Error(text)),
            None => match info_of(line) {
                Some(text) => Some(ItemView::Info(text)),
                None => None,
            },
        },
    }
}

/// A data line at the front of `s`: its mapping and what follows the line.
pub open spec fn spec_file(s: Seq<u8>) -> Option<(FileView, Seq<u8>)> {
    match cut(s, NEWLINE) {
        Some((line, rest)) => match file_of(line) {
            Some(file) => Some((file, rest)),
            None => None,
        },
        None => None,
    }
}

/// A data, error or informational line at the front of `s`: what it states
/// and what follows the line.
pub open spec fn spec_item(s: Seq<u8>) -> Option<(FileItemView, Seq<u8>)> {
    match cut(s, NEWLINE) {
        Some((line, rest)) => match item_of(line) {
            Some(item) => Some((item, rest)),
            None => None,
        },
        None => None,
    }
}

/// `result` with `front` put before its entries.
pub open spec fn prepend(
    front: Seq<FileItemView>,
    result: Option<(Seq<FileItemView>, FileItemView, Seq<u8>)>,
) -> Option<(Seq<FileItemView>, FileItemView, Seq<u8>)> {
    match result {
        Some((items, exit, rest)) => Some((front + items, exit, rest)),
        None => None,
    }
}

/// The whole output: as many data, error and informational lines as can be
/// read from the front of `s`, then the terminal line. Gives the entries in
/// the order of their lines, the terminal entry, and what follows the
/// terminal line. `None` when the first line that is no entry is no terminal
/// line either.
pub open spec fn spec_where(s: Seq<u8>) -> Option<(Seq<FileItemView>, FileItemView, Seq<u8>)>
    decreases s.len(),
{
    match spec_item(s) {
        Some((item, rest)) => prepend(seq![item], spec_where(rest)),
        None => match spec_exit(s) {
            Some((success, rest)) => Some((Seq::empty(), ItemView::Exit { success }, rest)),
            None => None,
        },
    }
}

/// A token decodes to at least one character.
proof fn lemma_token_decodes(t: Seq<u8>)
    requires
        is_token(t),
    ensures
        decode_utf8(t).len() > 0,
{
}

/// Whatever is read from an output: no terminal entry stands among the
/// entries, every mapping has its three names, and the entry that closes
/// them is the terminal one.
pub proof fn lemma_where_shape(s: Seq<u8>)
    ensures
        spec_where(s) matches Some((items, exit, rest)) ==> {
            &&& exit is Exit
            &&& forall|i: int| 0 <= i < items.len() ==> !(#[trigger] items[i] is Exit)
            &&& forall|i: int|
                0 <= i < items.len() ==> (#[trigger] items[i] matches ItemView::Data(file)
                    ==> file.populated())
        },
    decreases s.len(),
{
    match spec_item(s) {
        Some((item, rest)) => {
            lemma_where_shape(rest);
            let (line, _) = cut(s, NEWLINE)->0;
            match file_of(line) {
                Some(file) => {
                    let (depot, tail) = cut(line, SPACE)->0;
                    let (client, path) = cut(tail, SPACE)->0;
                    lemma_token_decodes(depot);
                    lemma_token_decodes(client);
                    lemma_token_decodes(path);
                },
                None => {},
            }
        },
        None => {},
    }
}

/// Decodes one token.
fn token(t: &[u8]) -> (res: Option<String>)
    ensures
        res is Some <==> is_token(t@),
        res matches Some(s) ==> s@ == decode_utf8(t@),
{
    proof {
        lemma_cut_contains(t@, SPACE);
        lemma_cut_contains(t@, NEWLINE);
    }
    if t.len() == 0 || find(t, SPACE) < t.len() || find(t, NEWLINE) < t.len() {
        return None;
    }
    decode(t)
}

/// Decodes one token in Perforce syntax.
fn depot_token(t: &[u8]) -> (res: Option<String>)
    ensures
        res is Some <==> is_depot_token(t@),
        res matches Some(s) ==> s@ == decode_utf8(t@),
{
    match strip_prefix(t, "//") {
        Some(_) => token(t),
        None => None,
    }
}

/// Recognizes a data line at the front of `input`.
pub fn file<'a>(input: &'a [u8]) -> (res: Option<(File, &'a [u8])>)
    ensures
        match res {
            Some((file, rest)) => spec_file(input@) == Some((file@, rest@)),
            None => spec_file(input@) is None,
        },
{
    let (line, rest) = match split_once(input, NEWLINE) {
        Some(parts) => parts,
        None => { return None; },
    };
    let (depot, tail) = match split_once(line, SPACE) {
        Some(parts) => parts,
        None => { return None; },
    };
    let (client, path) = match split_once(tail, SPACE) {
        Some(parts) => parts,
        None => { return None; },
    };
    let depot_file = match depot_token(depot) {
        Some(name) => name,
        None => { return None; },
    };
    let client_file = match depot_token(client) {
        Some(name) => name,
        None => { return None; },
    };
    let path = match token(path) {
        Some(name) => name,
        None => { return None; },
    };
    Some((File::new(depot_file, client_file, path), rest))
}

/// Recognizes a data, error or informational line at the front of `input`,
/// trying them in this order.
pub fn item<'a>(input: &'a [u8]) -> (res: Option<(FileItem, &'a [u8])>)
    ensures
        match res {
            Some((item, rest)) => spec_item(input@) == Some((item@, rest@)),
            None => spec_item(input@) is None,
        },
{
    if let Some((file, rest)) = file(input) {
        return Some((Item::Data(file), rest));
    }
    if let Some((text, rest)) = error(input) {
        return Some((Item::Error(text), rest));
    }
    if let Some((text, rest)) = info(input) {
        return Some((Item::Info(text), rest));
    }
    None
}

/// Reads the whole output of `p4 where`: every line up to the terminal line
/// becomes an entry, in the order of the lines, and the terminal line becomes
/// the terminal entry. Hands back what follows the terminal line. Fails when
/// a line is met that is neither an entry nor the terminal line, or when the
/// input ends before the terminal line.
pub fn where_<'a>(input: &'a [u8]) -> (res: Option<(Vec<FileItem>, FileItem, &'a [u8])>)
    ensures
        match res {
            Some((items, exit, rest)) => spec_where(input@) == Some((views(items@), exit@, rest@)),
            None => spec_where(input@) is None,
        },
{
    let mut items: Vec<FileItem> = Vec::new();
    let mut rest = input;
    assert(views(items@) + Seq::<FileItemView>::empty() =~= Seq::<FileItemView>::empty());
    loop
        invariant
            spec_where(input@) == prepend(views(items@), spec_where(rest@)),
        ensures
            spec_item(rest@) is None,
        decreases rest@.len(),
    {
        match item(rest) {
            Some((entry, tail)) => {
                proof {
                    let ghost before = views(items@);
                    assert(views(items@.push(entry)) =~= before + seq![entry@]);
                    match spec_where(tail@) {
                        Some((more, last, end)) => {
                            assert((before + seq![entry@]) + more =~= before + (seq![entry@]
                                + more));
                        },
                        None => {},
                    }
                }
                items.push(entry);
                rest = tail;
            },
            None => {
                break ;
            },
        }
    }
    match exit(rest) {
        Some((success, tail)) => {
            assert(views(items@) + Seq::<FileItemView>::empty() =~= views(items@));
            Some((items, Item::Exit { success }, tail))
        },
        None => None,
    }
}

} // verus!
