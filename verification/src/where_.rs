//! `p4 where`: how file names are mapped by the client view.

use crate::err::{ErrorKind, Item, ItemView, P4Error, P4ErrorView};
use crate::p4::{P4View, P4};
use crate::text::{join, joined, texts};
use crate::where_parser::{lemma_where_shape, spec_where, where_};
use vstd::prelude::*;

verus! {

/// One mapping reported by `p4 where`: the name of a file in the depot, its
/// name on the client in Perforce syntax, and its name on the client in local
/// syntax.
#[derive(Debug, Clone, PartialEq, Eq)]
#[non_exhaustive]
pub struct File {
    pub depot_file: String,
    pub client_file: String,
    pub path: String,
}

/// Mathematical model of a [`File`].
pub ghost struct FileView {
    pub depot_file: Seq<char>,
    pub client_file: Seq<char>,
    pub path: Seq<char>,
}

impl FileView {
    /// None of the three names is empty.
    pub open spec fn populated(self) -> bool {
        self.depot_file.len() > 0 && self.client_file.len() > 0 && self.path.len() > 0
    }
}

impl View for File {
    type V = FileView;

    open spec fn view(&self) -> FileView {
        FileView { depot_file: self.depot_file@, client_file: self.client_file@, path: self.path@ }
    }
}

impl File {
    /// A mapping made of the three names.
    pub fn new(depot_file: String, client_file: String, path: String) -> (file: File)
        ensures
            file@ == (FileView { depot_file: depot_file@, client_file: client_file@, path: path@ }),
    {
        File { depot_file, client_file, path }
    }
}

/// An entry of the result of `p4 where`.
pub type FileItem = Item<File>;

/// Mathematical model of a [`FileItem`].
pub type FileItemView = ItemView<FileView>;

/// The models of a sequence of entries, in order.
pub open spec fn views(items: Seq<FileItem>) -> Seq<FileItemView> {
    items.map_values(|item: FileItem| item@)
}

/// What holds of every result of `p4 where`: it ends in the terminal entry
/// and holds no other, and every mapping in it has its three names.
pub open spec fn is_result_sequence(items: Seq<FileItemView>) -> bool {
    &&& items.len() > 0
    &&& items.last() is Exit
    &&& forall|i: int| 0 <= i < items.len() - 1 ==> !(#[trigger] items[i] is Exit)
    &&& forall|i: int|
        0 <= i < items.len() ==> (#[trigger] items[i] matches ItemView::Data(file)
            ==> file.populated())
}

/// The result of `p4 where`: its entries in the order in which the tool
/// printed them, closed by the terminal entry.
#[derive(Debug)]
pub struct Files(Vec<FileItem>);

impl View for Files {
    type V = Seq<FileItemView>;

    closed spec fn view(&self) -> Seq<FileItemView> {
        views(self.0@)
    }
}

impl Files {
    #[verifier::type_invariant]
    spec fn well_formed(self) -> bool {
        is_result_sequence(views(self.0@))
    }

    /// The result made of `items`, in their order, and `exit` behind them.
    pub(crate) fn new(items: Vec<FileItem>, exit: FileItem) -> (files: Files)
        requires
            is_result_sequence(views(items@).push(exit@)),
        ensures
            files@ == views(items@).push(exit@),
    {
        let mut all = items;
        all.push(exit);
        assert(views(all@) =~= views(items@).push(exit@));
        Files(all)
    }

    /// The number of entries, the terminal entry included.
    pub fn len(&self) -> (n: usize)
        ensures
            n == self@.len(),
            n > 0,
            is_result_sequence(self@),
    {
        proof {
            use_type_invariant(self);
        }
        self.0.len()
    }

    /// The entry at `index`, counted from 0. `None` behind the last entry.
    pub fn get(&self, index: usize) -> (entry: Option<&FileItem>)
        ensures
            match entry {
                Some(item) => index < self@.len() && item@ == self@[index as int],
                None => index >= self@.len(),
            },
    {
        if index < self.0.len() {
            Some(&self.0[index])
        } else {
            None
        }
    }

    /// Hands the entries out one by one, first to last.
    pub fn into_iter(self) -> (iter: FilesIntoIter)
        ensures
            iter@ == self@,
            is_result_sequence(self@),
    {
        proof {
            use_type_invariant(&self);
        }
        let mut items = self.0;
        let ghost all = items@;
        let mut pending: Vec<FileItem> = Vec::new();
        while items.len() > 0
            invariant
                items@ == all.take(items@.len() as int),
                pending@.len() + items@.len() == all.len(),
                forall|j: int|
                    0 <= j < pending@.len() ==> pending@[j] == all[all.len() - 1 - j],
            decreases items@.len(),
        {
            match items.pop() {
                Some(item) => {
                    pending.push(item);
                },
                None => {},
            }
        }
        let iter = FilesIntoIter { pending };
        assert(iter@ =~= views(all));
        iter
    }
}

/// The entries of a result that have not been handed out yet.
#[derive(Debug)]
pub struct FilesIntoIter {
    // Last entry first, so that the next one is taken from the end.
    pending: Vec<FileItem>,
}

impl View for FilesIntoIter {
    type V = Seq<FileItemView>;

    closed spec fn view(&self) -> Seq<FileItemView> {
        Seq::new(self.pending@.len(), |i: int| self.pending@[self.pending@.len() - 1 - i]@)
    }
}

impl FilesIntoIter {
    /// Hands out the next entry. `None` when all have been handed out.
    pub fn next(&mut self) -> (entry: Option<FileItem>)
        ensures
            match entry {
                Some(item) => old(self)@.len() > 0 && item@ == old(self)@[0] && final(self)@
                    == old(self)@.drop_first(),
                None => old(self)@.len() == 0 && final(self)@ == old(self)@,
            },
    {
        let entry = self.pending.pop();
        proof {
            if entry is Some {
                assert(final(self)@ =~= old(self)@.drop_first());
            }
        }
        entry
    }

    /// The number of entries still to come, as a lower and an upper bound.
    pub fn size_hint(&self) -> (bounds: (usize, Option<usize>))
        ensures
            bounds.0 == self@.len(),
            bounds.1 == Some(bounds.0),
    {
        (self.pending.len(), Some(self.pending.len()))
    }

    /// The number of entries still to come.
    pub fn count(self) -> (n: usize)
        ensures
            n == self@.len(),
    {
        self.pending.len()
    }
}

/// The `where` command on a connection, restricted to the paths given.
#[derive(Debug, Clone)]
pub struct WhereCommand<'p, 'f> {
    connection: &'p P4,
    file: Vec<&'f str>,
}

/// Mathematical model of a [`WhereCommand`].
pub ghost struct WhereCommandView {
    pub connection: P4View,
    pub file: Seq<Seq<char>>,
}

impl WhereCommandView {
    /// The words of the command line: the client program, the name of the
    /// command, and the paths in the order in which they were given.
    pub open spec fn command_line(self) -> Seq<Seq<char>> {
        seq![self.connection.program, "where"@] + self.file
    }
}

impl<'p, 'f> View for WhereCommand<'p, 'f> {
    type V = WhereCommandView;

    closed spec fn view(&self) -> WhereCommandView {
        WhereCommandView {
            connection: self.connection@,
            file: self.file@.map_values(|path: &str| path@),
        }
    }
}

impl<'p, 'f> WhereCommand<'p, 'f> {
    /// The command on `connection`, for all files in the current directory
    /// and below.
    pub fn new(connection: &'p P4) -> (command: Self)
        ensures
            command@.connection == connection@,
            command@.file == Seq::<Seq<char>>::empty(),
    {
        let command = Self { connection, file: Vec::new() };
        assert(command@.file =~= Seq::<Seq<char>>::empty());
        command
    }

    /// Restrict the operation to the specified path.
    pub fn file(self, file: &'f str) -> (command: Self)
        ensures
            command@.connection == self@.connection,
            command@.file == self@.file.push(file@),
    {
        let mut command = self;
        command.file.push(file);
        assert(command@.file =~= self@.file.push(file@));
        command
    }

    /// The connection that the command runs on.
    pub fn connection(&self) -> (connection: &'p P4)
        ensures
            connection@ == self@.connection,
    {
        self.connection
    }

    /// The words of the command line to spawn.
    pub fn command_line(&self) -> (words: Vec<String>)
        ensures
            texts(words@) == self@.command_line(),
    {
        let mut words: Vec<String> = Vec::new();
        words.push(self.connection.program().clone());
        words.push("where".to_owned());
        let mut i: usize = 0;
        while i < self.file.len()
            invariant
                i <= self.file@.len(),
                texts(words@) =~= self@.command_line().take(2 + i),
            decreases self.file@.len() - i,
        {
            let ghost before = words@;
            words.push(self.file[i].to_owned());
            proof {
                let ghost line = self@.command_line();
                assert(self@.file[i as int] == self.file@[i as int]@);
                assert(texts(words@) =~= texts(before).push(self@.file[i as int]));
                assert(line.take(2 + i + 1) =~= line.take(2 + i).push(self@.file[i as int]));
            }
            i += 1;
        }
        assert(self@.command_line().take(2 + i) =~= self@.command_line());
        words
    }

    /// Run the `where` command, given what became of its process: the
    /// captured standard output, or the cause for which there is none.
    pub fn run(self, spawned: Result<Vec<u8>, String>) -> (result: Result<Files, P4Error>)
        ensures
            result_view(result) == outcome(self@.command_line(), spawned_view(spawned)),
            result matches Ok(files) ==> is_result_sequence(files@),
    {
        let words = self.command_line();
        conclude(&words, spawned)
    }
}

/// What a call comes to, given the words of its command line and what became
/// of the process: the captured output, or the cause for which there is none.
///
/// A process that failed gives a spawn failure with that cause. Output that
/// is not a complete `p4 where` output, or is followed by anything else,
/// gives a parse failure. Otherwise the call succeeds with the entries of
/// the output in order, the terminal entry last.
pub open spec fn outcome(command_line: Seq<Seq<char>>, spawned: Result<Seq<u8>, Seq<char>>) -> Result<
    Seq<FileItemView>,
    P4ErrorView,
> {
    match spawned {
        Err(cause) => Err(
            P4ErrorView {
                kind: ErrorKind::SpawnFailed,
                context: joined(command_line),
                cause: Some(cause),
            },
        ),
        Ok(output) => match spec_where(output) {
            Some((items, exit, rest)) if rest.len() == 0 => Ok(items.push(exit)),
            _ => Err(
                P4ErrorView {
                    kind: ErrorKind::ParseFailed,
                    context: joined(command_line),
                    cause: None,
                },
            ),
        },
    }
}

/// The model of what became of a process.
pub open spec fn spawned_view(spawned: Result<Vec<u8>, String>) -> Result<Seq<u8>, Seq<char>> {
    match spawned {
        Ok(output) => Ok(output@),
        Err(cause) => Err(cause@),
    }
}

/// The model of what a call came to.
pub open spec fn result_view(result: Result<Files, P4Error>) -> Result<
    Seq<FileItemView>,
    P4ErrorView,
> {
    match result {
        Ok(files) => Ok(files@),
        Err(error) => Err(error@),
    }
}

/// Decides what a call comes to: see [`outcome`].
pub fn conclude(command_line: &Vec<String>, spawned: Result<Vec<u8>, String>) -> (result: Result<
    Files,
    P4Error,
>)
    ensures
        result_view(result) == outcome(texts(command_line@), spawned_view(spawned)),
        result matches Ok(files) ==> is_result_sequence(files@),
{
    match spawned {
        Err(cause) => Err(
            P4Error {
                kind: ErrorKind::SpawnFailed,
                context: join(command_line),
                cause: Some(cause),
            },
        ),
        Ok(output) => {
            match where_(output.as_slice()) {
                Some((items, exit, rest)) => {
                    if rest.len() == 0 {
                        proof {
                            lemma_where_shape(output@);
                        }
                        Ok(Files::new(items, exit))
                    } else {
                        Err(
                            P4Error {
                                kind: ErrorKind::ParseFailed,
                                context: join(command_line),
                                cause: None,
                            },
                        )
                    }
                },
                None => Err(
                    P4Error {
                        kind: ErrorKind::ParseFailed,
                        context: join(command_line),
                        cause: None,
                    },
                ),
            }
        },
    }
}

} // verus!
