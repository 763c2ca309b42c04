//! Operations on directories.

use crate::error::{naming, same, Error, ErrorKind};
use crate::file;
use crate::path::{Name, PathInfo, PathKind};
use vstd::prelude::*;

verus! {

/// How a directory is copied or moved.
#[derive(Clone, Copy, Debug, PartialEq, Eq, Structural)]
pub struct CopyOptions {
    /// Files that exist at the target are replaced.
    pub overwrite: bool,
    /// Files that exist at the target are kept.
    pub skip_exist: bool,
    /// How many bytes of a file are copied between two reports of progress.
    pub buffer_size: usize,
}

impl CopyOptions {
    /// Options that replace nothing, skip nothing and copy 64000 bytes at a
    /// time.
    pub fn new() -> (options: CopyOptions)
        ensures
            options == (CopyOptions { overwrite: false, skip_exist: false, buffer_size: 64000 }),
    {
        CopyOptions { overwrite: false, skip_exist: false, buffer_size: 64000 }
    }
}

/// How far the copy of a directory has come.
#[derive(Debug)]
pub struct TransitProcess {
    /// How many bytes of the directory have been copied.
    pub copied_bytes: u64,
    /// How many bytes the directory holds.
    pub total_bytes: u64,
    /// How many bytes of the file at hand have been copied.
    pub file_bytes_copied: u64,
    /// How many bytes the file at hand holds.
    pub file_total_bytes: u64,
    /// The name of the file at hand.
    pub file_name: String,
}

impl Clone for TransitProcess {
    fn clone(&self) -> (copy: TransitProcess)
        ensures
            copy == *self,
    {
        TransitProcess {
            copied_bytes: self.copied_bytes,
            total_bytes: self.total_bytes,
            file_bytes_copied: self.file_bytes_copied,
            file_total_bytes: self.file_total_bytes,
            file_name: self.file_name.clone(),
        }
    }
}

impl TransitProcess {
    /// No file is at hand and nothing has been copied of `total` bytes.
    pub open spec fn starts(&self, total: u64) -> bool {
        &&& self.copied_bytes == 0
        &&& self.total_bytes == total
        &&& self.file_bytes_copied == 0
        &&& self.file_total_bytes == 0
        &&& self.file_name@ == Seq::<char>::empty()
    }

    /// The state before anything has been copied of `total_bytes` bytes.
    pub fn new(total_bytes: u64) -> (process: TransitProcess)
        ensures
            process.starts(total_bytes),
    {
        TransitProcess {
            copied_bytes: 0,
            total_bytes,
            file_bytes_copied: 0,
            file_total_bytes: 0,
            file_name: String::new(),
        }
    }

    /// Why the copy of `file` cannot be reported on, if it cannot: its path
    /// gives no name, or one that is not valid Unicode.
    pub open spec fn file_trouble(file: PathInfo) -> Option<(ErrorKind, Seq<char>)> {
        match file.file_name {
            Name::Absent => Some((ErrorKind::Other, "No file name"@)),
            Name::NotUnicode => Some((ErrorKind::InvalidFileName, "Invalid file name"@)),
            Name::Text(name) => None,
        }
    }

    /// Turns to the next file: it becomes the file at hand, with nothing
    /// copied of it yet. Where the file has no name to report, the state
    /// stays as it is.
    pub fn begin_file(&mut self, file: &PathInfo) -> (done: Result<(), Error>)
        ensures
            done is Ok <==> Self::file_trouble(*file) is None,
            done is Err ==> done->Err_0.says(Self::file_trouble(*file)->0) && *final(self) == *old(
                self,
            ),
            done is Ok ==> *final(self) == (TransitProcess {
                file_bytes_copied: 0,
                file_total_bytes: file.size,
                file_name: file.file_name->Text_0,
                ..*old(self)
            }),
    {
        match &file.file_name {
            Name::Absent => Err(Error::new(ErrorKind::Other, "No file name")),
            Name::NotUnicode => Err(Error::new(ErrorKind::InvalidFileName, "Invalid file name")),
            Name::Text(name) => {
                self.file_name = name.clone();
                self.file_bytes_copied = 0;
                self.file_total_bytes = file.size;
                Ok(())
            },
        }
    }

    /// Takes note of how far the copy of the file at hand has come, where
    /// `copied_before` bytes had been copied when it began, and hands out the
    /// new state to report.
    pub fn report(&mut self, copied_before: u64, file: &file::TransitProcess) -> (report:
        TransitProcess)
        requires
            copied_before + file.copied_bytes <= u64::MAX,
        ensures
            *final(self) == (TransitProcess {
                copied_bytes: (copied_before + file.copied_bytes) as u64,
                file_bytes_copied: file.copied_bytes,
                ..*old(self)
            }),
            report == *final(self),
    {
        self.copied_bytes = copied_before + file.copied_bytes;
        self.file_bytes_copied = file.copied_bytes;
        self.clone()
    }
}

/// What is done with a directory before and after what it holds is copied.
#[derive(Clone, Copy, Debug, PartialEq, Eq, Structural)]
pub struct DirPlan {
    /// The directory at the target is created first.
    pub create_target: bool,
    /// The source is removed at the end.
    pub remove_source: bool,
}

/// What is done with one entry of a directory that is copied.
#[derive(Clone, Copy, Debug, PartialEq, Eq, Structural)]
pub enum EntryStep {
    /// The entry is a directory, and is copied as one.
    Descend,
    /// The entry is copied as a file, with these options.
    CopyFile { options: file::CopyOptions },
}

/// What is done with a directory and all that it holds.
#[derive(Debug)]
pub struct Tour {
    /// The directories to create at the target and the files to copy.
    pub content: DirContent,
    /// Where the reports of progress start.
    pub progress: TransitProcess,
    /// How each file is copied.
    pub file_options: file::CopyOptions,
    /// The source is removed at the end.
    pub remove_source: bool,
}

/// Why the directory at `from` cannot be copied, if it cannot.
pub open spec fn source_trouble(from: PathInfo) -> Option<(ErrorKind, Seq<char>)> {
    if from.kind == PathKind::Missing {
        Some(
            (
                ErrorKind::NotFound,
                naming(from.text, "Path \""@, "\" does not exist"@, "Path does not exist"@),
            ),
        )
    } else if from.kind != PathKind::Dir {
        Some(
            (
                ErrorKind::InvalidFolder,
                naming(
                    from.text,
                    "Path \""@,
                    "\" is not a directory!"@,
                    "Path is not a directory!"@,
                ),
            ),
        )
    } else if from.dir_name is Absent {
        Some((ErrorKind::InvalidFolder, "Invalid folder from"@))
    } else {
        None
    }
}

/// A move into `to` leaves the source in place: the options say to skip what
/// exists, and `to` exists.
pub open spec fn keeps_source(to: PathInfo, options: CopyOptions) -> bool {
    options.skip_exist && to.kind != PathKind::Missing && !options.overwrite
}

/// What a copy or a move of the directory at `from` comes to, where `target`
/// is the path that the directory is to have.
pub open spec fn dir_plan(from: PathInfo, target: PathInfo, remove_source: bool) -> Result<
    DirPlan,
    (ErrorKind, Seq<char>),
> {
    match source_trouble(from) {
        Some(trouble) => Err(trouble),
        None => Ok(DirPlan { create_target: target.kind == PathKind::Missing, remove_source }),
    }
}

/// What is done with an entry of a directory that is copied with `options`.
pub open spec fn entry_step(entry: PathInfo, options: CopyOptions) -> Result<
    EntryStep,
    (ErrorKind, Seq<char>),
> {
    if entry.kind == PathKind::Dir {
        Ok(EntryStep::Descend)
    } else if entry.file_name is Absent {
        Err((ErrorKind::Other, "No file name"@))
    } else {
        Ok(
            EntryStep::CopyFile {
                options: file::CopyOptions {
                    overwrite: options.overwrite,
                    skip_exist: options.skip_exist,
                    buffer_size: 64000,
                },
            },
        )
    }
}

/// Finds what stands against a copy of the directory at `from`.
fn check_source(from: &PathInfo) -> (found: Option<Error>)
    ensures
        found is Some <==> source_trouble(*from) is Some,
        found is Some ==> found->0.says(source_trouble(*from)->0),
{
    if !from.is_present() {
        return Some(
            Error::about_path(
                ErrorKind::NotFound,
                &from.text,
                "Path \"",
                "\" does not exist",
                "Path does not exist",
            ),
        );
    }
    if !from.is_dir() {
        return Some(
            Error::about_path(
                ErrorKind::InvalidFolder,
                &from.text,
                "Path \"",
                "\" is not a directory!",
                "Path is not a directory!",
            ),
        );
    }
    match &from.dir_name {
        Name::Absent => Some(Error::new(ErrorKind::InvalidFolder, "Invalid folder from")),
        _ => None,
    }
}

/// Decides what a copy of the directory at `from` comes to, where `target`
/// is the path that the copy is to have: the place to copy to, with the
/// name of the directory added.
pub fn copy(from: &PathInfo, target: &PathInfo) -> (plan: Result<DirPlan, Error>)
    ensures
        same(plan, dir_plan(*from, *target, false)),
{
    match check_source(from) {
        Some(error) => Err(error),
        None => Ok(DirPlan { create_target: !target.is_present(), remove_source: false }),
    }
}

/// Decides what is done with one entry of a directory that is copied.
pub fn copy_entry(entry: &PathInfo, options: &CopyOptions) -> (step: Result<EntryStep, Error>)
    ensures
        same(step, entry_step(*entry, *options)),
{
    if entry.is_dir() {
        return Ok(EntryStep::Descend);
    }
    match &entry.file_name {
        Name::Absent => Err(Error::new(ErrorKind::Other, "No file name")),
        _ => {
            let mut file_options = file::CopyOptions::new();
            file_options.overwrite = options.overwrite;
            file_options.skip_exist = options.skip_exist;
            Ok(EntryStep::CopyFile { options: file_options })
        },
    }
}

/// Decides what a move of the directory at `from` into `to` comes to, where
/// `target` is the path that the directory is to have.
pub fn move_dir(from: &PathInfo, to: &PathInfo, target: &PathInfo, options: &CopyOptions) -> (plan:
    Result<DirPlan, Error>)
    ensures
        same(plan, dir_plan(*from, *target, !keeps_source(*to, *options))),
{
    let is_remove = !(options.skip_exist && to.is_present() && !options.overwrite);
    match check_source(from) {
        Some(error) => Err(error),
        None => Ok(DirPlan { create_target: !target.is_present(), remove_source: is_remove }),
    }
}

/// `tour` is the copy, file by file, of what was found at `tree`.
pub open spec fn tours(tour: Tour, tree: Node, options: CopyOptions, remove_source: bool) -> bool {
    &&& lists(tour.content, tree)
    &&& tour.progress.starts(size_of(tree) as u64)
    &&& tour.file_options == (file::CopyOptions {
        overwrite: options.overwrite,
        skip_exist: options.skip_exist,
        buffer_size: options.buffer_size,
    })
    &&& tour.remove_source == remove_source
}

/// Why the directory at `from`, with `tree` found in it, cannot be copied
/// file by file, if it cannot.
pub open spec fn tour_trouble(from: PathInfo, tree: Node) -> Option<(ErrorKind, Seq<char>)> {
    if source_trouble(from) is Some {
        source_trouble(from)
    } else {
        trouble_of(tree)
    }
}

/// Plans the copy, file by file, of the directory at `from`, where `tree` is
/// what was found there.
fn plan_tour(from: &PathInfo, tree: &Node, options: &CopyOptions, remove_source: bool) -> (plan:
    Result<Tour, Error>)
    requires
        size_of(*tree) <= u64::MAX,
    ensures
        plan is Ok <==> tour_trouble(*from, *tree) is None,
        plan is Ok ==> tours(plan->Ok_0, *tree, *options, remove_source),
        plan is Err ==> plan->Err_0.says(tour_trouble(*from, *tree)->0),
{
    if let Some(error) = check_source(from) {
        return Err(error);
    }
    let content = match get_dir_content(tree) {
        Ok(content) => content,
        Err(error) => {
            return Err(error);
        },
    };
    let progress = TransitProcess::new(content.dir_size);
    let file_options = file::CopyOptions {
        overwrite: options.overwrite,
        skip_exist: options.skip_exist,
        buffer_size: options.buffer_size,
    };
    Ok(Tour { content, progress, file_options, remove_source })
}

/// Plans the copy of the directory at `from` with reports of its progress,
/// where `tree` is what was found there: which directories are created at
/// the target, which files are copied and how, and where the reports start.
pub fn copy_with_progress(from: &PathInfo, tree: &Node, options: &CopyOptions) -> (plan: Result<
    Tour,
    Error,
>)
    requires
        size_of(*tree) <= u64::MAX,
    ensures
        plan is Ok <==> tour_trouble(*from, *tree) is None,
        plan is Ok ==> tours(plan->Ok_0, *tree, *options, false),
        plan is Err ==> plan->Err_0.says(tour_trouble(*from, *tree)->0),
{
    plan_tour(from, tree, options, false)
}

/// Plans the move of the directory at `from` into `to` with reports of its
/// progress, where `tree` is what was found at `from`.
pub fn move_dir_with_progress(
    from: &PathInfo,
    to: &PathInfo,
    tree: &Node,
    options: &CopyOptions,
) -> (plan: Result<Tour, Error>)
    requires
        size_of(*tree) <= u64::MAX,
    ensures
        plan is Ok <==> tour_trouble(*from, *tree) is None,
        plan is Ok ==> tours(plan->Ok_0, *tree, *options, !keeps_source(*to, *options)),
        plan is Err ==> plan->Err_0.says(tour_trouble(*from, *tree)->0),
{
    let is_remove = !(options.skip_exist && to.is_present() && !options.overwrite);
    plan_tour(from, tree, options, is_remove)
}

/// What was found at a path and below it.
#[derive(Debug)]
pub struct Node {
    /// The path as text, unless it is not valid Unicode.
    pub path: Option<String>,
    /// What stands at the path.
    pub found: Found,
}

/// What stands at a path.
#[derive(Debug)]
pub enum Found {
    /// Nothing, or nothing that can be read.
    Nothing,
    /// A file of `size` bytes.
    File { size: u64 },
    /// A directory, with what it holds in the order in which it was listed.
    Dir { entries: Vec<Node> },
}

/// How many bytes the files at `node` and below it hold.
pub open spec fn size_of(node: Node) -> nat
    decreases node,
{
    match node.found {
        Found::Nothing => 0,
        Found::File { size } => size as nat,
        Found::Dir { entries } => sizes_of(entries@),
    }
}

/// How many bytes the files at `nodes` and below them hold.
pub open spec fn sizes_of(nodes: Seq<Node>) -> nat
    decreases nodes,
{
    if nodes.len() == 0 {
        0
    } else {
        sizes_of(nodes.drop_last()) + size_of(nodes.last())
    }
}

/// Something at `node` or below it could not be found.
pub open spec fn has_gap(node: Node) -> bool
    decreases node,
{
    match node.found {
        Found::Nothing => true,
        Found::File { size } => false,
        Found::Dir { entries } => have_gap(entries@),
    }
}

/// Something at `nodes` or below them could not be found.
pub open spec fn have_gap(nodes: Seq<Node>) -> bool
    decreases nodes,
{
    nodes.len() > 0 && (have_gap(nodes.drop_last()) || has_gap(nodes.last()))
}

/// The size of what was found at a path: of a file its length, of a
/// directory the lengths of all the files below it.
pub fn get_size(node: &Node) -> (size: Result<u64, Error>)
    requires
        size_of(*node) <= u64::MAX,
    ensures
        same(
            size,
            if has_gap(*node) {
                Err((ErrorKind::NotFound, "Path does not exist"@))
            } else {
                Ok(size_of(*node) as u64)
            },
        ),
    decreases node,
{
    match &node.found {
        Found::Nothing => Err(Error::new(ErrorKind::NotFound, "Path does not exist")),
        Found::File { size } => Ok(*size),
        Found::Dir { entries } => {
            let mut total: u64 = 0;
            let mut i: usize = 0;
            while i < entries.len()
                invariant
                    i <= entries.len(),
                    node.found == (Found::Dir { entries: *entries }),
                    sizes_of(entries@) <= u64::MAX,
                    total == sizes_of(entries@.take(i as int)),
                    !have_gap(entries@.take(i as int)),
                decreases entries.len() - i,
            {
                proof {
                    assert(entries@.take(i + 1).drop_last() =~= entries@.take(i as int));
                    lemma_sizes_grow(entries@, i + 1);
                    // The entries are part of the node, so the walk comes to an end.
                    assert(decreases_to!(node.found => node.found->entries));
                }
                match get_size(&entries[i]) {
                    Ok(size) => {
                        total = total + size;
                    },
                    Err(error) => {
                        proof {
                            lemma_gap_stays(entries@, i + 1);
                        }
                        return Err(error);
                    },
                }
                i += 1;
            }
            proof {
                assert(entries@.take(i as int) =~= entries@);
            }
            Ok(total)
        },
    }
}

/// The files and directories at a path and below it.
#[derive(Debug)]
pub struct DirContent {
    /// How many bytes the files hold.
    pub dir_size: u64,
    /// The paths of the files, in the order in which they were found.
    pub files: Vec<String>,
    /// The paths of the directories, each before what it holds.
    pub directories: Vec<String>,
}

/// The paths of the files at `node` and below it.
pub open spec fn files_of(node: Node) -> Seq<String>
    decreases node,
{
    match node.found {
        Found::Nothing => Seq::empty(),
        Found::File { size } => if node.path is Some {
            seq![node.path->0]
        } else {
            Seq::empty()
        },
        Found::Dir { entries } => files_in(entries@),
    }
}

/// The paths of the files at `nodes` and below them.
pub open spec fn files_in(nodes: Seq<Node>) -> Seq<String>
    decreases nodes,
{
    if nodes.len() == 0 {
        Seq::empty()
    } else {
        files_in(nodes.drop_last()) + files_of(nodes.last())
    }
}

/// The paths of the directories at `node` and below it.
pub open spec fn directories_of(node: Node) -> Seq<String>
    decreases node,
{
    match node.found {
        Found::Dir { entries } => if node.path is Some {
            seq![node.path->0] + directories_in(entries@)
        } else {
            directories_in(entries@)
        },
        _ => Seq::empty(),
    }
}

/// The paths of the directories at `nodes` and below them.
pub open spec fn directories_in(nodes: Seq<Node>) -> Seq<String>
    decreases nodes,
{
    if nodes.len() == 0 {
        Seq::empty()
    } else {
        directories_in(nodes.drop_last()) + directories_of(nodes.last())
    }
}

/// Why the content at `node` cannot be listed, if it cannot: the first path
/// on the way down that is not valid Unicode or at which nothing was found.
pub open spec fn trouble_of(node: Node) -> Option<(ErrorKind, Seq<char>)>
    decreases node,
{
    if node.path is None {
        Some((ErrorKind::InvalidPath, "Invalid path"@))
    } else {
        match node.found {
            Found::Nothing => Some((ErrorKind::NotFound, "Path does not exist"@)),
            Found::File { size } => None,
            Found::Dir { entries } => trouble_in(entries@),
        }
    }
}

/// Why the content at `nodes` cannot be listed, if it cannot.
pub open spec fn trouble_in(nodes: Seq<Node>) -> Option<(ErrorKind, Seq<char>)>
    decreases nodes,
{
    if nodes.len() == 0 {
        None
    } else if trouble_in(nodes.drop_last()) is Some {
        trouble_in(nodes.drop_last())
    } else {
        trouble_of(nodes.last())
    }
}

/// `content` lists what was found at `node`.
pub open spec fn lists(content: DirContent, node: Node) -> bool {
    &&& content.dir_size == size_of(node)
    &&& content.files@ == files_of(node)
    &&& content.directories@ == directories_of(node)
}

/// Lists the files and directories at a path and below it, and adds up the
/// sizes of the files.
pub fn get_dir_content(node: &Node) -> (content: Result<DirContent, Error>)
    requires
        size_of(*node) <= u64::MAX,
    ensures
        content is Ok <==> trouble_of(*node) is None,
        content is Ok ==> lists(content->Ok_0, *node),
        content is Err ==> content->Err_0.says(trouble_of(*node)->0),
    decreases node,
{
    let path = match &node.path {
        Some(text) => text.clone(),
        None => {
            return Err(Error::new(ErrorKind::InvalidPath, "Invalid path"));
        },
    };
    let mut files: Vec<String> = Vec::new();
    let mut directories: Vec<String> = Vec::new();
    let mut dir_size: u64 = 0;
    match &node.found {
        Found::Nothing => {
            return Err(Error::new(ErrorKind::NotFound, "Path does not exist"));
        },
        Found::File { size } => {
            dir_size = *size;
            files.push(path);
        },
        Found::Dir { entries } => {
            directories.push(path);
            let mut i: usize = 0;
            while i < entries.len()
                invariant
                    i <= entries.len(),
                    node.found == (Found::Dir { entries: *entries }),
                    node.path is Some,
                    sizes_of(entries@) <= u64::MAX,
                    dir_size == sizes_of(entries@.take(i as int)),
                    files@ == files_in(entries@.take(i as int)),
                    directories@ == seq![node.path->0] + directories_in(entries@.take(i as int)),
                    trouble_in(entries@.take(i as int)) is None,
                decreases entries.len() - i,
            {
                proof {
                    assert(entries@.take(i + 1).drop_last() =~= entries@.take(i as int));
                    lemma_sizes_grow(entries@, i + 1);
                }
                match get_dir_content(&entries[i]) {
                    Ok(mut items) => {
                        dir_size = dir_size + items.dir_size;
                        files.append(&mut items.files);
                        directories.append(&mut items.directories);
                    },
                    Err(error) => {
                        proof {
                            lemma_trouble_stays(entries@, i + 1);
                        }
                        return Err(error);
                    },
                }
                i += 1;
            }
            proof {
                assert(entries@.take(i as int) =~= entries@);
            }
        },
    }
    Ok(DirContent { dir_size, files, directories })
}

/// The trouble among the first entries of a directory is the trouble among
/// all of them.
proof fn lemma_trouble_stays(nodes: Seq<Node>, upto: int)
    requires
        0 <= upto <= nodes.len(),
        trouble_in(nodes.take(upto)) is Some,
    ensures
        trouble_in(nodes) == trouble_in(nodes.take(upto)),
    decreases nodes.len(),
{
    if upto < nodes.len() {
        assert(nodes.drop_last().take(upto) =~= nodes.take(upto));
        lemma_trouble_stays(nodes.drop_last(), upto);
    } else {
        assert(nodes.take(upto) =~= nodes);
    }
}

/// The first entries of a directory hold no more than all of them.
proof fn lemma_sizes_grow(nodes: Seq<Node>, upto: int)
    requires
        0 <= upto <= nodes.len(),
    ensures
        sizes_of(nodes.take(upto)) <= sizes_of(nodes),
    decreases nodes.len(),
{
    if upto < nodes.len() {
        assert(nodes.drop_last().take(upto) =~= nodes.take(upto));
        lemma_sizes_grow(nodes.drop_last(), upto);
    } else {
        assert(nodes.take(upto) =~= nodes);
    }
}

/// What is missing among the first entries of a directory is missing among
/// all of them.
proof fn lemma_gap_stays(nodes: Seq<Node>, upto: int)
    requires
        0 <= upto <= nodes.len(),
        have_gap(nodes.take(upto)),
    ensures
        have_gap(nodes),
    decreases nodes.len(),
{
    if upto < nodes.len() {
        assert(nodes.drop_last().take(upto) =~= nodes.take(upto));
        lemma_gap_stays(nodes.drop_last(), upto);
    } else {
        assert(nodes.take(upto) =~= nodes);
    }
}

} // verus!
