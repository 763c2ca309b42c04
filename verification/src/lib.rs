//! Decisions and plans for work on files and directories: edits of regions
//! of a file in place, and copies and moves of files and directories.
//!
//! The library touches no disk. An edit of a file is planned step by step
//! ([`shift`]) and carried out on a file in memory ([`file::ExtraFile`]). Of
//! a copy or a move the library decides what is done, from what the caller
//! found on the disk ([`path::PathInfo`], [`dir::Node`]).

use crate::error::{same, Error, ErrorKind};
use crate::file::Transfer;
use crate::path::{Name, PathInfo, PathKind};
use vstd::prelude::*;

pub mod batch;
pub mod dir;
pub mod error;
pub mod file;
pub mod path;
pub mod shift;
pub mod store;
pub mod time;

verus! {

/// How far the copy of a list of files and directories has come.
#[derive(Debug)]
pub struct TransitProcess {
    /// How many bytes have been copied.
    pub copied_bytes: u64,
    /// How many bytes there are to copy.
    pub total_bytes: u64,
    /// How many bytes of the file at hand have been copied.
    pub file_bytes_copied: u64,
    /// How many bytes the file at hand holds.
    pub file_total_bytes: u64,
    /// The name of the file at hand.
    pub file_name: String,
    /// The name of the directory at hand.
    pub dir_name: String,
}

impl Clone for TransitProcess {
    fn clone(&self) -> (copy: TransitProcess)
        ensures
            copy == *self,
    {
        TransitProcess {
            copied_bytes: self.copied_bytes,
            total_bytes: self.total_bytes,
            file_bytes_copied: self.file_bytes_copied,
            file_total_bytes: self.file_total_bytes,
            file_name: self.file_name.clone(),
            dir_name: self.dir_name.clone(),
        }
    }
}

impl TransitProcess {
    /// Nothing is at hand and nothing has been copied of `total` bytes.
    pub open spec fn starts(&self, total: u64) -> bool {
        &&& self.copied_bytes == 0
        &&& self.total_bytes == total
        &&& self.file_bytes_copied == 0
        &&& self.file_total_bytes == 0
        &&& self.file_name@ == Seq::<char>::empty()
        &&& self.dir_name@ == Seq::<char>::empty()
    }

    /// The state before anything has been copied of `total_bytes` bytes.
    pub fn new(total_bytes: u64) -> (process: TransitProcess)
        ensures
            process.starts(total_bytes),
    {
        TransitProcess {
            copied_bytes: 0,
            total_bytes,
            file_bytes_copied: 0,
            file_total_bytes: 0,
            file_name: String::new(),
            dir_name: String::new(),
        }
    }

    /// Turns to what `step` deals with: a directory becomes the directory at
    /// hand, a file the file at hand, with nothing copied of it yet.
    pub fn begin(&mut self, step: &ItemStep)
        ensures
            *final(self) == match *step {
                ItemStep::Skip => *old(self),
                ItemStep::Dir { dir_name } => if dir_name is Some {
                    TransitProcess { dir_name: dir_name->0, ..*old(self) }
                } else {
                    *old(self)
                },
                ItemStep::File { name, size, options } => TransitProcess {
                    file_name: name,
                    file_bytes_copied: 0,
                    file_total_bytes: size,
                    ..*old(self)
                },
            },
    {
        match step {
            ItemStep::Skip => {},
            ItemStep::Dir { dir_name } => {
                if let Some(name) = dir_name {
                    self.dir_name = name.clone();
                }
            },
            ItemStep::File { name, size, options } => {
                self.file_name = name.clone();
                self.file_bytes_copied = 0;
                self.file_total_bytes = *size;
            },
        }
    }

    /// Takes note of how far the copy of the directory at hand has come,
    /// where `copied_before` bytes had been copied when it began, and hands
    /// out the new state to report.
    pub fn report_dir(&mut self, copied_before: u64, dir: &dir::TransitProcess) -> (report:
        TransitProcess)
        requires
            copied_before + dir.copied_bytes <= u64::MAX,
        ensures
            *final(self) == (TransitProcess {
                copied_bytes: (copied_before + dir.copied_bytes) as u64,
                ..*old(self)
            }),
            report == *final(self),
    {
        self.copied_bytes = copied_before + dir.copied_bytes;
        self.clone()
    }

    /// Takes note of how far the copy of the file at hand has come, where
    /// `copied_before` bytes had been copied when it began, and hands out the
    /// new state to report.
    pub fn report_file(&mut self, copied_before: u64, file: &file::TransitProcess) -> (report:
        TransitProcess)
        requires
            copied_before + file.copied_bytes <= u64::MAX,
        ensures
            *final(self) == (TransitProcess {
                copied_bytes: (copied_before + file.copied_bytes) as u64,
                file_bytes_copied: file.copied_bytes,
                ..*old(self)
            }),
            report == *final(self),
    {
        self.copied_bytes = copied_before + file.copied_bytes;
        self.file_bytes_copied = file.copied_bytes;
        self.clone()
    }
}

/// What is done with one item of a list.
#[derive(Debug)]
pub enum ItemStep {
    /// Nothing.
    Skip,
    /// The item is a directory and is copied or moved as one. The name is
    /// the one to report, where progress is reported.
    Dir { dir_name: Option<String> },
    /// The item is copied or moved as a file of `size` bytes, to a file of
    /// the name `name` at the target, with `options`.
    File { name: String, size: u64, options: file::CopyOptions },
}

/// What is done with a list of files and directories.
#[derive(Debug)]
pub struct ItemsPlan {
    /// Whether the items are copied or moved.
    pub transfer: Transfer,
    /// Where the reports of progress start, where progress is reported.
    pub progress: Option<TransitProcess>,
    /// What is done with each item, in the order of the list.
    pub steps: Vec<ItemStep>,
    /// What the work ends with when the steps are done, unless it ends well:
    /// the items behind the steps are left alone.
    pub failure: Option<Error>,
}

/// How the files among the items are copied, with a buffer of `buffer_size`
/// bytes.
pub open spec fn file_options(options: dir::CopyOptions, buffer_size: usize) -> file::CopyOptions {
    file::CopyOptions { overwrite: options.overwrite, skip_exist: options.skip_exist, buffer_size }
}

/// What is done with one item where its size is of no interest: whatever is
/// no directory is copied as a file, and left out where its name is not
/// valid Unicode.
pub open spec fn plain_step(item: PathInfo, options: dir::CopyOptions) -> Result<
    ItemStep,
    (ErrorKind, Seq<char>),
> {
    if item.kind == PathKind::Dir {
        Ok(ItemStep::Dir { dir_name: None })
    } else {
        match item.file_name {
            Name::Absent => Err((ErrorKind::InvalidFileName, "Invalid file name"@)),
            Name::NotUnicode => Ok(ItemStep::Skip),
            Name::Text(name) => Ok(
                ItemStep::File { name, size: item.size, options: file_options(options, 64000) },
            ),
        }
    }
}

/// What is done with one item where sizes and names are kept track of: an
/// item whose name cannot be reported ends the work.
pub open spec fn sized_step(item: PathInfo, options: dir::CopyOptions) -> Result<
    ItemStep,
    (ErrorKind, Seq<char>),
> {
    if item.kind == PathKind::Dir {
        match item.dir_name {
            Name::Text(name) => Ok(ItemStep::Dir { dir_name: Some(name) }),
            _ => Err((ErrorKind::InvalidFolder, "Invalid folder from"@)),
        }
    } else {
        match item.file_name {
            Name::Text(name) => Ok(
                ItemStep::File {
                    name,
                    size: item.size,
                    options: file_options(options, options.buffer_size),
                },
            ),
            _ => Err((ErrorKind::InvalidFileName, "Invalid file name"@)),
        }
    }
}

/// What is done with one item.
pub open spec fn item_step(item: PathInfo, options: dir::CopyOptions, sized: bool) -> Result<
    ItemStep,
    (ErrorKind, Seq<char>),
> {
    if sized {
        sized_step(item, options)
    } else {
        plain_step(item, options)
    }
}

/// The sizes of all the items together.
pub open spec fn total_size(items: Seq<PathInfo>) -> nat
    decreases items.len(),
{
    if items.len() == 0 {
        0
    } else {
        total_size(items.drop_last()) + items.last().size as nat
    }
}

/// Nothing stands at one of the items.
pub open spec fn any_missing(items: Seq<PathInfo>) -> bool {
    exists|i: int| 0 <= i < items.len() && (#[trigger] items[i]).kind == PathKind::Missing
}

/// The steps deal with the first items of the list, one each, and where
/// they do not reach the end of the list, the item behind them is the one
/// that the work fails on.
pub open spec fn follows(
    steps: Seq<ItemStep>,
    failure: Option<Error>,
    items: Seq<PathInfo>,
    options: dir::CopyOptions,
    sized: bool,
) -> bool {
    &&& steps.len() <= items.len()
    &&& forall|i: int|
        0 <= i < steps.len() ==> item_step(#[trigger] items[i], options, sized) == Ok::<
            ItemStep,
            (ErrorKind, Seq<char>),
        >(steps[i])
    &&& failure is None <==> steps.len() == items.len()
    &&& failure is Some ==> {
        &&& item_step(items[steps.len() as int], options, sized) is Err
        &&& failure->0.says(item_step(items[steps.len() as int], options, sized)->Err_0)
    }
}

/// Decides what is done with one item.
fn step_for(item: &PathInfo, options: &dir::CopyOptions, sized: bool) -> (step: Result<
    ItemStep,
    Error,
>)
    ensures
        same(step, item_step(*item, *options, sized)),
{
    if item.is_dir() {
        if !sized {
            return Ok(ItemStep::Dir { dir_name: None });
        }
        return match &item.dir_name {
            Name::Text(name) => Ok(ItemStep::Dir { dir_name: Some(name.clone()) }),
            _ => Err(Error::new(ErrorKind::InvalidFolder, "Invalid folder from")),
        };
    }
    let buffer_size: usize = if sized {
        options.buffer_size
    } else {
        64000
    };
    match &item.file_name {
        Name::Text(name) => Ok(
            ItemStep::File {
                name: name.clone(),
                size: item.size,
                options: file::CopyOptions {
                    overwrite: options.overwrite,
                    skip_exist: options.skip_exist,
                    buffer_size,
                },
            },
        ),
        Name::NotUnicode if !sized => Ok(ItemStep::Skip),
        _ => Err(Error::new(ErrorKind::InvalidFileName, "Invalid file name")),
    }
}

/// Decides what is done with each item, up to the first that the work fails
/// on.
fn steps_for(items: &Vec<PathInfo>, options: &dir::CopyOptions, sized: bool) -> (plan: (
    Vec<ItemStep>,
    Option<Error>,
))
    ensures
        follows(plan.0@, plan.1, items@, *options, sized),
{
    let mut steps: Vec<ItemStep> = Vec::new();
    let mut i: usize = 0;
    while i < items.len()
        invariant
            i == steps.len() <= items.len(),
            forall|k: int|
                0 <= k < i ==> item_step(#[trigger] items@[k], *options, sized) == Ok::<
                    ItemStep,
                    (ErrorKind, Seq<char>),
                >(steps@[k]),
        decreases items.len() - i,
    {
        match step_for(&items[i], options, sized) {
            Ok(step) => {
                steps.push(step);
            },
            Err(error) => {
                return (steps, Some(error));
            },
        }
        i += 1;
    }
    (steps, None)
}

/// Adds up the sizes of the items. Fails where nothing stands at one of
/// them.
fn size_up(items: &Vec<PathInfo>) -> (total: Result<u64, Error>)
    requires
        total_size(items@) <= u64::MAX,
    ensures
        same(
            total,
            if any_missing(items@) {
                Err((ErrorKind::NotFound, "Path does not exist"@))
            } else {
                Ok(total_size(items@) as u64)
            },
        ),
{
    let mut total: u64 = 0;
    let mut i: usize = 0;
    while i < items.len()
        invariant
            i <= items.len(),
            total_size(items@) <= u64::MAX,
            total == total_size(items@.take(i as int)),
            !any_missing(items@.take(i as int)),
        decreases items.len() - i,
    {
        proof {
            assert(items@.take(i + 1).drop_last() =~= items@.take(i as int));
            lemma_total_grows(items@, i + 1);
        }
        if !items[i].is_present() {
            return Err(Error::new(ErrorKind::NotFound, "Path does not exist"));
        }
        total = total + items[i].size;
        i += 1;
    }
    proof {
        assert(items@.take(i as int) =~= items@);
    }
    Ok(total)
}

/// The first items are no larger than all of them.
proof fn lemma_total_grows(items: Seq<PathInfo>, upto: int)
    requires
        0 <= upto <= items.len(),
    ensures
        total_size(items.take(upto)) <= total_size(items),
    decreases items.len(),
{
    if upto < items.len() {
        assert(items.drop_last().take(upto) =~= items.take(upto));
        lemma_total_grows(items.drop_last(), upto);
    } else {
        assert(items.take(upto) =~= items);
    }
}

/// `plan` is what a copy or a move of `items` with reports of sizes and
/// names comes to.
pub open spec fn plans_sized(
    plan: ItemsPlan,
    items: Seq<PathInfo>,
    options: dir::CopyOptions,
    transfer: Transfer,
    reports: bool,
) -> bool {
    &&& plan.transfer == transfer
    &&& if any_missing(items) {
        &&& plan.steps@.len() == 0
        &&& plan.progress is None
        &&& plan.failure is Some
        &&& plan.failure->0.says((ErrorKind::NotFound, "Path does not exist"@))
    } else {
        &&& follows(plan.steps@, plan.failure, items, options, true)
        &&& plan.progress is Some <==> reports
        &&& reports ==> plan.progress->0.starts(total_size(items) as u64)
    }
}

/// Plans a copy or a move in which sizes and names are kept track of.
fn plan_sized(
    items: &Vec<PathInfo>,
    options: &dir::CopyOptions,
    transfer: Transfer,
    reports: bool,
) -> (plan: ItemsPlan)
    requires
        total_size(items@) <= u64::MAX,
    ensures
        plans_sized(plan, items@, *options, transfer, reports),
{
    let total: u64 = match size_up(items) {
        Ok(total) => total,
        Err(error) => {
            return ItemsPlan { transfer, progress: None, steps: Vec::new(), failure: Some(error) };
        },
    };
    let (steps, failure) = steps_for(items, options, true);
    let progress = if reports {
        Some(TransitProcess::new(total))
    } else {
        None
    };
    ItemsPlan { transfer, progress, steps, failure }
}

/// Plans the copy of a list of files and directories: each directory is
/// copied as one, everything else as a file of its own name.
///
/// An item that is no directory and has no name ends the work. One whose
/// name is not valid Unicode is left out.
pub fn copy_items(items: &Vec<PathInfo>, options: &dir::CopyOptions) -> (plan: ItemsPlan)
    ensures
        plan.transfer == Transfer::Copy,
        plan.progress is None,
        follows(plan.steps@, plan.failure, items@, *options, false),
{
    let (steps, failure) = steps_for(items, options, false);
    ItemsPlan { transfer: Transfer::Copy, progress: None, steps, failure }
}

/// Plans the copy of a list of files and directories with reports of its
/// progress.
///
/// Nothing is done where one of the items is missing. An item whose name
/// cannot be reported ends the work.
pub fn copy_items_with_progress(items: &Vec<PathInfo>, options: &dir::CopyOptions) -> (plan:
    ItemsPlan)
    requires
        total_size(items@) <= u64::MAX,
    ensures
        plans_sized(plan, items@, *options, Transfer::Copy, true),
{
    plan_sized(items, options, Transfer::Copy, true)
}

/// Plans the move of a list of files and directories.
///
/// Nothing is done where one of the items is missing. An item whose name
/// is not valid Unicode ends the work.
pub fn move_items(items: &Vec<PathInfo>, options: &dir::CopyOptions) -> (plan: ItemsPlan)
    requires
        total_size(items@) <= u64::MAX,
    ensures
        plans_sized(plan, items@, *options, Transfer::Move, false),
{
    plan_sized(items, options, Transfer::Move, false)
}

/// Plans the move of a list of files and directories with reports of its
/// progress.
///
/// Nothing is done where one of the items is missing. An item whose name
/// cannot be reported ends the work.
pub fn move_items_with_progress(items: &Vec<PathInfo>, options: &dir::CopyOptions) -> (plan:
    ItemsPlan)
    requires
        total_size(items@) <= u64::MAX,
    ensures
        plans_sized(plan, items@, *options, Transfer::Move, true),
{
    plan_sized(items, options, Transfer::Move, true)
}

/// How one item of a list is removed.
#[derive(Clone, Copy, Debug, PartialEq, Eq, Structural)]
pub enum Removal {
    /// As a directory, with all that it holds.
    Dir,
    /// As a file.
    File,
}

/// Decides how each item of a list is removed: a directory with all that it
/// holds, everything else as a file.
pub fn remove_items(items: &Vec<PathInfo>) -> (removals: Vec<Removal>)
    ensures
        removals@.len() == items@.len(),
        forall|i: int|
            0 <= i < items@.len() ==> removals@[i] == if (#[trigger] items@[i]).kind
                == PathKind::Dir {
                Removal::Dir
            } else {
                Removal::File
            },
{
    let mut removals: Vec<Removal> = Vec::new();
    let mut i: usize = 0;
    while i < items.len()
        invariant
            i == removals.len() <= items.len(),
            forall|k: int|
                0 <= k < i ==> removals@[k] == if (#[trigger] items@[k]).kind == PathKind::Dir {
                    Removal::Dir
                } else {
                    Removal::File
                },
        decreases items.len() - i,
    {
        if items[i].is_dir() {
            removals.push(Removal::Dir);
        } else {
            removals.push(Removal::File);
        }
        i += 1;
    }
    removals
}

} // verus!
