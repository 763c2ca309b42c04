//! Operations on single files.

use crate::batch::{
    applied_all, descending, descending_order, in_order, is_descending, stays_within,
};
use crate::error::{naming, same, Error, ErrorKind};
use crate::path::{PathInfo, PathKind};
use crate::shift::{out_of_bounds, Shift};
use vstd::prelude::*;

verus! {

/// How a file is copied or moved.
#[derive(Clone, Copy, Debug, PartialEq, Eq, Structural)]
pub struct CopyOptions {
    /// A file that exists at the target is replaced.
    pub overwrite: bool,
    /// A file that exists at the target is kept, and nothing is done.
    pub skip_exist: bool,
    /// How many bytes are copied between two reports of progress.
    pub buffer_size: usize,
}

impl CopyOptions {
    /// Options that replace nothing, skip nothing and copy 64000 bytes at a
    /// time.
    pub fn new() -> (options: CopyOptions)
        ensures
            options == (CopyOptions { overwrite: false, skip_exist: false, buffer_size: 64000 }),
    {
        CopyOptions { overwrite: false, skip_exist: false, buffer_size: 64000 }
    }
}

/// How far the copy of a file has come.
#[derive(Clone, Copy, Debug, PartialEq, Eq, Structural)]
pub struct TransitProcess {
    /// How many bytes have been copied.
    pub copied_bytes: u64,
    /// How many bytes there are to copy.
    pub total_bytes: u64,
}

impl TransitProcess {
    /// Takes note of what one read from the source brought. Where it brought
    /// `count` bytes, they count as copied, and the new state is what is
    /// reported. Where it brought none, the source has ended and so has the
    /// copy.
    pub fn advance(&mut self, count: usize) -> (report: Option<TransitProcess>)
        requires
            old(self).copied_bytes + count <= u64::MAX,
        ensures
            final(self).total_bytes == old(self).total_bytes,
            final(self).copied_bytes == old(self).copied_bytes + count,
            report == if count == 0 {
                None
            } else {
                Some(*final(self))
            },
    {
        if count == 0 {
            return None;
        }
        self.copied_bytes = self.copied_bytes + count as u64;
        Some(*self)
    }
}

/// What is done with one file.
#[derive(Clone, Copy, Debug, PartialEq, Eq, Structural)]
pub enum Transfer {
    /// Nothing: a file stands at the target, and it is kept.
    Skip,
    /// The source is copied to the target.
    Copy,
    /// The source is copied to the target and then removed.
    Move,
}

/// What is done with one file, and where the reports of progress start.
#[derive(Clone, Copy, Debug, PartialEq, Eq, Structural)]
pub struct Job {
    /// What is done with the file.
    pub transfer: Transfer,
    /// Where the reports of progress start.
    pub progress: TransitProcess,
}

/// What a copy of the file at `from` to `to` comes to.
///
/// The source has to be a regular file. A target that exists stops the copy,
/// unless the options say to replace it or to skip it. It stops it with an
/// error only where the error can name the target.
pub open spec fn copy_plan(from: PathInfo, to: PathInfo, options: CopyOptions) -> Result<
    Transfer,
    (ErrorKind, Seq<char>),
> {
    if from.kind == PathKind::Missing {
        Err(
            (
                ErrorKind::NotFound,
                naming(
                    from.text,
                    "Path \""@,
                    "\" does not exist or you don't have access!"@,
                    "Path does not exist or you don't have access!"@,
                ),
            ),
        )
    } else if from.kind != PathKind::File {
        Err(
            (
                ErrorKind::InvalidFile,
                naming(from.text, "Path \""@, "\" is not a file!"@, "Path is not a file!"@),
            ),
        )
    } else if options.overwrite || to.kind == PathKind::Missing {
        Ok(Transfer::Copy)
    } else if options.skip_exist {
        Ok(Transfer::Skip)
    } else if to.text is Some {
        Err((ErrorKind::AlreadyExists, "Path \""@ + to.text->0@ + "\" is exist"@))
    } else {
        Ok(Transfer::Copy)
    }
}

/// What a move of the file at `from` to `to` comes to: what a copy comes to,
/// and the source is removed where it was copied.
pub open spec fn move_plan(from: PathInfo, to: PathInfo, options: CopyOptions) -> Result<
    Transfer,
    (ErrorKind, Seq<char>),
> {
    match copy_plan(from, to, options) {
        Ok(Transfer::Copy) => Ok(Transfer::Move),
        other => other,
    }
}

/// Where the reports on the copy of the file at `from` start.
pub open spec fn first_report(from: PathInfo) -> TransitProcess {
    TransitProcess { copied_bytes: 0, total_bytes: from.size }
}

/// What is done with the file at `from` where its progress is reported:
/// what `plan` says, with reports that start at nothing of its size.
pub open spec fn reporting(
    plan: Result<Transfer, (ErrorKind, Seq<char>)>,
    from: PathInfo,
) -> Result<Job, (ErrorKind, Seq<char>)> {
    match plan {
        Ok(transfer) => Ok(Job { transfer, progress: first_report(from) }),
        Err(trouble) => Err(trouble),
    }
}

/// A file that stands at the target is replaced only where the options say
/// so, as long as the target can be named in an error.
pub proof fn lemma_target_is_spared(from: PathInfo, to: PathInfo, options: CopyOptions)
    requires
        to.kind != PathKind::Missing,
        to.text is Some,
        !options.overwrite,
    ensures
        copy_plan(from, to, options) != Ok::<Transfer, (ErrorKind, Seq<char>)>(Transfer::Copy),
        move_plan(from, to, options) != Ok::<Transfer, (ErrorKind, Seq<char>)>(Transfer::Move),
{
}

/// A move fails where the copy fails and skips where the copy skips, and it
/// never leaves the source in place where the file was copied.
pub proof fn lemma_move_follows_copy(from: PathInfo, to: PathInfo, options: CopyOptions)
    ensures
        move_plan(from, to, options) is Err <==> copy_plan(from, to, options) is Err,
        move_plan(from, to, options) == Ok::<Transfer, (ErrorKind, Seq<char>)>(Transfer::Skip)
            <==> copy_plan(from, to, options) == Ok::<Transfer, (ErrorKind, Seq<char>)>(
            Transfer::Skip,
        ),
        move_plan(from, to, options) != Ok::<Transfer, (ErrorKind, Seq<char>)>(Transfer::Copy),
        move_plan(from, to, options) == Ok::<Transfer, (ErrorKind, Seq<char>)>(Transfer::Move)
            ==> !(options.skip_exist && to.kind != PathKind::Missing && !options.overwrite),
{
}

/// Why the file at `path` can be neither read nor written, if it cannot:
/// something stands there that is no file.
pub open spec fn file_trouble(path: PathInfo) -> Option<(ErrorKind, Seq<char>)> {
    if path.kind == PathKind::Dir || path.kind == PathKind::Other {
        Some(
            (
                ErrorKind::InvalidFile,
                naming(path.text, "Path \""@, "\" is not a file!"@, "Path is not a file!"@),
            ),
        )
    } else {
        None
    }
}

/// Makes sure that what stands at `path`, if anything, is a file, before
/// the file is read or written.
pub fn expect_file(path: &PathInfo) -> (done: Result<(), Error>)
    ensures
        done is Ok <==> file_trouble(*path) is None,
        done is Err ==> done->Err_0.says(file_trouble(*path)->0),
{
    if path.is_present() && !path.is_file() {
        return Err(
            Error::about_path(
                ErrorKind::InvalidFile,
                &path.text,
                "Path \"",
                "\" is not a file!",
                "Path is not a file!",
            ),
        );
    }
    Ok(())
}

/// Decides what a copy of the file at `from` to `to` comes to.
pub fn copy(from: &PathInfo, to: &PathInfo, options: &CopyOptions) -> (plan: Result<
    Transfer,
    Error,
>)
    ensures
        same(plan, copy_plan(*from, *to, *options)),
{
    if !from.is_present() {
        return Err(
            Error::about_path(
                ErrorKind::NotFound,
                &from.text,
                "Path \"",
                "\" does not exist or you don't have access!",
                "Path does not exist or you don't have access!",
            ),
        );
    }
    if !from.is_file() {
        return Err(
            Error::about_path(
                ErrorKind::InvalidFile,
                &from.text,
                "Path \"",
                "\" is not a file!",
                "Path is not a file!",
            ),
        );
    }
    if !options.overwrite && to.is_present() {
        if options.skip_exist {
            return Ok(Transfer::Skip);
        }
        if let Some(text) = &to.text {
            return Err(
                Error::about(ErrorKind::AlreadyExists, "Path \"", text.as_str(), "\" is exist"),
            );
        }
    }
    Ok(Transfer::Copy)
}

/// Decides what a copy of the file at `from` to `to` comes to, and where the
/// reports of its progress start.
pub fn copy_with_progress(from: &PathInfo, to: &PathInfo, options: &CopyOptions) -> (plan: Result<
    Job,
    Error,
>)
    ensures
        same(plan, reporting(copy_plan(*from, *to, *options), *from)),
{
    match copy(from, to, options) {
        Ok(transfer) => Ok(
            Job { transfer, progress: TransitProcess { copied_bytes: 0, total_bytes: from.size } },
        ),
        Err(error) => Err(error),
    }
}

/// Decides what a move of the file at `from` to `to` comes to.
pub fn move_file(from: &PathInfo, to: &PathInfo, options: &CopyOptions) -> (plan: Result<
    Transfer,
    Error,
>)
    ensures
        same(plan, move_plan(*from, *to, *options)),
{
    match copy(from, to, options) {
        Ok(Transfer::Copy) => Ok(Transfer::Move),
        other => other,
    }
}

/// Decides what a move of the file at `from` to `to` comes to, and where the
/// reports of its progress start.
pub fn move_file_with_progress(from: &PathInfo, to: &PathInfo, options: &CopyOptions) -> (plan:
    Result<Job, Error>)
    ensures
        same(plan, reporting(move_plan(*from, *to, *options), *from)),
{
    match move_file(from, to, options) {
        Ok(transfer) => Ok(
            Job { transfer, progress: TransitProcess { copied_bytes: 0, total_bytes: from.size } },
        ),
        Err(error) => Err(error),
    }
}

/// The content of a file after the `len` bytes at offset `begin` have been
/// replaced by `data`: what stood before the region, then `data`, then what
/// stood behind the region.
pub open spec fn spliced(file: Seq<u8>, begin: int, len: int, data: Seq<u8>) -> Seq<u8> {
    file.subrange(0, begin) + data + file.subrange(begin + len, file.len() as int)
}

/// One edit of a file: the `len` bytes at offset `begin` are to be replaced
/// by `data`, which may be shorter or longer than what it replaces.
#[derive(Clone, Debug)]
pub struct Block {
    /// The offset of the region that is replaced.
    pub begin: u64,
    /// The length of the region that is replaced.
    pub len: u64,
    /// The bytes that are put in its place.
    pub data: Vec<u8>,
}

impl Block {
    /// The region to replace lies within a file of `file_len` bytes.
    pub open spec fn fits(&self, file_len: nat) -> bool {
        self.begin + self.len <= file_len
    }

    /// The length of a file of `file_len` bytes after the edit.
    pub open spec fn new_len(&self, file_len: nat) -> int {
        file_len - self.len + self.data@.len()
    }

    /// The content of `file` after the edit.
    pub open spec fn applied(&self, file: Seq<u8>) -> Seq<u8> {
        spliced(file, self.begin as int, self.len as int, self.data@)
    }

    /// An edit changes the length of the file by the difference between
    /// what comes in and what goes out.
    pub proof fn lemma_applied_len(&self, file: Seq<u8>)
        requires
            self.fits(file.len()),
        ensures
            self.applied(file).len() == file.len() - self.len + self.data@.len(),
            self.applied(file).len() == self.new_len(file.len()),
    {
    }

    /// An edit leaves alone what stands before its region, puts its data in
    /// the place of the region, and keeps what stood behind the region
    /// behind the data.
    pub proof fn lemma_applied_bytes(&self, file: Seq<u8>)
        requires
            self.fits(file.len()),
        ensures
            self.applied(file).subrange(0, self.begin as int) == file.subrange(
                0,
                self.begin as int,
            ),
            self.applied(file).subrange(self.begin as int, self.begin + self.data@.len())
                == self.data@,
            self.applied(file).subrange(
                self.begin + self.data@.len(),
                self.new_len(file.len()),
            ) == file.subrange(self.begin + self.len, file.len() as int),
    {
    }

    /// An edit that puts back the bytes that it takes out changes nothing.
    pub proof fn lemma_same_data_changes_nothing(&self, file: Seq<u8>)
        requires
            self.fits(file.len()),
        ensures
            self.data@ == file.subrange(self.begin as int, self.begin + self.len)
                ==> self.applied(file) == file,
    {
    }
}

/// A file whose regions can be replaced in place.
pub trait ExtraFile {
    /// The bytes of the file.
    spec fn content(&self) -> Seq<u8>;

    /// Replaces the `block.len` bytes at `block.begin` by `block.data`, moving
    /// what stands behind them at most `buffer_size` bytes at a time.
    ///
    /// A block that reaches past the end of the file is refused, and the file
    /// stays as it was.
    fn change_block(&mut self, block: &Block, buffer_size: u64) -> (done: Result<(), Error>)
        requires
            buffer_size > 0,
            block.fits(old(self).content().len()) ==> block.new_len(old(self).content().len())
                <= usize::MAX,
        ensures
            done is Ok <==> block.fits(old(self).content().len()),
            done is Ok ==> final(self).content() == block.applied(old(self).content()),
            done is Ok ==> final(self).content().len() == old(self).content().len() - block.len
                + block.data@.len(),
            done is Ok && block.data@ == old(self).content().subrange(
                block.begin as int,
                block.begin + block.len,
            ) ==> final(self).content() == old(self).content(),
            done is Err ==> final(self).content() == old(self).content(),
            done is Err ==> done->Err_0.says(out_of_bounds()),
    ;

    /// Applies all the blocks, from the highest offset down, so that each
    /// finds its region where the caller saw it.
    ///
    /// The first block that reaches past the end of the file, as the file
    /// then is, ends the batch: the blocks before it stay applied, the others
    /// are dropped.
    fn change_blocks(&mut self, blocks: Vec<Block>, buffer_size: u64) -> (done: Result<(), Error>)
        requires
            buffer_size > 0,
            stays_within(
                old(self).content().len(),
                in_order(blocks@, descending(blocks@)),
                usize::MAX as nat,
            ),
        ensures
            final(self).content() == applied_all(
                old(self).content(),
                in_order(blocks@, descending(blocks@)),
            ).0,
            done is Ok <==> applied_all(
                old(self).content(),
                in_order(blocks@, descending(blocks@)),
            ).1,
            done is Err ==> done->Err_0.says(out_of_bounds()),
    {
        let order = descending_order(&blocks);
        let ghost batch = in_order(blocks@, order@);
        assert(batch.skip(0) =~= batch);
        let mut k: usize = 0;
        while k < order.len()
            invariant
                buffer_size > 0,
                k <= order.len() == blocks.len(),
                is_descending(blocks@, order@),
                order@ == descending(blocks@),
                batch == in_order(blocks@, order@),
                stays_within(self.content().len(), batch.skip(k as int), usize::MAX as nat),
                applied_all(self.content(), batch.skip(k as int)) == applied_all(
                    old(self).content(),
                    batch,
                ),
            decreases order.len() - k,
        {
            assert(batch.skip(k as int).drop_first() =~= batch.skip(k + 1));
            match self.change_block(&blocks[order[k]], buffer_size) {
                Ok(()) => {},
                Err(error) => {
                    return Err(error);
                },
            }
            k += 1;
        }
        Ok(())
    }
}

impl ExtraFile for Vec<u8> {
    open spec fn content(&self) -> Seq<u8> {
        self@
    }

    fn change_block(&mut self, block: &Block, buffer_size: u64) -> (done: Result<(), Error>) {
        let file_len: u64 = self.len() as u64;
        let mut shift = match Shift::new(file_len, block, buffer_size) {
            Ok(shift) => shift,
            Err(error) => {
                return Err(error);
            },
        };
        proof {
            Shift::lemma_start_reached(old(self)@, *block, buffer_size);
        }
        loop
            invariant_except_break
                shift.wf(),
                shift.reached(old(self)@, block.data@, self@),
                shift.begin == block.begin,
                shift.len == block.len,
                shift.file_len == old(self)@.len() <= usize::MAX,
                shift.new_len() == block.new_len(old(self)@.len()) <= usize::MAX,
            ensures
                self@ == block.applied(old(self)@),
            decreases shift.steps_left(),
        {
            proof {
                if shift.step() is Some {
                    shift.lemma_step_reached(old(self)@, block.data@, self@);
                }
            }
            match shift.next() {
                Some(step) => {
                    step.perform(self, &block.data);
                },
                None => {
                    break ;
                },
            }
        }
        Ok(())
    }
}

} // verus!
