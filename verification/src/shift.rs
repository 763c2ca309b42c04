//! The plan of one edit: which reads and writes replace a region of a file
//! by data of another length, with no more than a buffer of bounded size in
//! memory.
//!
//! A [`Shift`] hands out the steps one by one. Whoever holds the file
//! performs each step and asks for the next. The bytes behind the region
//! move first, in chunks: towards the start of the file from the front
//! when the region shrinks, towards the end from the back when it grows, so
//! that no chunk is overwritten before it has been read. Then the data is
//! written, the writes are flushed, and a file that became shorter is cut.

use crate::error::{Error, ErrorKind};
use crate::file::{spliced, Block};
use crate::store::{moved, read_at, resized, set_len, write_at, written};
use vstd::prelude::*;

verus! {

/// What an edit fails with where its block reaches past the end of the file.
pub open spec fn out_of_bounds() -> (ErrorKind, Seq<char>) {
    (ErrorKind::OutOfBounds, "The selected block is out of bounds file size!"@)
}

/// One read or write on the file that is edited.
#[derive(Clone, Copy, Debug, PartialEq, Eq, Structural)]
pub enum Step {
    /// Read `count` bytes at `read_at`, then write them at `write_at`.
    Move { read_at: u64, write_at: u64, count: u64 },
    /// Write the data of the block at `at`.
    Write { at: u64 },
    /// Flush what has been written.
    Flush,
    /// Set the length of the file to `len`.
    SetLen { len: u64 },
}

impl Step {
    /// The content of the file after the step, where `data` is the data of
    /// the block.
    pub open spec fn apply(self, file: Seq<u8>, data: Seq<u8>) -> Seq<u8> {
        match self {
            Step::Move { read_at, write_at, count } => moved(
                file,
                read_at as int,
                write_at as int,
                count as int,
            ),
            Step::Write { at } => written(file, at as int, data),
            Step::Flush => file,
            Step::SetLen { len } => resized(file, len as int),
        }
    }

    /// What the step reads lies within `file`.
    pub open spec fn readable(self, file: Seq<u8>) -> bool {
        match self {
            Step::Move { read_at, write_at, count } => read_at + count <= file.len(),
            _ => true,
        }
    }

    /// Performs the step on a file that is held in memory, where `data` is
    /// the data of the block. A move holds no more than its `count` bytes
    /// beside the file.
    pub fn perform(self, file: &mut Vec<u8>, data: &Vec<u8>)
        requires
            self.readable(old(file)@),
            self.apply(old(file)@, data@).len() <= usize::MAX,
        ensures
            final(file)@ == self.apply(old(file)@, data@),
    {
        match self {
            Step::Move { read_at: from, write_at: to, count } => {
                if count > 0 {
                    let chunk = read_at(file, from as usize, count as usize);
                    write_at(file, to as usize, &chunk);
                }
            },
            Step::Write { at } => {
                if data.len() > 0 {
                    write_at(file, at as usize, data);
                }
            },
            Step::Flush => {},
            Step::SetLen { len } => {
                set_len(file, len as usize);
            },
        }
    }
}

/// How far an edit has come.
#[derive(Clone, Copy, Debug, PartialEq, Eq, Structural)]
pub enum Phase {
    /// Bytes behind the region are still to be moved, or the data is still
    /// to be written.
    Shifting,
    /// The data has been written and is still to be flushed.
    Flushing,
    /// The file is still to be cut to its new length.
    Resizing,
    /// Nothing is left to do.
    Done,
}

/// The state of one edit: the region, the lengths, and what is left to do.
#[derive(Clone, Copy, Debug, PartialEq, Eq, Structural)]
pub struct Shift {
    /// Offset of the region that is replaced.
    pub begin: u64,
    /// Length of the region that is replaced.
    pub len: u64,
    /// Length of the data that replaces it.
    pub data_len: u64,
    /// Length of the file before the edit.
    pub file_len: u64,
    /// The most bytes that one step moves.
    pub buffer_size: u64,
    /// How many of the bytes behind the region are still to be moved.
    pub left: u64,
    /// How far the edit has come.
    pub phase: Phase,
}

impl Shift {
    /// The region becomes shorter.
    pub open spec fn shrinks(self) -> bool {
        self.len > self.data_len
    }

    /// How many bytes stand behind the region.
    pub open spec fn tail(self) -> int {
        self.file_len - self.begin - self.len
    }

    /// How far the bytes behind the region move: to the right where
    /// positive, to the left where negative.
    pub open spec fn delta(self) -> int {
        self.data_len - self.len
    }

    /// The length of the file after the edit.
    pub open spec fn new_len(self) -> int {
        self.file_len + self.delta()
    }

    /// The state is one that an edit can be in.
    pub open spec fn wf(self) -> bool {
        &&& self.begin + self.len <= self.file_len
        &&& self.new_len() <= u64::MAX
        &&& self.buffer_size > 0
        &&& self.left <= self.tail()
        &&& self.delta() == 0 ==> self.left == 0
        &&& self.phase != Phase::Shifting ==> self.left == 0
        &&& self.phase == Phase::Resizing ==> self.shrinks()
    }

    /// The state in which an edit begins.
    pub open spec fn start(
        file_len: u64,
        begin: u64,
        len: u64,
        data_len: u64,
        buffer_size: u64,
    ) -> Shift {
        Shift {
            begin,
            len,
            data_len,
            file_len,
            buffer_size,
            left: if len == data_len {
                0
            } else {
                (file_len - begin - len) as u64
            },
            phase: Phase::Shifting,
        }
    }

    /// How many bytes the next move takes: a buffer full, or what is left.
    pub open spec fn chunk(self) -> int {
        if self.buffer_size < self.left {
            self.buffer_size as int
        } else {
            self.left as int
        }
    }

    /// Where the next move reads. A region that shrinks takes the first
    /// chunk of what is left, one that grows the last.
    pub open spec fn read_at(self) -> int {
        if self.shrinks() {
            self.file_len - self.left
        } else {
            self.begin + self.len + self.left - self.chunk()
        }
    }

    /// The next step, or `None` when the edit is done.
    pub open spec fn step(self) -> Option<Step> {
        match self.phase {
            Phase::Shifting => if self.left > 0 {
                Some(
                    Step::Move {
                        read_at: self.read_at() as u64,
                        write_at: (self.read_at() + self.delta()) as u64,
                        count: self.chunk() as u64,
                    },
                )
            } else {
                Some(Step::Write { at: self.begin })
            },
            Phase::Flushing => Some(Step::Flush),
            Phase::Resizing => Some(Step::SetLen { len: self.new_len() as u64 }),
            Phase::Done => None,
        }
    }

    /// The state after the next step.
    pub open spec fn advance(self) -> Shift {
        match self.phase {
            Phase::Shifting => if self.left > 0 {
                Shift { left: (self.left - self.chunk()) as u64, ..self }
            } else {
                Shift { phase: Phase::Flushing, ..self }
            },
            Phase::Flushing => Shift {
                phase: if self.shrinks() {
                    Phase::Resizing
                } else {
                    Phase::Done
                },
                ..self
            },
            _ => Shift { phase: Phase::Done, ..self },
        }
    }

    /// How many steps are left, at most.
    pub open spec fn steps_left(self) -> nat {
        match self.phase {
            Phase::Shifting => self.left as nat + 3,
            Phase::Flushing => 2,
            Phase::Resizing => 1,
            Phase::Done => 0,
        }
    }

    /// The content of the file when all the steps that are left have been
    /// performed on `file`, where `data` is the data of the block.
    pub open spec fn run(self, file: Seq<u8>, data: Seq<u8>) -> Seq<u8>
        decreases self.steps_left(),
    {
        if self.wf() && self.step() is Some {
            self.advance().run(self.step()->0.apply(file, data), data)
        } else {
            file
        }
    }

    /// Where the byte that stood at `p` behind the region stands now: moved
    /// by `delta`, or still in its place.
    pub open spec fn home(self, p: int) -> int {
        let is_moved = if self.shrinks() {
            p < self.file_len - self.left
        } else {
            p >= self.begin + self.len + self.left
        };
        if is_moved {
            p + self.delta()
        } else {
            p
        }
    }

    /// `file` is what the steps taken so far have made of `origin`, where
    /// `data` is the data of the block.
    pub open spec fn reached(self, origin: Seq<u8>, data: Seq<u8>, file: Seq<u8>) -> bool {
        let target = spliced(origin, self.begin as int, self.len as int, data);
        &&& origin.len() == self.file_len
        &&& data.len() == self.data_len
        &&& match self.phase {
            Phase::Shifting => {
                &&& file.len() == if self.shrinks() || self.left == self.tail() {
                    self.file_len as int
                } else {
                    self.new_len()
                }
                &&& forall|j: int| 0 <= j < self.begin ==> file[j] == origin[j]
                &&& forall|p: int|
                    self.begin + self.len <= p < self.file_len ==> file[self.home(p)]
                        == #[trigger] origin[p]
            },
            Phase::Flushing | Phase::Resizing => {
                &&& file.len() == if self.shrinks() {
                    self.file_len as int
                } else {
                    self.new_len()
                }
                &&& file.subrange(0, self.new_len()) == target
            },
            Phase::Done => file == target,
        }
    }

    /// An edit begins on the content that it is to change.
    pub proof fn lemma_start_reached(origin: Seq<u8>, block: Block, buffer_size: u64)
        requires
            block.fits(origin.len()),
            origin.len() <= u64::MAX,
            block.new_len(origin.len()) <= u64::MAX,
            buffer_size > 0,
        ensures
            ({
                let shift = Shift::start(
                    origin.len() as u64,
                    block.begin,
                    block.len,
                    block.data@.len() as u64,
                    buffer_size,
                );
                shift.wf() && shift.reached(origin, block.data@, origin)
            }),
    {
    }

    /// Each step reads within the file, keeps the file within the longer of
    /// its two lengths, and leads to a state that the edit can be in.
    pub proof fn lemma_step_reached(self, origin: Seq<u8>, data: Seq<u8>, file: Seq<u8>)
        requires
            self.wf(),
            self.reached(origin, data, file),
            self.step() is Some,
        ensures
            self.step()->0.readable(file),
            self.advance().wf(),
            self.advance().steps_left() < self.steps_left(),
            self.advance().reached(origin, data, self.step()->0.apply(file, data)),
            file.len() <= self.file_len || file.len() <= self.new_len(),
            self.step()->0.apply(file, data).len() <= self.file_len || self.step()->0.apply(
                file,
                data,
            ).len() <= self.new_len(),
    {
        let after = self.step()->0.apply(file, data);
        let target = spliced(origin, self.begin as int, self.len as int, data);
        match self.phase {
            Phase::Shifting => {
                // A move writes where nothing stands that is still to be read: before
                // what is left when the region shrinks, behind it when the region grows.
                if self.left == 0 {
                    assert(after.subrange(0, self.new_len()) =~= target) by {
                        assert forall|j: int| 0 <= j < self.new_len() implies after[j]
                            == target[j] by {
                            if j >= self.begin + self.data_len {
                                let p = j - self.delta();
                                assert(file[self.home(p)] == origin[p]);
                            }
                        }
                    }
                }
            },
            Phase::Flushing => {
                if !self.shrinks() {
                    assert(file.subrange(0, self.new_len()) =~= file);
                }
            },
            Phase::Resizing => {
                assert(after =~= file.subrange(0, self.new_len()));
            },
            Phase::Done => {},
        }
    }

    /// When no step is left, the file holds the edit.
    pub proof fn lemma_done_reached(self, origin: Seq<u8>, data: Seq<u8>, file: Seq<u8>)
        requires
            self.wf(),
            self.reached(origin, data, file),
            self.step() is None,
        ensures
            file == spliced(origin, self.begin as int, self.len as int, data),
    {
    }

    /// Performing all the steps that are left completes the edit.
    pub proof fn lemma_run_reached(self, origin: Seq<u8>, data: Seq<u8>, file: Seq<u8>)
        requires
            self.wf(),
            self.reached(origin, data, file),
        ensures
            self.run(file, data) == spliced(origin, self.begin as int, self.len as int, data),
        decreases self.steps_left(),
    {
        if self.step() is Some {
            self.lemma_step_reached(origin, data, file);
            self.advance().lemma_run_reached(origin, data, self.step()->0.apply(file, data));
        }
    }

    /// The steps of an edit, performed one after the other on a file, replace
    /// the region of the block by its data, whatever the size of the buffer.
    pub proof fn lemma_run_splices(origin: Seq<u8>, block: Block, buffer_size: u64)
        requires
            block.fits(origin.len()),
            origin.len() <= u64::MAX,
            block.new_len(origin.len()) <= u64::MAX,
            buffer_size > 0,
        ensures
            Shift::start(
                origin.len() as u64,
                block.begin,
                block.len,
                block.data@.len() as u64,
                buffer_size,
            ).run(origin, block.data@) == block.applied(origin),
    {
        let shift = Shift::start(
            origin.len() as u64,
            block.begin,
            block.len,
            block.data@.len() as u64,
            buffer_size,
        );
        Self::lemma_start_reached(origin, block, buffer_size);
        shift.lemma_run_reached(origin, block.data@, origin);
    }

    /// Two buffers of different sizes lead to the same file.
    pub proof fn lemma_buffer_size_is_free(
        origin: Seq<u8>,
        block: Block,
        buffer_size: u64,
        other_size: u64,
    )
        requires
            block.fits(origin.len()),
            origin.len() <= u64::MAX,
            block.new_len(origin.len()) <= u64::MAX,
            buffer_size > 0,
            other_size > 0,
        ensures
            Shift::start(
                origin.len() as u64,
                block.begin,
                block.len,
                block.data@.len() as u64,
                buffer_size,
            ).run(origin, block.data@) == Shift::start(
                origin.len() as u64,
                block.begin,
                block.len,
                block.data@.len() as u64,
                other_size,
            ).run(origin, block.data@),
    {
        Self::lemma_run_splices(origin, block, buffer_size);
        Self::lemma_run_splices(origin, block, other_size);
    }

    /// Begins the edit that `block` asks for on a file of `file_len` bytes,
    /// with moves of at most `buffer_size` bytes. A block that reaches past
    /// the end of the file is refused.
    pub fn new(file_len: u64, block: &Block, buffer_size: u64) -> (plan: Result<Shift, Error>)
        requires
            buffer_size > 0,
            block.fits(file_len as nat) ==> block.new_len(file_len as nat) <= u64::MAX,
        ensures
            block.fits(file_len as nat) ==> plan == Ok::<Shift, Error>(
                Shift::start(
                    file_len,
                    block.begin,
                    block.len,
                    block.data@.len() as u64,
                    buffer_size,
                ),
            ),
            !block.fits(file_len as nat) ==> plan is Err && plan->Err_0.says(out_of_bounds()),
            plan is Ok ==> plan->Ok_0.wf(),
    {
        if block.begin > file_len || block.len > file_len - block.begin {
            return Err(
                Error::new(
                    ErrorKind::OutOfBounds,
                    "The selected block is out of bounds file size!",
                ),
            );
        }
        let data_len: u64 = block.data.len() as u64;
        let left: u64 = if block.len == data_len {
            0
        } else {
            file_len - block.begin - block.len
        };
        Ok(
            Shift {
                begin: block.begin,
                len: block.len,
                data_len,
                file_len,
                buffer_size,
                left,
                phase: Phase::Shifting,
            },
        )
    }

    /// Hands out the next step, or `None` when the edit is done.
    pub fn next(&mut self) -> (step: Option<Step>)
        requires
            old(self).wf(),
        ensures
            step == old(self).step(),
            *final(self) == old(self).advance(),
            final(self).wf(),
            step matches Some(Step::Move { count, .. }) ==> 0 < count <= old(self).buffer_size,
    {
        match self.phase {
            Phase::Shifting => {
                if self.left > 0 {
                    let count: u64 = if self.buffer_size < self.left {
                        self.buffer_size
                    } else {
                        self.left
                    };
                    let read_at: u64 = if self.len > self.data_len {
                        self.file_len - self.left
                    } else {
                        self.begin + self.len + self.left - count
                    };
                    let write_at: u64 = read_at - self.len + self.data_len;
                    self.left = self.left - count;
                    Some(Step::Move { read_at, write_at, count })
                } else {
                    self.phase = Phase::Flushing;
                    Some(Step::Write { at: self.begin })
                }
            },
            Phase::Flushing => {
                self.phase = if self.len > self.data_len {
                    Phase::Resizing
                } else {
                    Phase::Done
                };
                Some(Step::Flush)
            },
            Phase::Resizing => {
                self.phase = Phase::Done;
                Some(Step::SetLen { len: self.file_len - self.len + self.data_len })
            },
            Phase::Done => None,
        }
    }
}

} // verus!
