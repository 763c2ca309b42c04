//! The order in which the blocks of a batch are applied to a file, and what
//! the batch makes of the file.
//!
//! A block names its region by offsets into the file as the caller saw it.
//! An edit moves everything behind its region and nothing before it. So the
//! blocks are applied from the highest offset down: each then finds its
//! region where the caller saw it, whatever the edits before it did.

use crate::file::Block;
use vstd::prelude::*;

verus! {

/// Block `i` is applied before block `j`: the one that begins further back
/// goes first, and of two that begin at the same offset, the one that was
/// given first.
pub open spec fn precedes(blocks: Seq<Block>, i: int, j: int) -> bool {
    blocks[i].begin > blocks[j].begin || (blocks[i].begin == blocks[j].begin && i < j)
}

/// `order` lists the positions of all the blocks, each before those that it
/// precedes.
pub open spec fn is_descending(blocks: Seq<Block>, order: Seq<usize>) -> bool {
    &&& order.len() == blocks.len()
    &&& forall|k: int| 0 <= k < order.len() ==> 0 <= #[trigger] order[k] < blocks.len()
    &&& forall|k: int, l: int|
        0 <= k < l < order.len() ==> precedes(blocks, order[k] as int, order[l] as int)
    &&& forall|i: int| 0 <= i < blocks.len() ==> #[trigger] order.contains(i as usize)
}

/// The order in which a batch of blocks is applied: from the highest offset
/// down.
pub open spec fn descending(blocks: Seq<Block>) -> Seq<usize> {
    choose|order: Seq<usize>| is_descending(blocks, order)
}

/// The blocks in the order that `order` gives.
pub open spec fn in_order(blocks: Seq<Block>, order: Seq<usize>) -> Seq<Block> {
    Seq::new(order.len(), |k: int| blocks[order[k] as int])
}

/// The content of `file` after the blocks have been applied one after the
/// other, up to the first that does not fit the file as it then is, and
/// whether all of them were applied.
pub open spec fn applied_all(file: Seq<u8>, blocks: Seq<Block>) -> (Seq<u8>, bool)
    decreases blocks.len(),
{
    if blocks.len() == 0 {
        (file, true)
    } else if !blocks[0].fits(file.len()) {
        (file, false)
    } else {
        applied_all(blocks[0].applied(file), blocks.drop_first())
    }
}

/// While the blocks are applied one after the other to a file of `file_len`
/// bytes, the file never grows beyond `limit` bytes.
pub open spec fn stays_within(file_len: nat, blocks: Seq<Block>, limit: nat) -> bool
    decreases blocks.len(),
{
    blocks.len() == 0 || !blocks[0].fits(file_len) || (blocks[0].new_len(file_len) <= limit
        && stays_within(blocks[0].new_len(file_len) as nat, blocks.drop_first(), limit))
}

/// The blocks stand in the order in which they are applied, and none
/// reaches into the region of one that is applied before it.
pub open spec fn apart(blocks: Seq<Block>) -> bool {
    forall|i: int, j: int|
        0 <= i < j < blocks.len() ==> blocks[j].begin + blocks[j].len <= blocks[i].begin
}

/// The file with all the regions replaced at once, where the blocks stand
/// apart: what stands before the highest region, with the regions in it
/// replaced; then the data of the highest block; then what stood behind its
/// region.
pub open spec fn replaced_all(file: Seq<u8>, blocks: Seq<Block>) -> Seq<u8>
    decreases blocks.len(),
{
    if blocks.len() == 0 {
        file
    } else {
        replaced_all(file.subrange(0, blocks[0].begin as int), blocks.drop_first())
            + blocks[0].data@ + file.subrange(
            blocks[0].begin + blocks[0].len,
            file.len() as int,
        )
    }
}

/// No two of the blocks begin at the same offset.
pub open spec fn begin_apart(blocks: Seq<Block>) -> bool {
    forall|i: int, j: int|
        0 <= i < blocks.len() && 0 <= j < blocks.len() && i != j ==> blocks[i].begin
            != blocks[j].begin
}

/// No two of the blocks overlap: of any two, one ends where the other
/// begins, or before.
pub open spec fn disjoint(blocks: Seq<Block>) -> bool {
    forall|i: int, j: int|
        0 <= i < blocks.len() && 0 <= j < blocks.len() && i != j ==> blocks[i].begin
            + blocks[i].len <= blocks[j].begin || blocks[j].begin + blocks[j].len
            <= blocks[i].begin
}

/// Every one of the blocks is among the others.
pub open spec fn among(blocks: Seq<Block>, others: Seq<Block>) -> bool {
    forall|i: int| 0 <= i < blocks.len() ==> others.contains(#[trigger] blocks[i])
}

/// Each block begins before the blocks in front of it.
spec fn falling(blocks: Seq<Block>) -> bool {
    forall|k: int, l: int| 0 <= k < l < blocks.len() ==> blocks[k].begin > blocks[l].begin
}

/// Two orders of the same blocks agree on their first `upto` places.
proof fn lemma_orders_agree(blocks: Seq<Block>, a: Seq<usize>, b: Seq<usize>, upto: int)
    requires
        is_descending(blocks, a),
        is_descending(blocks, b),
        0 <= upto <= blocks.len(),
    ensures
        forall|k: int| 0 <= k < upto ==> a[k] == b[k],
    decreases upto,
{
    if upto > 0 {
        lemma_orders_agree(blocks, a, b, upto - 1);
        let k = upto - 1;
        let x = a[k];
        let y = b[k];
        if x != y {
            assert(b.contains(x as int as usize));
            let m = choose|m: int| 0 <= m < b.len() && b[m] == x;
            assert(a.contains(y as int as usize));
            let n = choose|n: int| 0 <= n < a.len() && a[n] == y;
            if m < k {
                assert(precedes(blocks, a[m] as int, a[k] as int));
            }
            if n < k {
                assert(precedes(blocks, b[n] as int, b[k] as int));
            }
            assert(precedes(blocks, b[k] as int, b[m] as int));
            assert(precedes(blocks, a[k] as int, a[n] as int));
        }
    }
}

/// The order in which a batch is applied is the only one that lists every
/// block before those that it precedes.
pub proof fn lemma_descending_is_unique(blocks: Seq<Block>, order: Seq<usize>)
    requires
        is_descending(blocks, order),
    ensures
        order == descending(blocks),
{
    lemma_orders_agree(blocks, order, descending(blocks), blocks.len() as int);
}

/// An order of the first `i` blocks takes in block `i` at the place `at`,
/// where the blocks before `at` begin at its offset or behind it and the
/// others before it.
proof fn lemma_insert_keeps_order(blocks: Seq<Block>, before: Seq<usize>, at: int, i: int)
    requires
        0 <= i < blocks.len(),
        i <= usize::MAX,
        is_descending(blocks.take(i), before),
        0 <= at <= before.len(),
        forall|k: int| at <= k < before.len() ==> blocks[before[k] as int].begin < blocks[i].begin,
        at > 0 ==> blocks[before[at - 1] as int].begin >= blocks[i].begin,
    ensures
        is_descending(blocks.take(i + 1), before.insert(at, i as usize)),
{
    let order = before.insert(at, i as usize);
    let old_blocks = blocks.take(i);
    let new_blocks = blocks.take(i + 1);
    assert forall|k: int, l: int| 0 <= k < l < order.len() implies precedes(
        new_blocks,
        order[k] as int,
        order[l] as int,
    ) by {
        if l < at {
            assert(precedes(old_blocks, before[k] as int, before[l] as int));
        } else if l == at {
            if at > 0 {
                assert(k == at - 1 || precedes(
                    old_blocks,
                    before[k] as int,
                    before[at - 1] as int,
                ));
            }
        } else if k < at {
            assert(precedes(old_blocks, before[k] as int, before[l - 1] as int));
        } else if k > at {
            assert(precedes(old_blocks, before[k - 1] as int, before[l - 1] as int));
        }
    }
    assert forall|j: int| 0 <= j < new_blocks.len() implies #[trigger] order.contains(
        j as usize,
    ) by {
        if j < i {
            assert(before.contains(j as usize));
            let k = choose|k: int| 0 <= k < before.len() && before[k] == j as usize;
            if k < at {
                assert(order[k] == j as usize);
            } else {
                assert(order[k + 1] == j as usize);
            }
        } else {
            assert(order[at] == j as usize);
        }
    }
}

/// Where block `i` goes in an order of the blocks before it: behind those
/// that begin at its offset or behind it.
spec fn place(blocks: Seq<Block>, order: Seq<usize>, i: int) -> int
    decreases order.len(),
{
    if order.len() > 0 && blocks[order.last() as int].begin < blocks[i].begin {
        place(blocks, order.drop_last(), i)
    } else {
        order.len() as int
    }
}

/// The blocks behind the place of block `i` begin before it, the block
/// before the place does not.
proof fn lemma_place(blocks: Seq<Block>, order: Seq<usize>, i: int)
    ensures
        0 <= place(blocks, order, i) <= order.len(),
        forall|k: int|
            place(blocks, order, i) <= k < order.len() ==> blocks[order[k] as int].begin
                < blocks[i].begin,
        place(blocks, order, i) > 0 ==> blocks[order[place(blocks, order, i) - 1] as int].begin
            >= blocks[i].begin,
    decreases order.len(),
{
    if order.len() > 0 && blocks[order.last() as int].begin < blocks[i].begin {
        let front = order.drop_last();
        lemma_place(blocks, front, i);
        let at = place(blocks, order, i);
        assert forall|k: int| at <= k < order.len() implies blocks[order[k] as int].begin
            < blocks[i].begin by {
            if k < front.len() {
                assert(front[k] == order[k]);
            }
        }
    }
}

/// The order of the first `n` blocks, built by taking them in one by one.
spec fn built(blocks: Seq<Block>, n: nat) -> Seq<usize>
    decreases n,
{
    if n == 0 {
        Seq::empty()
    } else {
        let before = built(blocks, (n - 1) as nat);
        before.insert(place(blocks, before, n - 1), (n - 1) as usize)
    }
}

/// What is built of the first `n` blocks is their order.
proof fn lemma_built(blocks: Seq<Block>, n: nat)
    requires
        n <= blocks.len() <= usize::MAX,
    ensures
        is_descending(blocks.take(n as int), built(blocks, n)),
    decreases n,
{
    if n > 0 {
        let before = built(blocks, (n - 1) as nat);
        lemma_built(blocks, (n - 1) as nat);
        lemma_place(blocks, before, n - 1);
        lemma_insert_keeps_order(blocks, before, place(blocks, before, n - 1), n - 1);
    }
}

/// Every batch has its order.
pub proof fn lemma_descending_exists(blocks: Seq<Block>)
    requires
        blocks.len() <= usize::MAX,
    ensures
        is_descending(blocks, descending(blocks)),
{
    lemma_built(blocks, blocks.len());
    assert(blocks.take(blocks.len() as int) =~= blocks);
}

/// Blocks that were given from the highest offset down are applied as they
/// were given.
pub proof fn lemma_descending_of_sorted(blocks: Seq<Block>)
    requires
        blocks.len() <= usize::MAX,
        forall|i: int, j: int| 0 <= i < j < blocks.len() ==> blocks[i].begin >= blocks[j].begin,
    ensures
        descending(blocks) == Seq::new(blocks.len(), |k: int| k as usize),
        in_order(blocks, descending(blocks)) == blocks,
{
    let order = Seq::new(blocks.len(), |k: int| k as usize);
    assert forall|i: int| 0 <= i < blocks.len() implies #[trigger] order.contains(i as usize) by {
        assert(order[i] == i as usize);
    }
    lemma_descending_is_unique(blocks, order);
}

/// Blocks that begin at different offsets are put in order by their
/// offsets alone.
proof fn lemma_begin_apart_fall(blocks: Seq<Block>)
    requires
        blocks.len() <= usize::MAX,
        begin_apart(blocks),
    ensures
        falling(in_order(blocks, descending(blocks))),
        among(blocks, in_order(blocks, descending(blocks))),
        among(in_order(blocks, descending(blocks)), blocks),
{
    lemma_descending_exists(blocks);
    let order = descending(blocks);
    let batch = in_order(blocks, order);
    assert forall|k: int, l: int| 0 <= k < l < batch.len() implies batch[k].begin
        > batch[l].begin by {
        assert(precedes(blocks, order[k] as int, order[l] as int));
    }
    assert forall|i: int| 0 <= i < blocks.len() implies batch.contains(#[trigger] blocks[i]) by {
        assert(order.contains(i as usize));
        let k = choose|k: int| 0 <= k < order.len() && order[k] == i as usize;
        assert(batch[k] == blocks[i]);
    }
}

/// Two batches of the same blocks, each from the highest offset down, agree
/// on their first `upto` blocks.
proof fn lemma_falling_agree(a: Seq<Block>, b: Seq<Block>, upto: int)
    requires
        a.len() == b.len(),
        falling(a),
        falling(b),
        among(a, b),
        among(b, a),
        0 <= upto <= a.len(),
    ensures
        forall|k: int| 0 <= k < upto ==> a[k] == b[k],
    decreases upto,
{
    if upto > 0 {
        lemma_falling_agree(a, b, upto - 1);
    }
}

/// The order in which the blocks are given makes no difference, where no
/// two of them begin at the same offset: the same blocks, given in another
/// order, are applied in the same order.
pub proof fn lemma_given_order_is_free(blocks: Seq<Block>, others: Seq<Block>)
    requires
        blocks.len() == others.len() <= usize::MAX,
        begin_apart(blocks),
        begin_apart(others),
        among(blocks, others),
        among(others, blocks),
    ensures
        in_order(blocks, descending(blocks)) == in_order(others, descending(others)),
{
    let a = in_order(blocks, descending(blocks));
    let b = in_order(others, descending(others));
    lemma_descending_exists(blocks);
    lemma_descending_exists(others);
    lemma_begin_apart_fall(blocks);
    lemma_begin_apart_fall(others);
    lemma_falling_agree(a, b, a.len() as int);
}

/// Blocks that begin at different offsets and do not overlap stand apart
/// when they are put in order.
pub proof fn lemma_disjoint_stand_apart(blocks: Seq<Block>)
    requires
        blocks.len() <= usize::MAX,
        begin_apart(blocks),
        disjoint(blocks),
    ensures
        apart(in_order(blocks, descending(blocks))),
{
    lemma_descending_exists(blocks);
    let order = descending(blocks);
    let batch = in_order(blocks, order);
    assert forall|k: int, l: int| 0 <= k < l < batch.len() implies batch[l].begin + batch[l].len
        <= batch[k].begin by {
        assert(precedes(blocks, order[k] as int, order[l] as int));
    }
}

/// A batch of one block makes of the file what the block makes of it.
pub proof fn lemma_applied_all_one(file: Seq<u8>, block: Block)
    ensures
        applied_all(file, seq![block]) == if block.fits(file.len()) {
            (block.applied(file), true)
        } else {
            (file, false)
        },
{
    let batch = seq![block];
    if block.fits(file.len()) {
        assert(applied_all(block.applied(file), batch.drop_first()) == (block.applied(file), true));
    }
}

/// A batch that is applied in two parts makes of the file what it makes of
/// it in one go: the second part goes on where the first has ended, unless
/// the first has failed.
pub proof fn lemma_applied_all_in_parts(file: Seq<u8>, first: Seq<Block>, second: Seq<Block>)
    ensures
        applied_all(file, first + second) == if applied_all(file, first).1 {
            applied_all(applied_all(file, first).0, second)
        } else {
            applied_all(file, first)
        },
    decreases first.len(),
{
    if first.len() > 0 {
        assert((first + second).drop_first() =~= first.drop_first() + second);
        if first[0].fits(file.len()) {
            lemma_applied_all_in_parts(first[0].applied(file), first.drop_first(), second);
        }
    }
}

/// When the turn of a block comes in a batch whose blocks stand apart, the
/// blocks before it have all been applied, and the file is still as the
/// caller saw it up to the end of the region of the block: the block fits,
/// and it replaces the bytes that the caller meant.
pub proof fn lemma_region_is_in_place(file: Seq<u8>, blocks: Seq<Block>, turn: int)
    requires
        apart(blocks),
        0 <= turn < blocks.len(),
        blocks[0].fits(file.len()),
    ensures
        applied_all(file, blocks.take(turn)).1,
        blocks[turn].fits(applied_all(file, blocks.take(turn)).0.len()),
        applied_all(file, blocks.take(turn)).0.subrange(
            0,
            blocks[turn].begin + blocks[turn].len,
        ) == file.subrange(0, blocks[turn].begin + blocks[turn].len),
    decreases turn,
{
    if turn > 0 {
        lemma_region_is_in_place(file, blocks, turn - 1);
        let before = applied_all(file, blocks.take(turn - 1)).0;
        let last = blocks[turn - 1];
        assert(blocks.take(turn) =~= blocks.take(turn - 1) + seq![last]);
        lemma_applied_all_in_parts(file, blocks.take(turn - 1), seq![last]);
        lemma_applied_all_one(before, last);
    }
}

/// What stands behind all the regions takes no part when the regions are
/// replaced.
proof fn lemma_replaced_all_keeps_the_end(front: Seq<u8>, end: Seq<u8>, blocks: Seq<Block>)
    requires
        blocks.len() > 0 ==> blocks[0].fits(front.len()),
    ensures
        replaced_all(front + end, blocks) == replaced_all(front, blocks) + end,
{
    if blocks.len() > 0 {
        let begin = blocks[0].begin as int;
        assert((front + end).subrange(0, begin) =~= front.subrange(0, begin));
    }
}

/// A batch whose blocks stand apart and lie within the file replaces all
/// the regions as the caller saw them: the outcome is as if they had been
/// replaced at once.
pub proof fn lemma_apart_replace_at_once(file: Seq<u8>, blocks: Seq<Block>)
    requires
        apart(blocks),
        blocks.len() > 0 ==> blocks[0].fits(file.len()),
    ensures
        applied_all(file, blocks) == (replaced_all(file, blocks), true),
    decreases blocks.len(),
{
    if blocks.len() > 0 {
        let rest = blocks.drop_first();
        let front = file.subrange(0, blocks[0].begin as int);
        let end = blocks[0].data@ + file.subrange(
            blocks[0].begin + blocks[0].len,
            file.len() as int,
        );
        let next = blocks[0].applied(file);
        assert(next =~= front + end);
        lemma_apart_replace_at_once(next, rest);
        lemma_replaced_all_keeps_the_end(front, end, rest);
    }
}

/// A file stays within `limit` bytes while a batch is applied to it, where
/// it would do so even if every block only added its data, and no block
/// has more than `most` bytes of data.
pub proof fn lemma_stays_within_bound(file_len: nat, blocks: Seq<Block>, most: nat, limit: nat)
    requires
        forall|k: int| 0 <= k < blocks.len() ==> (#[trigger] blocks[k]).data@.len() <= most,
        file_len + blocks.len() * most <= limit,
    ensures
        stays_within(file_len, blocks, limit),
    decreases blocks.len(),
{
    if blocks.len() > 0 && blocks[0].fits(file_len) {
        let rest = blocks.drop_first();
        let next = blocks[0].new_len(file_len) as nat;
        assert(blocks.len() * most == rest.len() * most + most) by (nonlinear_arith)
            requires
                blocks.len() == rest.len() + 1,
        ;
        lemma_stays_within_bound(next, rest, most, limit);
    }
}

/// A file stays within `limit` bytes while a batch is applied to it in its
/// order, where it would do so even if every block only added its data, and
/// no block has more than `most` bytes of data.
pub proof fn lemma_batch_stays_within(file_len: nat, blocks: Seq<Block>, most: nat, limit: nat)
    requires
        blocks.len() <= usize::MAX,
        forall|k: int| 0 <= k < blocks.len() ==> (#[trigger] blocks[k]).data@.len() <= most,
        file_len + blocks.len() * most <= limit,
    ensures
        stays_within(file_len, in_order(blocks, descending(blocks)), limit),
{
    lemma_descending_exists(blocks);
    lemma_stays_within_bound(file_len, in_order(blocks, descending(blocks)), most, limit);
}

/// The order in which the blocks of a batch are applied.
pub fn descending_order(blocks: &Vec<Block>) -> (order: Vec<usize>)
    ensures
        is_descending(blocks@, order@),
        order@ == descending(blocks@),
{
    let mut order: Vec<usize> = Vec::new();
    let mut i: usize = 0;
    while i < blocks.len()
        invariant
            i <= blocks.len(),
            is_descending(blocks@.take(i as int), order@),
        decreases blocks.len() - i,
    {
        let begin: u64 = blocks[i].begin;
        let mut at: usize = order.len();
        while at > 0 && blocks[order[at - 1]].begin < begin
            invariant
                at <= order.len() == i < blocks.len(),
                begin == blocks[i as int].begin,
                is_descending(blocks@.take(i as int), order@),
                forall|k: int| at <= k < order.len() ==> blocks[order[k] as int].begin < begin,
            decreases at,
        {
            at -= 1;
        }
        proof {
            lemma_insert_keeps_order(blocks@, order@, at as int, i as int);
        }
        order.insert(at, i);
        i += 1;
    }
    proof {
        assert(blocks@.take(i as int) =~= blocks@);
        lemma_descending_is_unique(blocks@, order@);
    }
    order
}

} // verus!
