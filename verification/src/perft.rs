//! Counting the leaves of the tree of moves below a position.
use vstd::prelude::*;
use crate::board::{Board, Position};
use crate::moves::{Move, MoveGen};

verus! {

/// The number of leaves of the move tree of depth `depth` below `p`: the
/// position itself at depth 0, its moves at depth 1, and the leaves below
/// the positions that its moves lead to at a greater depth.
pub open spec fn perft(p: Position, depth: nat) -> nat
    decreases depth, 0nat,
{
    if depth == 0 {
        1
    } else if depth == 1 {
        p.spec_moves().len()
    } else {
        leaves_below(p, p.spec_moves(), (depth - 1) as nat)
    }
}

/// The sum, over `moves`, of the leaves of the tree of depth `depth` below
/// the position that the move leads to from `p`.
pub open spec fn leaves_below(p: Position, moves: Seq<Move>, depth: nat) -> nat
    decreases depth, moves.len() + 1,
{
    if moves.len() == 0 {
        0
    } else {
        leaves_below(p, moves.drop_last(), depth) + perft(p.spec_make_move(moves.last()), depth)
    }
}

/// Down to `depth` plies below `p`, no position but a leaf has a move
/// generated that it does not admit.
pub open spec fn playable(p: Position, depth: nat) -> bool
    decreases depth,
{
    depth <= 1 || forall|i: int|
        0 <= i < p.spec_moves().len() ==> p.admits(#[trigger] p.spec_moves()[i]) && playable(
            p.spec_make_move(p.spec_moves()[i]),
            (depth - 1) as nat,
        )
}

/// A well-formed and sound position can be played to any depth: every
/// move generated on the way is admitted.
pub proof fn lemma_sound_playable(p: Position, depth: nat)
    requires
        p.wf(),
        p.sound(),
    ensures
        playable(p, depth),
    decreases depth,
{
    if depth > 1 {
        assert forall|i: int| 0 <= i < p.spec_moves().len() implies p.admits(
            #[trigger] p.spec_moves()[i],
        ) && playable(p.spec_make_move(p.spec_moves()[i]), (depth - 1) as nat) by {
            let m = p.spec_moves()[i];
            assert(p.spec_moves().contains(m));
            p.lemma_moves(m);
            p.lemma_legal(m);
            lemma_sound_playable(p.spec_make_move(m), (depth - 1) as nat);
        }
    }
}

/// The sum over a part of the moves is at most the sum over all of them.
proof fn lemma_leaves_grow(p: Position, moves: Seq<Move>, depth: nat, n: int)
    requires
        0 <= n <= moves.len(),
    ensures
        leaves_below(p, moves.take(n), depth) <= leaves_below(p, moves, depth),
    decreases moves.len(),
{
    if n < moves.len() {
        lemma_leaves_grow(p, moves.drop_last(), depth, n);
        assert(moves.drop_last().take(n) =~= moves.take(n));
    } else {
        assert(moves.take(n) =~= moves);
    }
}

/// What the search needs to know of the child that move number `i` leads to.
proof fn lemma_child(p: Position, depth: nat, i: int)
    requires
        p.wf(),
        depth > 1,
        playable(p, depth),
        0 <= i < p.spec_moves().len(),
    ensures
        p.admits(p.spec_moves()[i]),
        playable(p.spec_make_move(p.spec_moves()[i]), (depth - 1) as nat),
        leaves_below(p, p.spec_moves().take(i + 1), (depth - 1) as nat) == leaves_below(
            p,
            p.spec_moves().take(i),
            (depth - 1) as nat,
        ) + perft(p.spec_make_move(p.spec_moves()[i]), (depth - 1) as nat),
        leaves_below(p, p.spec_moves().take(i + 1), (depth - 1) as nat) <= leaves_below(
            p,
            p.spec_moves(),
            (depth - 1) as nat,
        ),
{
    let moves = p.spec_moves();
    assert(p.admits(moves[i]));
    assert(moves.take(i + 1).drop_last() =~= moves.take(i));
    assert(moves.take(i + 1).last() == moves[i]);
    lemma_leaves_grow(p, moves, (depth - 1) as nat, i + 1);
}

/// Counts the leaves of the move tree of depth `depth` below `board`.
pub fn search(board: Board, depth: u32) -> (count: u32)
    requires
        board@.wf(),
        board@.sound(),
        perft(board@, depth as nat) <= u32::MAX,
    ensures
        count == perft(board@, depth as nat),
    decreases depth,
{
    let moves = MoveGen::run(board);
    if depth == 0 {
        1
    } else if depth == 1 {
        moves.len() as u32
    } else if moves.len() == 0 {
        0
    } else {
        let ghost below = (depth - 1) as nat;
        let mut total: u32 = 0;
        let mut i: usize = 0;
        proof {
            lemma_sound_playable(board@, depth as nat);
        }
        while i < moves.len()
            invariant
                0 <= i <= moves.len(),
                depth > 1,
                below == depth - 1,
                moves@ == board@.spec_moves(),
                board@.wf(),
                board@.sound(),
                playable(board@, depth as nat),
                perft(board@, depth as nat) <= u32::MAX,
                leaves_below(board@, moves@, below) <= u32::MAX,
                total == leaves_below(board@, moves@.take(i as int), below),
            decreases moves.len() - i,
        {
            proof {
                lemma_child(board@, depth as nat, i as int);
                assert(moves@.contains(moves@[i as int]));
                board@.lemma_moves(moves@[i as int]);
            }
            let mut board_copy = board;
            board_copy.make_move(moves[i]);
            let found = search(board_copy, depth - 1);
            total = total + found;
            i = i + 1;
        }
        proof {
            assert(moves@.take(i as int) =~= moves@);
        }
        total
    }
}

/// The count that [`checked_search`] returns: the leaves below `p`, where
/// the tree can be played to `depth` and the count fits in 32 bits.
pub open spec fn checked_perft(p: Position, depth: nat) -> Option<u32> {
    if playable(p, depth) && perft(p, depth) <= u32::MAX {
        Some(perft(p, depth) as u32)
    } else {
        None
    }
}

/// The leaves below one child are among the leaves below all children.
proof fn lemma_leaves_hold(p: Position, moves: Seq<Move>, depth: nat, i: int)
    requires
        0 <= i < moves.len(),
    ensures
        perft(p.spec_make_move(moves[i]), depth) <= leaves_below(p, moves, depth),
    decreases moves.len(),
{
    if i < moves.len() - 1 {
        lemma_leaves_hold(p, moves.drop_last(), depth, i);
    }
}

/// A tree that can be played below each of the moves can be played from the top.
proof fn lemma_playable_from(p: Position, depth: nat)
    requires
        depth > 1,
        forall|i: int|
            0 <= i < p.spec_moves().len() ==> p.admits(#[trigger] p.spec_moves()[i]) && playable(
                p.spec_make_move(p.spec_moves()[i]),
                (depth - 1) as nat,
            ),
    ensures
        playable(p, depth),
{
}

/// Counts the leaves of the move tree of depth `depth` below `board`, and
/// looks before each move whether the position accepts it. Returns `None`
/// where a generated move is not accepted somewhere in the tree, or where
/// the count does not fit in 32 bits.
pub fn checked_search(board: Board, depth: u32) -> (count: Option<u32>)
    requires
        board@.wf(),
    ensures
        count == checked_perft(board@, depth as nat),
    decreases depth,
{
    let moves = MoveGen::run(board);
    if depth == 0 {
        return Some(1);
    }
    if depth == 1 {
        return if moves.len() <= u32::MAX as usize {
            Some(moves.len() as u32)
        } else {
            None
        };
    }
    let ghost below = (depth - 1) as nat;
    let mut total: u32 = 0;
    let mut i: usize = 0;
    while i < moves.len()
        invariant
            0 <= i <= moves.len(),
            depth > 1,
            below == depth - 1,
            moves@ == board@.spec_moves(),
            board@.wf(),
            total == leaves_below(board@, moves@.take(i as int), below),
            forall|k: int|
                0 <= k < i ==> board@.admits(#[trigger] moves@[k]) && playable(
                    board@.spec_make_move(moves@[k]),
                    below,
                ),
        decreases moves.len() - i,
    {
        proof {
            assert(moves@.take(i + 1).drop_last() =~= moves@.take(i as int));
            assert(moves@.take(i + 1).last() == moves@[i as int]);
            lemma_leaves_grow(board@, moves@, below, i + 1);
            lemma_leaves_hold(board@, moves@, below, i as int);
        }
        if !board.accepts(moves[i]) {
            return None;
        }
        let mut board_copy = board;
        board_copy.make_move(moves[i]);
        let found = match checked_search(board_copy, depth - 1) {
            Some(found) => found,
            None => {
                return None;
            },
        };
        if found > u32::MAX - total {
            return None;
        }
        total = total + found;
        i = i + 1;
    }
    proof {
        assert(moves@.take(i as int) =~= moves@);
        lemma_playable_from(board@, depth as nat);
    }
    Some(total)
}

} // verus!
