use vstd::prelude::*;
use crate::cell::Cell;

verus! {

/// How many cells of `neighbors` are alive.
pub open spec fn count_alive(neighbors: Seq<Cell>) -> nat {
    neighbors.filter(|cell: Cell| cell.is_alive()).len()
}

/// A living cell with no living neighbour is alone.
pub open spec fn is_alone(living: nat) -> bool {
    living == 0
}

/// A living cell with more than three living neighbours is overpopulated.
pub open spec fn is_overpopulated(living: nat) -> bool {
    living > 3
}

/// A dead cell with exactly three living neighbours comes to life.
pub open spec fn spawns(living: nat) -> bool {
    living == 3
}

/// Whether the rule schedules `cell` to die, given its number of living
/// neighbours.
pub open spec fn dies(cell: Cell, living: nat) -> bool {
    cell.is_alive() && (is_alone(living) || is_overpopulated(living))
}

/// Whether the rule schedules `cell` to come to life, given its number of
/// living neighbours.
pub open spec fn is_born(cell: Cell, living: nat) -> bool {
    !cell.is_alive() && spawns(living)
}

/// The state of `cell` in the next generation, given its number of living
/// neighbours in this one: a cell that is scheduled to die is dead, one that
/// is scheduled to be born is alive, every other cell is as it was.
pub open spec fn next_state(cell: Cell, living: nat) -> Cell {
    if dies(cell, living) {
        Cell::lifeless()
    } else if is_born(cell, living) {
        Cell::living()
    } else {
        cell
    }
}

/// Counts the living cells among `neighbors`.
pub fn living_neighbor_count(neighbors: &[Cell]) -> (living: usize)
    ensures
        living == count_alive(neighbors@),
{
    let mut living: usize = 0;
    let mut i: usize = 0;
    proof {
        lemma_count_alive_empty();
        assert(neighbors@.take(0) =~= Seq::<Cell>::empty());
    }
    while i < neighbors.len()
        invariant
            i <= neighbors.len(),
            living <= i,
            living == count_alive(neighbors@.take(i as int)),
        decreases neighbors.len() - i,
    {
        proof {
            assert(neighbors@.take(i + 1) =~= neighbors@.take(i as int).push(neighbors@[i as int]));
            lemma_count_alive_push(neighbors@.take(i as int), neighbors@[i as int]);
        }
        if neighbors[i].is_alive() {
            living = living + 1;
        }
        i = i + 1;
    }
    assert(neighbors@.take(i as int) =~= neighbors@);
    living
}

/// Whether none of `neighbors` is alive.
pub fn alone(neighbors: &[Cell]) -> (yes: bool)
    ensures
        yes == is_alone(count_alive(neighbors@)),
{
    living_neighbor_count(neighbors) == 0
}

/// Whether more than three of `neighbors` are alive.
pub fn overpopulated(neighbors: &[Cell]) -> (yes: bool)
    ensures
        yes == is_overpopulated(count_alive(neighbors@)),
{
    living_neighbor_count(neighbors) > 3
}

/// Whether exactly three of `neighbors` are alive.
pub fn can_spawn(neighbors: &[Cell]) -> (yes: bool)
    ensures
        yes == spawns(count_alive(neighbors@)),
{
    living_neighbor_count(neighbors) == 3
}

/// No cell of the empty sequence is alive.
pub proof fn lemma_count_alive_empty()
    ensures
        count_alive(Seq::<Cell>::empty()) == 0,
{
    reveal(Seq::filter);
}

/// One more cell adds one to the count if it is alive and nothing if it is
/// dead.
pub proof fn lemma_count_alive_push(cells: Seq<Cell>, cell: Cell)
    ensures
        count_alive(cells.push(cell)) == count_alive(cells) + (if cell.is_alive() {
            1nat
        } else {
            0nat
        }),
{
    reveal(Seq::filter);
    assert(cells.push(cell).drop_last() =~= cells);
}

/// Where no cell is alive, the count is zero.
pub proof fn lemma_count_alive_none(cells: Seq<Cell>)
    requires
        forall|i: int| 0 <= i < cells.len() ==> !cells[i].is_alive(),
    ensures
        count_alive(cells) == 0,
    decreases cells.len(),
{
    if cells.len() == 0 {
        assert(cells =~= Seq::<Cell>::empty());
        lemma_count_alive_empty();
    } else {
        lemma_count_alive_none(cells.drop_last());
        lemma_count_alive_push(cells.drop_last(), cells.last());
        assert(cells.drop_last().push(cells.last()) =~= cells);
    }
}

/// No more cells are alive than there are cells.
pub proof fn lemma_count_alive_bound(neighbors: Seq<Cell>)
    ensures
        count_alive(neighbors) <= neighbors.len(),
{
    neighbors.lemma_filter_len(|cell: Cell| cell.is_alive());
}

} // verus!
