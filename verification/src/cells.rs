//! Lists of cells used as sets: membership, removal, and what filtering
//! keeps.

use crate::position::Position;
use vstd::prelude::*;

verus! {

/// The predicate that holds of every cell but `cell`.
pub open spec fn other_than(cell: Position) -> spec_fn(Position) -> bool {
    |c: Position| c != cell
}

/// The predicate that holds of the cells that `occupied` does not list.
pub open spec fn outside_of(occupied: Seq<Position>) -> spec_fn(Position) -> bool {
    |c: Position| !occupied.contains(c)
}

/// No cell is listed by both sequences.
pub open spec fn disjoint(a: Seq<Position>, b: Seq<Position>) -> bool {
    forall|c: Position| !(a.contains(c) && b.contains(c))
}

/// Filtering keeps exactly the listed items of which the predicate holds,
/// and lists none twice that was listed once.
pub proof fn lemma_filter_keeps<A>(s: Seq<A>, pred: spec_fn(A) -> bool)
    ensures
        forall|a: A| #[trigger] s.filter(pred).contains(a) <==> s.contains(a) && pred(a),
        s.no_duplicates() ==> s.filter(pred).no_duplicates(),
    decreases s.len(),
{
    reveal(Seq::filter);
    if s.len() > 0 {
        let front = s.drop_last();
        let kept = front.filter(pred);
        lemma_filter_keeps(front, pred);
        assert forall|a: A| #[trigger] s.filter(pred).contains(a) <==> s.contains(a) && pred(a) by {
            if s.filter(pred).contains(a) {
                let i = choose|i: int| 0 <= i < s.filter(pred).len() && s.filter(pred)[i] == a;
                if i < kept.len() {
                    assert(kept[i] == a);
                    assert(kept.contains(a));
                    let j = choose|j: int| 0 <= j < front.len() && front[j] == a;
                    assert(s[j] == a);
                } else {
                    assert(a == s.last());
                    assert(s[s.len() - 1] == a);
                }
            }
            if s.contains(a) && pred(a) {
                let j = choose|j: int| 0 <= j < s.len() && s[j] == a;
                if j < front.len() {
                    assert(front[j] == a);
                    assert(front.contains(a));
                    assert(kept.contains(a));
                    let i = choose|i: int| 0 <= i < kept.len() && kept[i] == a;
                    assert(s.filter(pred)[i] == a);
                } else {
                    assert(s.filter(pred)[kept.len() as int] == a);
                }
            }
        }
        if s.no_duplicates() {
            assert(front.no_duplicates());
            if pred(s.last()) {
                if kept.contains(s.last()) {
                    let j = choose|j: int| 0 <= j < front.len() && front[j] == s.last();
                    assert(s[j] == s[s.len() - 1]);
                }
                assert(s.filter(pred).no_duplicates());
            }
        }
    }
}

/// Whether the list holds the cell.
pub fn contains(cells: &Vec<Position>, cell: &Position) -> (found: bool)
    ensures
        found == cells@.contains(*cell),
{
    let mut i: usize = 0;
    while i < cells.len()
        invariant
            i <= cells@.len(),
            forall|k: int| 0 <= k < i ==> cells@[k] != *cell,
        decreases cells@.len() - i,
    {
        if cells[i] == *cell {
            return true;
        }
        i += 1;
    }
    false
}

/// Whether the list holds no cell twice.
pub fn all_distinct(cells: &Vec<Position>) -> (distinct: bool)
    ensures
        distinct == cells@.no_duplicates(),
{
    let n = cells.len();
    let mut i: usize = 0;
    while i < n
        invariant
            n == cells@.len(),
            i <= n,
            forall|a: int, b: int| 0 <= a < i && a < b < n ==> cells@[a] != cells@[b],
        decreases n - i,
    {
        let mut j: usize = i + 1;
        while j < n
            invariant
                n == cells@.len(),
                i < j <= n,
                forall|b: int| i < b < j ==> cells@[i as int] != cells@[b],
            decreases n - j,
        {
            if cells[i] == cells[j] {
                return false;
            }
            j += 1;
        }
        i += 1;
    }
    assert forall|a: int, b: int| 0 <= a < n && 0 <= b < n && a != b implies cells@[a] != cells@[b] by {
        if a < b {
            assert(cells@[a] != cells@[b]);
        } else {
            assert(cells@[b] != cells@[a]);
        }
    }
    true
}

/// Whether the two lists share no cell.
pub fn are_disjoint(a: &Vec<Position>, b: &Vec<Position>) -> (apart: bool)
    ensures
        apart == disjoint(a@, b@),
{
    let mut i: usize = 0;
    while i < a.len()
        invariant
            i <= a@.len(),
            forall|k: int| 0 <= k < i ==> !b@.contains(#[trigger] a@[k]),
        decreases a@.len() - i,
    {
        if contains(b, &a[i]) {
            assert(a@.contains(a@[i as int]));
            return false;
        }
        i += 1;
    }
    assert forall|c: Position| !(a@.contains(c) && b@.contains(c)) by {
        if a@.contains(c) {
            let k = choose|k: int| 0 <= k < a@.len() && a@[k] == c;
            assert(!b@.contains(a@[k]));
        }
    }
    true
}

/// The list without the cell, the others in their order.
pub fn without(cells: &Vec<Position>, cell: &Position) -> (rest: Vec<Position>)
    ensures
        rest@ == cells@.filter(other_than(*cell)),
{
    let mut rest: Vec<Position> = Vec::new();
    let mut i: usize = 0;
    proof {
        reveal(Seq::filter);
        assert(cells@.take(0) =~= Seq::<Position>::empty());
    }
    while i < cells.len()
        invariant
            i <= cells@.len(),
            rest@ == cells@.take(i as int).filter(other_than(*cell)),
        decreases cells@.len() - i,
    {
        proof {
            cells@.take(i as int).lemma_filter_push(cells@[i as int], other_than(*cell));
            assert(cells@.take(i + 1) =~= cells@.take(i as int).push(cells@[i as int]));
        }
        if cells[i] != *cell {
            rest.push(cells[i]);
        }
        i += 1;
    }
    assert(cells@.take(cells@.len() as int) =~= cells@);
    rest
}

/// The cells of `cells` that `occupied` does not list, in their order.
pub fn free_of(cells: &Vec<Position>, occupied: &Vec<Position>) -> (free: Vec<Position>)
    ensures
        free@ == cells@.filter(outside_of(occupied@)),
{
    let mut free: Vec<Position> = Vec::new();
    let mut i: usize = 0;
    proof {
        reveal(Seq::filter);
        assert(cells@.take(0) =~= Seq::<Position>::empty());
    }
    while i < cells.len()
        invariant
            i <= cells@.len(),
            free@ == cells@.take(i as int).filter(outside_of(occupied@)),
        decreases cells@.len() - i,
    {
        proof {
            cells@.take(i as int).lemma_filter_push(cells@[i as int], outside_of(occupied@));
            assert(cells@.take(i + 1) =~= cells@.take(i as int).push(cells@[i as int]));
        }
        if !contains(occupied, &cells[i]) {
            free.push(cells[i]);
        }
        i += 1;
    }
    assert(cells@.take(cells@.len() as int) =~= cells@);
    free
}

} // verus!
