//! The laws the interpreter and the board operations obey: the cursor-bounds
//! invariant is kept by every key press and every sequence of key presses,
//! operations at structural edges change nothing, a cancelled insert leaves
//! the columns as they were, and a move between columns conserves the tasks.

use vstd::prelude::*;
use crate::board::{
    AbsList, AbsTodos, Direction, focused_tasks, inv, spec_clamp, spec_delete_task,
    spec_move_cursor, spec_move_task, spec_transfer,
};
use crate::step::{Key, spec_begin_insert, spec_step};

verus! {

/// Clamping never moves a cursor that is already in bounds.
pub proof fn lemma_clamp_identity(s: AbsTodos)
    requires
        inv(s),
    ensures
        spec_clamp(s) == s,
{
    assert(spec_clamp(s) =~= s);
}

/// One key press keeps the cursor-bounds invariant.
pub proof fn lemma_step_preserves_inv(s: AbsTodos, key: Key, alt: bool)
    requires
        inv(s),
    ensures
        inv(spec_step(s, key, alt).0),
{
    let s2 = spec_step(s, key, alt).0;
    assert(inv(s2));
}

/// The state after a whole sequence of key presses, first press first.
pub open spec fn spec_run(s: AbsTodos, keys: Seq<(Key, bool)>) -> AbsTodos
    decreases keys.len(),
{
    if keys.len() == 0 {
        s
    } else {
        spec_run(spec_step(s, keys[0].0, keys[0].1).0, keys.drop_first())
    }
}

/// Law: after any sequence of key presses — and so after any sequence of
/// insert, delete, move and navigation operations — the cursor still
/// satisfies the bounds invariant: `0 <= cur_task < max(1, len)` of the
/// focused column, indexing a real task whenever the column is non-empty.
pub proof fn lemma_run_preserves_inv(s: AbsTodos, keys: Seq<(Key, bool)>)
    requires
        inv(s),
    ensures
        inv(spec_run(s, keys)),
    decreases keys.len(),
{
    if keys.len() > 0 {
        lemma_step_preserves_inv(s, keys[0].0, keys[0].1);
        lemma_run_preserves_inv(spec_step(s, keys[0].0, keys[0].1).0, keys.drop_first());
    }
}

/// Law: at a structural edge nothing happens — moving the cursor left from
/// the first column or right from the last, and moving a task left from the
/// first column or right from the last, leave board and cursor unchanged.
pub proof fn lemma_edge_noop(s: AbsTodos)
    requires
        inv(s),
    ensures
        s.cur_list == 0 ==> spec_move_cursor(s, Direction::Left) == s,
        s.cur_list == s.lists.len() - 1 ==> spec_move_cursor(s, Direction::Right) == s,
        s.cur_list == 0 ==> spec_move_task(s, Direction::Left) == s,
        s.cur_list == s.lists.len() - 1 ==> spec_move_task(s, Direction::Right) == s,
{
    lemma_clamp_identity(s);
}

/// Law: inserting a task with 'i' and committing at once with enter, with no
/// character typed in between, restores every column to its previous state
/// (in particular the focused column to its pre-insert length), leaves edit
/// mode, and leaves the cursor clamped to a valid position.
pub proof fn lemma_insert_then_cancel(s: AbsTodos)
    requires
        inv(s),
        !s.editing,
    ensures
        ({
            let s1 = spec_step(s, Key::Char('i'), false).0;
            let s2 = spec_step(s1, Key::Enter, false).0;
            &&& s2.lists == s.lists
            &&& s2.cur_list == s.cur_list
            &&& s2.cur_task == (if focused_tasks(s).len() == 0 {
                0int
            } else if s.cur_task + 1 == focused_tasks(s).len() {
                s.cur_task
            } else {
                s.cur_task + 1
            })
            &&& !s2.editing
            &&& inv(s2)
        }),
{
    let s1 = spec_step(s, Key::Char('i'), false).0;
    let s2 = spec_step(s1, Key::Enter, false).0;
    let l = s.lists[s.cur_list];
    let at = if l.tasks.len() == 0 { 0int } else { s.cur_task + 1 };
    assert(s1 == spec_begin_insert(s));
    assert(focused_tasks(s1) == l.tasks.insert(at, Seq::<char>::empty()));
    assert(focused_tasks(s1)[s1.cur_task].len() == 0) by {
        l.tasks.insert_ensures(at, Seq::<char>::empty());
    }
    assert(s2 == AbsTodos { editing: false, ..spec_delete_task(s1) });
    assert(l.tasks.insert(at, Seq::<char>::empty()).remove(at) =~= l.tasks) by {
        l.tasks.insert_ensures(at, Seq::<char>::empty());
        l.tasks.insert(at, Seq::<char>::empty()).remove_ensures(at);
    }
    assert(s2.lists =~= s.lists);
    lemma_step_preserves_inv(s, Key::Char('i'), false);
    lemma_step_preserves_inv(s1, Key::Enter, false);
}

/// The total number of tasks on the board, over all columns.
pub open spec fn total_tasks(lists: Seq<AbsList>) -> int
    decreases lists.len(),
{
    if lists.len() == 0 {
        0
    } else {
        lists[0].tasks.len() + total_tasks(lists.drop_first())
    }
}

/// Replacing one column changes the total by the difference of that column.
pub proof fn lemma_total_update(lists: Seq<AbsList>, i: int, l2: AbsList)
    requires
        0 <= i < lists.len(),
    ensures
        total_tasks(lists.update(i, l2)) == total_tasks(lists) - lists[i].tasks.len()
            + l2.tasks.len(),
    decreases lists.len(),
{
    if i == 0 {
        assert(lists.update(0, l2).drop_first() =~= lists.drop_first());
    } else {
        assert(lists.update(i, l2).drop_first() =~= lists.drop_first().update(i - 1, l2));
        lemma_total_update(lists.drop_first(), i - 1, l2);
    }
}

/// Law: a move to an adjacent column transfers exactly one task — the source
/// column shrinks by one, the destination grows by one with the moved text
/// appended at its end — and the total task count over all columns is kept.
pub proof fn lemma_move_transfers(s: AbsTodos, d: Direction)
    requires
        inv(s),
        focused_tasks(s).len() > 0,
        d == Direction::Left ==> s.cur_list > 0,
        d == Direction::Right ==> s.cur_list + 1 < s.lists.len(),
        d == Direction::Left || d == Direction::Right,
    ensures
        ({
            let to = if d == Direction::Left { s.cur_list - 1 } else { s.cur_list + 1 };
            let s2 = spec_move_task(s, d);
            &&& s2.lists.len() == s.lists.len()
            &&& s2.lists[s.cur_list].tasks.len() == focused_tasks(s).len() - 1
            &&& s2.lists[to].tasks == s.lists[to].tasks.push(focused_tasks(s)[s.cur_task])
            &&& total_tasks(s2.lists) == total_tasks(s.lists)
        }),
{
    let to = if d == Direction::Left { s.cur_list - 1 } else { s.cur_list + 1 };
    let src = s.lists[s.cur_list];
    let item = src.tasks[s.cur_task];
    let lists1 = s.lists.update(s.cur_list, AbsList { tasks: src.tasks.remove(s.cur_task), ..src });
    let dst = lists1[to];
    let lists2 = lists1.update(to, AbsList { tasks: dst.tasks.push(item), ..dst });
    assert(spec_move_task(s, d) == spec_transfer(s, to));
    src.tasks.remove_ensures(s.cur_task);
    lemma_total_update(s.lists, s.cur_list, AbsList { tasks: src.tasks.remove(s.cur_task), ..src });
    lemma_total_update(lists1, to, AbsList { tasks: dst.tasks.push(item), ..dst });
}

/// Law: a reorder within a column, or a move that a structural edge turns
/// into a no-op, also keeps the total task count; together with
/// `lemma_move_transfers` the total is invariant under every task move.
pub proof fn lemma_move_total_invariant(s: AbsTodos, d: Direction)
    requires
        inv(s),
        focused_tasks(s).len() > 0,
    ensures
        total_tasks(spec_move_task(s, d).lists) == total_tasks(s.lists),
{
    let l = s.lists[s.cur_list];
    match d {
        Direction::Up => {
            if s.cur_task != 0 {
                lemma_total_update(
                    s.lists,
                    s.cur_list,
                    AbsList { tasks: crate::board::swap_at(l.tasks, s.cur_task - 1), ..l },
                );
            }
        },
        Direction::Down => {
            if s.cur_task + 1 < l.tasks.len() {
                lemma_total_update(
                    s.lists,
                    s.cur_list,
                    AbsList { tasks: crate::board::swap_at(l.tasks, s.cur_task), ..l },
                );
            }
        },
        Direction::Left => {
            if s.cur_list != 0 {
                lemma_move_transfers(s, d);
            }
        },
        Direction::Right => {
            if s.cur_list + 1 < s.lists.len() {
                lemma_move_transfers(s, d);
            }
        },
    }
}

} // verus!
