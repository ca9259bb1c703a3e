//! The view model: a renderer-agnostic description of what to draw — one
//! header per column, and the focused column's tasks with their highlight.

use vstd::prelude::*;
use crate::board::{AbsTodos, Todos, focused_tasks};

verus! {

/// How one drawn task is highlighted.
#[derive(Clone, Copy, PartialEq, Eq, Structural, Debug)]
pub enum Highlight {
    Plain,
    Focused,
    Editing,
}

/// One column header: its name, its task count, and whether the cursor is
/// on this column.
pub struct TitleView {
    pub name: String,
    pub count: usize,
    pub selected: bool,
}

/// One drawn task of the focused column.
pub struct TaskView {
    pub text: String,
    pub highlight: Highlight,
}

/// Everything the renderer needs for one frame.
pub struct ViewModel {
    pub titles: Vec<TitleView>,
    pub tasks: Vec<TaskView>,
}

/// The highlight the focused column's task at `j` gets: the focused task is
/// marked as being edited or merely selected, every other task is plain.
pub open spec fn spec_highlight(s: AbsTodos, j: int) -> Highlight {
    if j == s.cur_task {
        if s.editing {
            Highlight::Editing
        } else {
            Highlight::Focused
        }
    } else {
        Highlight::Plain
    }
}

/// Project the board and session state into the view model: one header per
/// column, in order, with the focused one marked; and the focused column's
/// tasks, in order, each with its highlight.
pub fn build_view(t: &Todos) -> (vm: ViewModel)
    requires
        t.wf(),
    ensures
        vm.titles@.len() == t@.lists.len(),
        forall|i: int|
            0 <= i < vm.titles@.len() ==> {
                &&& (#[trigger] vm.titles@[i]).name@ == t@.lists[i].name
                &&& vm.titles@[i].count == t@.lists[i].tasks.len()
                &&& vm.titles@[i].selected == (i == t@.cur_list)
            },
        vm.tasks@.len() == focused_tasks(t@).len(),
        forall|j: int|
            0 <= j < vm.tasks@.len() ==> {
                &&& (#[trigger] vm.tasks@[j]).text@ == focused_tasks(t@)[j]
                &&& vm.tasks@[j].highlight == spec_highlight(t@, j)
            },
{
    let mut titles: Vec<TitleView> = Vec::new();
    let mut i: usize = 0;
    while i < t.lists.len()
        invariant
            i <= t.lists@.len(),
            titles@.len() == i as int,
            forall|k: int|
                0 <= k < i as int ==> {
                    &&& (#[trigger] titles@[k]).name@ == t@.lists[k].name
                    &&& titles@[k].count == t@.lists[k].tasks.len()
                    &&& titles@[k].selected == (k == t@.cur_list)
                },
        decreases t.lists@.len() - i,
    {
        let l = &t.lists[i];
        titles.push(
            TitleView { name: l.name.clone(), count: l.tasks.len(), selected: i == t.current_list },
        );
        i = i + 1;
    }
    let mut tasks: Vec<TaskView> = Vec::new();
    let cur = &t.lists[t.current_list];
    let mut j: usize = 0;
    while j < cur.tasks.len()
        invariant
            t.wf(),
            cur == &t.lists@[t@.cur_list],
            j <= cur.tasks@.len(),
            tasks@.len() == j as int,
            forall|k: int|
                0 <= k < j as int ==> {
                    &&& (#[trigger] tasks@[k]).text@ == focused_tasks(t@)[k]
                    &&& tasks@[k].highlight == spec_highlight(t@, k)
                },
        decreases cur.tasks@.len() - j,
    {
        let hl = if j == t.current_task {
            if t.editing {
                Highlight::Editing
            } else {
                Highlight::Focused
            }
        } else {
            Highlight::Plain
        };
        tasks.push(TaskView { text: cur.tasks[j].clone(), highlight: hl });
        j = j + 1;
    }
    ViewModel { titles, tasks }
}

} // verus!
