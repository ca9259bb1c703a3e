//! The task-board data model: named columns of task texts, a cursor that
//! focuses one (column, task) pair, and an edit flag. Every mutation keeps
//! the cursor clamped to a valid position.

use vstd::prelude::*;

verus! {

/// One direction of cursor movement or task movement.
pub enum Direction {
    Up,
    Down,
    Left,
    Right,
}

/// A named, ordered column of task texts.
pub struct TaskList {
    pub name: String,
    pub tasks: Vec<String>,
}

/// The whole board plus the session state: which column and task the cursor
/// focuses, and whether the focused task is being edited.
pub struct Todos {
    pub lists: Vec<TaskList>,
    pub current_list: usize,
    pub current_task: usize,
    pub editing: bool,
}

/// The mathematical model of a column: its name and task texts as
/// sequences of characters.
#[verifier::ext_equal]
pub ghost struct AbsList {
    pub name: Seq<char>,
    pub tasks: Seq<Seq<char>>,
}

/// The mathematical model of the board and session state.
#[verifier::ext_equal]
pub ghost struct AbsTodos {
    pub lists: Seq<AbsList>,
    pub cur_list: int,
    pub cur_task: int,
    pub editing: bool,
}

/// The character sequences of a sequence of task texts.
pub open spec fn texts_of(ts: Seq<String>) -> Seq<Seq<char>> {
    ts.map_values(|t: String| t@)
}

/// The models of a sequence of columns.
pub open spec fn cols_of(ls: Seq<TaskList>) -> Seq<AbsList> {
    ls.map_values(|l: TaskList| l@)
}

impl View for TaskList {
    type V = AbsList;

    open spec fn view(&self) -> AbsList {
        AbsList { name: self.name@, tasks: texts_of(self.tasks@) }
    }
}

impl View for Todos {
    type V = AbsTodos;

    open spec fn view(&self) -> AbsTodos {
        AbsTodos {
            lists: cols_of(self.lists@),
            cur_list: self.current_list as int,
            cur_task: self.current_task as int,
            editing: self.editing,
        }
    }
}

/// The tasks of the column the cursor focuses.
pub open spec fn focused_tasks(s: AbsTodos) -> Seq<Seq<char>> {
    s.lists[s.cur_list].tasks
}

/// The cursor-bounds invariant: the focused column exists, the task index
/// stays below `max(1, len)` of the focused column, and while editing the
/// focused column has a task to act as the edit buffer.
pub open spec fn inv(s: AbsTodos) -> bool {
    &&& 0 <= s.cur_list < s.lists.len()
    &&& 0 <= s.cur_task
    &&& (if focused_tasks(s).len() == 0 {
        s.cur_task == 0
    } else {
        s.cur_task < focused_tasks(s).len()
    })
    &&& (s.editing ==> focused_tasks(s).len() > 0)
}

/// Clamping the task index against the focused column: an index past the
/// end moves to the last task, or to 0 in an empty column.
pub open spec fn spec_clamp(s: AbsTodos) -> AbsTodos {
    AbsTodos {
        cur_task: if focused_tasks(s).len() == 0 {
            0
        } else if s.cur_task >= focused_tasks(s).len() {
            focused_tasks(s).len() - 1
        } else {
            s.cur_task
        },
        ..s
    }
}

/// Cursor movement: one step in the given direction, without wraparound,
/// then a re-clamp of the task index against the (possibly new) column.
pub open spec fn spec_move_cursor(s: AbsTodos, d: Direction) -> AbsTodos {
    let moved = match d {
        Direction::Left => AbsTodos {
            cur_list: if s.cur_list != 0 { s.cur_list - 1 } else { s.cur_list },
            ..s
        },
        Direction::Right => AbsTodos {
            cur_list: if s.cur_list + 1 < s.lists.len() { s.cur_list + 1 } else { s.cur_list },
            ..s
        },
        Direction::Up => AbsTodos {
            cur_task: if s.cur_task != 0 { s.cur_task - 1 } else { s.cur_task },
            ..s
        },
        Direction::Down => AbsTodos {
            cur_task: if s.cur_task + 1 < focused_tasks(s).len() {
                s.cur_task + 1
            } else {
                s.cur_task
            },
            ..s
        },
    };
    spec_clamp(moved)
}

/// Insertion of a fresh empty task: at index 0 of an empty focused column,
/// otherwise immediately after the cursor; the cursor moves to it.
pub open spec fn spec_add_task(s: AbsTodos) -> AbsTodos {
    let l = s.lists[s.cur_list];
    let at = if l.tasks.len() == 0 { 0 } else { s.cur_task + 1 };
    AbsTodos {
        lists: s.lists.update(
            s.cur_list,
            AbsList { tasks: l.tasks.insert(at, Seq::<char>::empty()), ..l },
        ),
        cur_task: at,
        ..s
    }
}

/// Removal of the focused task, with the cursor re-clamped afterwards.
pub open spec fn spec_delete_task(s: AbsTodos) -> AbsTodos {
    let l = s.lists[s.cur_list];
    spec_clamp(
        AbsTodos {
            lists: s.lists.update(s.cur_list, AbsList { tasks: l.tasks.remove(s.cur_task), ..l }),
            ..s
        },
    )
}

/// The tasks of a column with the neighbours at `i` and `i + 1` exchanged.
pub open spec fn swap_at(ts: Seq<Seq<char>>, i: int) -> Seq<Seq<char>> {
    ts.update(i, ts[i + 1]).update(i + 1, ts[i])
}

/// The focused task removed from its column and appended to the end of the
/// column at `to`, with the cursor re-clamped against the shrunken source.
pub open spec fn spec_transfer(s: AbsTodos, to: int) -> AbsTodos {
    let src = s.lists[s.cur_list];
    let item = src.tasks[s.cur_task];
    let lists1 = s.lists.update(
        s.cur_list,
        AbsList { tasks: src.tasks.remove(s.cur_task), ..src },
    );
    let dst = lists1[to];
    let lists2 = lists1.update(to, AbsList { tasks: dst.tasks.push(item), ..dst });
    spec_clamp(AbsTodos { lists: lists2, ..s })
}

/// Task movement: up/down exchanges the focused task with its neighbour and
/// the cursor follows it; left/right transfers it to the adjacent column's
/// end. At a structural edge the state is left unchanged.
pub open spec fn spec_move_task(s: AbsTodos, d: Direction) -> AbsTodos {
    let l = s.lists[s.cur_list];
    match d {
        Direction::Up => if s.cur_task != 0 {
            AbsTodos {
                lists: s.lists.update(
                    s.cur_list,
                    AbsList { tasks: swap_at(l.tasks, s.cur_task - 1), ..l },
                ),
                cur_task: s.cur_task - 1,
                ..s
            }
        } else {
            s
        },
        Direction::Down => if s.cur_task + 1 < l.tasks.len() {
            AbsTodos {
                lists: s.lists.update(
                    s.cur_list,
                    AbsList { tasks: swap_at(l.tasks, s.cur_task), ..l },
                ),
                cur_task: s.cur_task + 1,
                ..s
            }
        } else {
            s
        },
        Direction::Left => if s.cur_list != 0 {
            spec_transfer(s, s.cur_list - 1)
        } else {
            s
        },
        Direction::Right => if s.cur_list + 1 < s.lists.len() {
            spec_transfer(s, s.cur_list + 1)
        } else {
            s
        },
    }
}

/// One character appended to the focused task's text.
pub open spec fn spec_edit_append(s: AbsTodos, c: char) -> AbsTodos {
    let l = s.lists[s.cur_list];
    AbsTodos {
        lists: s.lists.update(
            s.cur_list,
            AbsList { tasks: l.tasks.update(s.cur_task, l.tasks[s.cur_task].push(c)), ..l },
        ),
        ..s
    }
}

/// The last character removed from the focused task's text; an already
/// empty text is left unchanged.
pub open spec fn spec_edit_backspace(s: AbsTodos) -> AbsTodos {
    let l = s.lists[s.cur_list];
    let t = l.tasks[s.cur_task];
    if t.len() == 0 {
        s
    } else {
        AbsTodos {
            lists: s.lists.update(
                s.cur_list,
                AbsList { tasks: l.tasks.update(s.cur_task, t.drop_last()), ..l },
            ),
            ..s
        }
    }
}

impl Todos {
    /// Whether the concrete state satisfies the cursor-bounds invariant.
    pub open spec fn wf(&self) -> bool {
        inv(self@)
    }

    /// An empty board: no columns, cursor at the origin, not editing.
    pub fn new() -> (r: Todos)
        ensures
            r@.lists === Seq::<AbsList>::empty(),
            r@.cur_list == 0,
            r@.cur_task == 0,
            !r@.editing,
    {
        let r = Todos { lists: Vec::new(), current_list: 0, current_task: 0, editing: false };
        proof {
            assert(r@.lists =~= Seq::<AbsList>::empty());
        }
        r
    }

    /// The fixed default board: Backlog, In Progress and Done, all empty,
    /// with the cursor on the middle column.
    pub fn default_board() -> (r: Todos)
        ensures
            r.wf(),
            r@.lists.len() == 3,
            r@.lists[0].name == "Backlog"@,
            r@.lists[1].name == "In Progress"@,
            r@.lists[2].name == "Done"@,
            forall|i: int| 0 <= i < 3 ==> (#[trigger] r@.lists[i]).tasks.len() == 0,
            r@.cur_list == 1,
            r@.cur_task == 0,
            !r@.editing,
    {
        let mut lists: Vec<TaskList> = Vec::new();
        lists.push(TaskList { name: "Backlog".to_owned(), tasks: Vec::new() });
        lists.push(TaskList { name: "In Progress".to_owned(), tasks: Vec::new() });
        lists.push(TaskList { name: "Done".to_owned(), tasks: Vec::new() });
        let r = Todos { lists, current_list: 1, current_task: 0, editing: false };
        proof {
            assert(r@.lists.len() == 3);
            assert(forall|i: int| 0 <= i < 3 ==> (#[trigger] r@.lists[i]).tasks.len() == 0);
        }
        r
    }

    /// A board over the given columns, focusing `initial_list` (or the first
    /// column when that index is out of range), the cursor on the first
    /// task. Succeeds exactly when there is at least one column.
    pub fn from_lists(lists: Vec<TaskList>, initial_list: usize) -> (r: Option<Todos>)
        ensures
            r is Some <==> lists@.len() > 0,
            r matches Some(t) ==> ({
                &&& t.wf()
                &&& t@.lists == cols_of(lists@)
                &&& t@.cur_list == (if initial_list < lists@.len() {
                    initial_list as int
                } else {
                    0
                })
                &&& t@.cur_task == 0
                &&& !t@.editing
            }),
    {
        if lists.len() == 0 {
            return None;
        }
        let cl = if initial_list < lists.len() {
            initial_list
        } else {
            0
        };
        Some(Todos { lists, current_list: cl, current_task: 0, editing: false })
    }

    /// The column at `list_index`.
    pub fn get_list(&self, list_index: usize) -> (r: &TaskList)
        requires
            list_index < self.lists@.len(),
        ensures
            r@ == self@.lists[list_index as int],
    {
        &self.lists[list_index]
    }

    /// The column the cursor focuses.
    pub fn get_current_list(&self) -> (r: &TaskList)
        requires
            self.current_list < self.lists@.len(),
        ensures
            r@ == self@.lists[self@.cur_list],
    {
        self.get_list(self.current_list)
    }

    /// Re-clamp the task index against the focused column's length.
    pub fn _check_cursor_position(&mut self)
        requires
            old(self).current_list < old(self).lists@.len(),
        ensures
            final(self)@ == spec_clamp(old(self)@),
    {
        let len = self.lists[self.current_list].tasks.len();
        if len == 0 {
            self.current_task = 0;
        } else if self.current_task >= len {
            self.current_task = len - 1;
        }
        proof {
            assert(self@ =~= spec_clamp(old(self)@));
        }
    }

    /// Move the cursor one step; no wraparound, and the task index is
    /// re-clamped against the column it lands in.
    pub fn move_cursor(&mut self, d: Direction)
        requires
            old(self).wf(),
            !old(self).editing,
        ensures
            final(self).wf(),
            final(self)@ == spec_move_cursor(old(self)@, d),
    {
        let n_lists = self.lists.len();
        match d {
            Direction::Left => {
                if self.current_list != 0 {
                    self.current_list = self.current_list - 1;
                }
            },
            Direction::Right => {
                if self.current_list + 1 < n_lists {
                    self.current_list = self.current_list + 1;
                }
            },
            Direction::Up => {
                if self.current_task != 0 {
                    self.current_task = self.current_task - 1;
                }
            },
            Direction::Down => {
                let len = self.lists[self.current_list].tasks.len();
                if self.current_task + 1 < len {
                    self.current_task = self.current_task + 1;
                }
            },
        }
        self._check_cursor_position();
        proof {
            assert(self@ =~~= spec_move_cursor(old(self)@, d));
        }
    }

    /// Insert `text` into the column at `column_index` at position
    /// `at_index`, shifting the tasks after it right. The cursor and the
    /// edit flag are untouched; callers re-clamp where needed.
    pub fn insert_task(&mut self, column_index: usize, at_index: usize, text: String)
        requires
            column_index < old(self).lists@.len(),
            at_index <= old(self)@.lists[column_index as int].tasks.len(),
        ensures
            final(self)@ == (AbsTodos {
                lists: old(self)@.lists.update(
                    column_index as int,
                    AbsList {
                        tasks: old(self)@.lists[column_index as int].tasks.insert(
                            at_index as int,
                            text@,
                        ),
                        ..old(self)@.lists[column_index as int]
                    },
                ),
                ..old(self)@
            }),
    {
        self.lists[column_index].tasks.insert(at_index, text);
        proof {
            assert(self@.lists =~~= old(self)@.lists.update(
                column_index as int,
                AbsList {
                    tasks: old(self)@.lists[column_index as int].tasks.insert(
                        at_index as int,
                        text@,
                    ),
                    ..old(self)@.lists[column_index as int]
                },
            ));
        }
    }

    /// Remove and return the task at `index` of the column at
    /// `column_index`, shifting the tasks after it left. The cursor and the
    /// edit flag are untouched; callers re-clamp where needed.
    pub fn remove_task(&mut self, column_index: usize, index: usize) -> (r: String)
        requires
            column_index < old(self).lists@.len(),
            index < old(self)@.lists[column_index as int].tasks.len(),
        ensures
            final(self)@ == (AbsTodos {
                lists: old(self)@.lists.update(
                    column_index as int,
                    AbsList {
                        tasks: old(self)@.lists[column_index as int].tasks.remove(index as int),
                        ..old(self)@.lists[column_index as int]
                    },
                ),
                ..old(self)@
            }),
            r@ == old(self)@.lists[column_index as int].tasks[index as int],
    {
        let r = self.lists[column_index].tasks.remove(index);
        proof {
            assert(self@.lists =~~= old(self)@.lists.update(
                column_index as int,
                AbsList {
                    tasks: old(self)@.lists[column_index as int].tasks.remove(index as int),
                    ..old(self)@.lists[column_index as int]
                },
            ));
        }
        r
    }

    /// Exchange the tasks at `i` and `j` of the column at `column_index`;
    /// a no-op when `i == j`. The cursor and the edit flag are untouched.
    pub fn swap_tasks(&mut self, column_index: usize, i: usize, j: usize)
        requires
            column_index < old(self).lists@.len(),
            i < old(self)@.lists[column_index as int].tasks.len(),
            j < old(self)@.lists[column_index as int].tasks.len(),
        ensures
            final(self)@ == (AbsTodos {
                lists: old(self)@.lists.update(
                    column_index as int,
                    AbsList {
                        tasks: old(self)@.lists[column_index as int].tasks.update(
                            i as int,
                            old(self)@.lists[column_index as int].tasks[j as int],
                        ).update(j as int, old(self)@.lists[column_index as int].tasks[i as int]),
                        ..old(self)@.lists[column_index as int]
                    },
                ),
                ..old(self)@
            }),
    {
        let a = self.lists[column_index].tasks[i].clone();
        let b = self.lists[column_index].tasks[j].clone();
        self.lists[column_index].tasks[i] = b;
        self.lists[column_index].tasks[j] = a;
        proof {
            assert(self@ =~~= (AbsTodos {
                lists: old(self)@.lists.update(
                    column_index as int,
                    AbsList {
                        tasks: old(self)@.lists[column_index as int].tasks.update(
                            i as int,
                            old(self)@.lists[column_index as int].tasks[j as int],
                        ).update(j as int, old(self)@.lists[column_index as int].tasks[i as int]),
                        ..old(self)@.lists[column_index as int]
                    },
                ),
                ..old(self)@
            }));
        }
    }

    /// Insert a fresh empty task: at index 0 if the focused column is empty,
    /// otherwise immediately after the cursor; the cursor moves to it.
    pub fn add_task(&mut self)
        requires
            old(self).wf(),
            !old(self).editing,
        ensures
            final(self).wf(),
            final(self)@ == spec_add_task(old(self)@),
    {
        let ci = self.current_list;
        let at = if self.lists[ci].tasks.len() == 0 {
            0
        } else {
            self.current_task + 1
        };
        self.insert_task(ci, at, String::new());
        self.current_task = at;
        proof {
            assert(self@ =~~= spec_add_task(old(self)@));
        }
    }

    /// Remove and return the focused task's text, re-clamping the cursor.
    pub fn delete_task(&mut self) -> (r: String)
        requires
            old(self).wf(),
            !old(self).editing,
            focused_tasks(old(self)@).len() > 0,
        ensures
            final(self).wf(),
            final(self)@ == spec_delete_task(old(self)@),
            r@ == focused_tasks(old(self)@)[old(self)@.cur_task],
    {
        let ci = self.current_list;
        let ti = self.current_task;
        let r = self.remove_task(ci, ti);
        proof {
            assert(self.lists@.len() == self@.lists.len());
            assert(self@.lists.len() == old(self)@.lists.len());
        }
        self._check_cursor_position();
        proof {
            assert(self@ =~~= spec_delete_task(old(self)@));
        }
        r
    }

    /// Move the focused task: up/down exchanges it with its neighbour in the
    /// same column (the cursor follows it), left/right appends it to the end
    /// of the adjacent column. At a structural edge nothing changes.
    pub fn move_task(&mut self, d: Direction)
        requires
            old(self).wf(),
            !old(self).editing,
            focused_tasks(old(self)@).len() > 0,
        ensures
            final(self).wf(),
            final(self)@ == spec_move_task(old(self)@, d),
    {
        let ci = self.current_list;
        let ti = self.current_task;
        match d {
            Direction::Up => {
                if ti != 0 {
                    self.swap_tasks(ci, ti, ti - 1);
                    self.current_task = ti - 1;
                }
            },
            Direction::Down => {
                let len = self.lists[ci].tasks.len();
                if ti + 1 < len {
                    self.swap_tasks(ci, ti, ti + 1);
                    self.current_task = ti + 1;
                }
            },
            Direction::Left => {
                if ci != 0 {
                    let item = self.remove_task(ci, ti);
                    proof {
                        assert(self.lists@.len() == self@.lists.len());
                        assert(self@.lists.len() == old(self)@.lists.len());
                    }
                    let end = self.lists[ci - 1].tasks.len();
                    self.insert_task(ci - 1, end, item);
                    proof {
                        assert(self.lists@.len() == self@.lists.len());
                        assert(self@.lists.len() == old(self)@.lists.len());
                    }
                    self._check_cursor_position();
                }
            },
            Direction::Right => {
                let n_lists = self.lists.len();
                if ci + 1 < n_lists {
                    let item = self.remove_task(ci, ti);
                    proof {
                        assert(self.lists@.len() == self@.lists.len());
                        assert(self@.lists.len() == old(self)@.lists.len());
                    }
                    let end = self.lists[ci + 1].tasks.len();
                    self.insert_task(ci + 1, end, item);
                    proof {
                        assert(self.lists@.len() == self@.lists.len());
                        assert(self@.lists.len() == old(self)@.lists.len());
                    }
                    self._check_cursor_position();
                }
            },
        }
        proof {
            assert(self@ =~~= spec_move_task(old(self)@, d));
        }
    }

    /// Append one character to the focused task's text (the edit buffer).
    pub fn edit_append(&mut self, c: char)
        requires
            old(self).wf(),
            old(self).editing,
        ensures
            final(self).wf(),
            final(self)@ == spec_edit_append(old(self)@, c),
    {
        let ti = self.current_task;
        let ci = self.current_list;
        crate::text::push_char(&mut self.lists[ci].tasks[ti], c);
        proof {
            assert(self@ =~~= spec_edit_append(old(self)@, c));
        }
    }

    /// Remove the last character of the focused task's text; an already
    /// empty text is left unchanged.
    pub fn edit_backspace(&mut self)
        requires
            old(self).wf(),
            old(self).editing,
        ensures
            final(self).wf(),
            final(self)@ == spec_edit_backspace(old(self)@),
    {
        let ti = self.current_task;
        let ci = self.current_list;
        crate::text::pop_char(&mut self.lists[ci].tasks[ti]);
        proof {
            assert(self@ =~~= spec_edit_backspace(old(self)@));
        }
    }
}

} // verus!
