//! The keyboard interpreter: one key press, in the current mode, becomes one
//! board/cursor/edit operation. Reorder, move and delete need a held
//! modifier; while editing, plain characters feed the focused task's text.

use vstd::prelude::*;
use crate::board::{
    AbsTodos, Direction, Todos, focused_tasks, spec_add_task, spec_delete_task,
    spec_edit_append, spec_edit_backspace, spec_move_cursor, spec_move_task,
};

verus! {

/// A key press, already stripped of everything the interpreter does not
/// read. `Other` stands for any key with no binding.
#[derive(Clone, Copy, PartialEq, Eq, Structural, Debug)]
pub enum Key {
    Up,
    Down,
    Left,
    Right,
    Enter,
    Backspace,
    Char(char),
    Other,
}

/// What the caller owes after a step: nothing, a save of the board, or a
/// save followed by the end of the session.
#[derive(Clone, Copy, PartialEq, Eq, Structural, Debug)]
pub enum Action {
    Stay,
    Save,
    SaveAndQuit,
}

/// Insertion of a fresh task together with the switch into edit mode.
pub open spec fn spec_begin_insert(s: AbsTodos) -> AbsTodos {
    AbsTodos { editing: true, ..spec_add_task(s) }
}

/// Commit of an edit: an exactly empty focused text is removed (a cancelled
/// insert) and the cursor re-clamped; any other text is kept. Edit mode ends.
pub open spec fn spec_commit(s: AbsTodos) -> AbsTodos {
    let kept = if focused_tasks(s)[s.cur_task].len() == 0 {
        spec_delete_task(s)
    } else {
        s
    };
    AbsTodos { editing: false, ..kept }
}

/// The state machine: the state after one key press, and what the caller
/// owes for it. Modifier-held keys reorder, move or delete, and only while
/// navigating a non-empty column; while editing, characters and backspace
/// feed the focused text and enter commits; while navigating, arrows move
/// the cursor, 'i' inserts, 'q' quits, and enter re-enters edit mode on a
/// focused task.
pub open spec fn spec_step(s: AbsTodos, key: Key, alt: bool) -> (AbsTodos, Action) {
    if alt {
        if focused_tasks(s).len() == 0 || s.editing {
            (s, Action::Stay)
        } else {
            match key {
                Key::Up => (spec_move_task(s, Direction::Up), Action::Stay),
                Key::Down => (spec_move_task(s, Direction::Down), Action::Stay),
                Key::Left => (spec_move_task(s, Direction::Left), Action::Stay),
                Key::Right => (spec_move_task(s, Direction::Right), Action::Stay),
                Key::Char(c) => if c == 'd' {
                    (spec_delete_task(s), Action::Save)
                } else {
                    (s, Action::Stay)
                },
                _ => (s, Action::Stay),
            }
        }
    } else if s.editing {
        match key {
            Key::Char(c) => (spec_edit_append(s, c), Action::Stay),
            Key::Backspace => (spec_edit_backspace(s), Action::Stay),
            Key::Enter => (spec_commit(s), Action::Save),
            _ => (s, Action::Stay),
        }
    } else {
        match key {
            Key::Up => (spec_move_cursor(s, Direction::Up), Action::Stay),
            Key::Down => (spec_move_cursor(s, Direction::Down), Action::Stay),
            Key::Left => (spec_move_cursor(s, Direction::Left), Action::Stay),
            Key::Right => (spec_move_cursor(s, Direction::Right), Action::Stay),
            Key::Char(c) => if c == 'q' {
                (s, Action::SaveAndQuit)
            } else if c == 'i' {
                (spec_begin_insert(s), Action::Stay)
            } else {
                (s, Action::Stay)
            },
            Key::Enter => if focused_tasks(s).len() == 0 {
                (s, Action::Stay)
            } else {
                (AbsTodos { editing: true, ..s }, Action::Stay)
            },
            _ => (s, Action::Stay),
        }
    }
}

impl Todos {
    /// Interpret one key press: mutate the board, cursor and edit state as
    /// `spec_step` describes and return what the caller owes (a save, a save
    /// and quit, or nothing).
    pub fn handle_key(&mut self, key: Key, alt: bool) -> (a: Action)
        requires
            old(self).wf(),
        ensures
            final(self).wf(),
            final(self)@ == spec_step(old(self)@, key, alt).0,
            a == spec_step(old(self)@, key, alt).1,
    {
        if alt {
            let focused_len = self.lists[self.current_list].tasks.len();
            if focused_len == 0 || self.editing {
                return Action::Stay;
            }
            match key {
                Key::Up => {
                    self.move_task(Direction::Up);
                    Action::Stay
                },
                Key::Down => {
                    self.move_task(Direction::Down);
                    Action::Stay
                },
                Key::Left => {
                    self.move_task(Direction::Left);
                    Action::Stay
                },
                Key::Right => {
                    self.move_task(Direction::Right);
                    Action::Stay
                },
                Key::Char(c) => {
                    if c == 'd' {
                        let _removed = self.delete_task();
                        Action::Save
                    } else {
                        Action::Stay
                    }
                },
                _ => Action::Stay,
            }
        } else if self.editing {
            match key {
                Key::Char(c) => {
                    self.edit_append(c);
                    Action::Stay
                },
                Key::Backspace => {
                    self.edit_backspace();
                    Action::Stay
                },
                Key::Enter => {
                    self.editing = false;
                    let ti = self.current_task;
                    if self.lists[self.current_list].tasks[ti].as_str().is_empty() {
                        let _removed = self.delete_task();
                    }
                    proof {
                        assert(self@ =~~= spec_commit(old(self)@));
                    }
                    Action::Save
                },
                _ => Action::Stay,
            }
        } else {
            match key {
                Key::Up => {
                    self.move_cursor(Direction::Up);
                    Action::Stay
                },
                Key::Down => {
                    self.move_cursor(Direction::Down);
                    Action::Stay
                },
                Key::Left => {
                    self.move_cursor(Direction::Left);
                    Action::Stay
                },
                Key::Right => {
                    self.move_cursor(Direction::Right);
                    Action::Stay
                },
                Key::Char(c) => {
                    if c == 'q' {
                        Action::SaveAndQuit
                    } else if c == 'i' {
                        self.add_task();
                        self.editing = true;
                        proof {
                            assert(self@ =~~= spec_begin_insert(old(self)@));
                        }
                        Action::Stay
                    } else {
                        Action::Stay
                    }
                },
                Key::Enter => {
                    let focused_len = self.lists[self.current_list].tasks.len();
                    if focused_len != 0 {
                        self.editing = true;
                    }
                    Action::Stay
                },
                _ => Action::Stay,
            }
        }
    }
}

} // verus!
