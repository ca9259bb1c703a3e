use task_board::board::{TaskList, Todos};
use task_board::step::{Action, Key};

fn board(cols: Vec<(&str, Vec<&str>)>, cur_list: usize, cur_task: usize) -> Todos {
    let lists = cols
        .into_iter()
        .map(|(name, tasks)| TaskList {
            name: name.to_string(),
            tasks: tasks.into_iter().map(|t| t.to_string()).collect(),
        })
        .collect();
    Todos { lists, current_list: cur_list, current_task: cur_task, editing: false }
}

#[test]
fn scenario_reorder_then_move_right() {
    // Backlog: ["a", "b"], Done: [], cursor on Backlog/0.
    let mut t = board(vec![("Backlog", vec!["a", "b"]), ("Done", vec![])], 0, 0);
    let a1 = t.handle_key(Key::Down, true);
    assert_eq!(a1, Action::Stay);
    assert_eq!(t.lists[0].tasks, vec!["b", "a"]);
    assert_eq!(t.current_task, 1);
    let a2 = t.handle_key(Key::Right, true);
    assert_eq!(a2, Action::Stay);
    assert_eq!(t.lists[0].tasks, vec!["b"]);
    assert_eq!(t.lists[1].tasks, vec!["a"]);
}

#[test]
fn scenario_insert_type_commit() {
    // Empty column: 'i' inserts an empty task and enters edit mode.
    let mut t = board(vec![("A", vec![])], 0, 0);
    let a1 = t.handle_key(Key::Char('i'), false);
    assert_eq!(a1, Action::Stay);
    assert_eq!(t.lists[0].tasks, vec!["".to_string()]);
    assert!(t.editing);
    assert_eq!(t.current_task, 0);
    t.handle_key(Key::Char('x'), false);
    t.handle_key(Key::Char('y'), false);
    assert_eq!(t.lists[0].tasks, vec!["xy"]);
    let a2 = t.handle_key(Key::Enter, false);
    assert_eq!(a2, Action::Save);
    assert!(!t.editing);
    assert_eq!(t.lists[0].tasks, vec!["xy"]);
}

#[test]
fn insert_then_cancel_restores_column() {
    let mut t = board(vec![("A", vec!["a", "b"])], 0, 0);
    t.handle_key(Key::Char('i'), false);
    assert_eq!(t.lists[0].tasks, vec!["a", "", "b"]);
    assert!(t.editing);
    let a = t.handle_key(Key::Enter, false);
    assert_eq!(a, Action::Save);
    assert_eq!(t.lists[0].tasks, vec!["a", "b"]);
    assert!(!t.editing);
    assert_eq!(t.current_task, 1);
}

#[test]
fn insert_then_cancel_on_empty_column() {
    let mut t = board(vec![("A", vec![])], 0, 0);
    t.handle_key(Key::Char('i'), false);
    t.handle_key(Key::Enter, false);
    assert!(t.lists[0].tasks.is_empty());
    assert!(!t.editing);
    assert_eq!(t.current_task, 0);
}

#[test]
fn quit_saves_and_quits_only_while_navigating() {
    let mut t = board(vec![("A", vec!["a"])], 0, 0);
    assert_eq!(t.handle_key(Key::Char('q'), false), Action::SaveAndQuit);
    // While editing, 'q' is a literal character.
    t.handle_key(Key::Enter, false);
    assert!(t.editing);
    assert_eq!(t.handle_key(Key::Char('q'), false), Action::Stay);
    assert_eq!(t.lists[0].tasks, vec!["aq"]);
}

#[test]
fn backspace_edits_and_is_noop_on_empty_text() {
    let mut t = board(vec![("A", vec!["ab"])], 0, 0);
    t.handle_key(Key::Enter, false);
    assert!(t.editing);
    t.handle_key(Key::Backspace, false);
    assert_eq!(t.lists[0].tasks, vec!["a"]);
    t.handle_key(Key::Backspace, false);
    assert_eq!(t.lists[0].tasks, vec![""]);
    t.handle_key(Key::Backspace, false);
    assert_eq!(t.lists[0].tasks, vec![""]);
}

#[test]
fn enter_on_empty_column_is_noop() {
    let mut t = board(vec![("A", vec![])], 0, 0);
    assert_eq!(t.handle_key(Key::Enter, false), Action::Stay);
    assert!(!t.editing);
    assert!(t.lists[0].tasks.is_empty());
}

#[test]
fn enter_commit_removes_emptied_task() {
    let mut t = board(vec![("A", vec!["ab", "c"])], 0, 0);
    t.handle_key(Key::Enter, false);
    t.handle_key(Key::Backspace, false);
    t.handle_key(Key::Backspace, false);
    let a = t.handle_key(Key::Enter, false);
    assert_eq!(a, Action::Save);
    assert_eq!(t.lists[0].tasks, vec!["c"]);
    assert!(!t.editing);
    assert_eq!(t.current_task, 0);
}

#[test]
fn alt_delete_saves_and_removes() {
    let mut t = board(vec![("A", vec!["a", "b"])], 0, 0);
    let a = t.handle_key(Key::Char('d'), true);
    assert_eq!(a, Action::Save);
    assert_eq!(t.lists[0].tasks, vec!["b"]);
}

#[test]
fn alt_keys_ignored_when_editing_or_empty() {
    let mut t = board(vec![("A", vec![]), ("B", vec!["x"])], 0, 0);
    // Empty focused column: alt-moves and alt-delete do nothing.
    assert_eq!(t.handle_key(Key::Right, true), Action::Stay);
    assert_eq!(t.handle_key(Key::Char('d'), true), Action::Stay);
    assert!(t.lists[1].tasks == vec!["x"]);
    // While editing, alt combinations do nothing, not even typing.
    let mut t2 = board(vec![("A", vec!["a"])], 0, 0);
    t2.handle_key(Key::Enter, false);
    assert!(t2.editing);
    assert_eq!(t2.handle_key(Key::Char('d'), true), Action::Stay);
    assert_eq!(t2.lists[0].tasks, vec!["a"]);
    assert_eq!(t2.handle_key(Key::Up, true), Action::Stay);
    assert_eq!(t2.lists[0].tasks, vec!["a"]);
}

#[test]
fn arrows_ignored_while_editing() {
    let mut t = board(vec![("A", vec!["a", "b"])], 0, 0);
    t.handle_key(Key::Enter, false);
    assert_eq!(t.handle_key(Key::Down, false), Action::Stay);
    assert_eq!(t.current_task, 0);
    assert!(t.editing);
}

#[test]
fn unbound_keys_do_nothing() {
    let mut t = board(vec![("A", vec!["a"])], 0, 0);
    assert_eq!(t.handle_key(Key::Other, false), Action::Stay);
    assert_eq!(t.handle_key(Key::Char('z'), false), Action::Stay);
    assert_eq!(t.handle_key(Key::Other, true), Action::Stay);
    assert_eq!(t.lists[0].tasks, vec!["a"]);
    assert!(!t.editing);
}

#[test]
fn navigation_moves_cursor() {
    let mut t = board(vec![("A", vec!["a", "b"]), ("B", vec!["x"])], 0, 0);
    t.handle_key(Key::Down, false);
    assert_eq!(t.current_task, 1);
    t.handle_key(Key::Up, false);
    assert_eq!(t.current_task, 0);
    t.handle_key(Key::Right, false);
    assert_eq!(t.current_list, 1);
    t.handle_key(Key::Left, false);
    assert_eq!(t.current_list, 0);
}
