use task_board::board::{Direction, TaskList, Todos};

fn board(cols: Vec<(&str, Vec<&str>)>, cur_list: usize, cur_task: usize) -> Todos {
    let lists = cols
        .into_iter()
        .map(|(name, tasks)| TaskList {
            name: name.to_string(),
            tasks: tasks.into_iter().map(|t| t.to_string()).collect(),
        })
        .collect();
    Todos { lists, current_list: cur_list, current_task: cur_task, editing: false }
}

fn total(t: &Todos) -> usize {
    t.lists.iter().map(|l| l.tasks.len()).sum()
}

#[test]
fn new_board_is_empty() {
    let t = Todos::new();
    assert_eq!(t.lists.len(), 0);
    assert_eq!(t.current_list, 0);
    assert_eq!(t.current_task, 0);
    assert!(!t.editing);
}

#[test]
fn default_board_columns() {
    let t = Todos::default_board();
    assert_eq!(t.lists.len(), 3);
    assert_eq!(t.get_list(0).name, "Backlog");
    assert_eq!(t.get_list(1).name, "In Progress");
    assert_eq!(t.get_list(2).name, "Done");
    assert_eq!(t.current_list, 1);
    assert_eq!(t.get_current_list().name, "In Progress");
    assert_eq!(t.current_task, 0);
    assert!(!t.editing);
    for l in &t.lists {
        assert!(l.tasks.is_empty());
    }
}

#[test]
fn from_lists_empty_is_none() {
    assert!(Todos::from_lists(Vec::new(), 0).is_none());
}

#[test]
fn from_lists_clamps_initial_column() {
    let t = board(vec![("A", vec![]), ("B", vec![])], 0, 0);
    let got = Todos::from_lists(t.lists, 5).unwrap();
    assert_eq!(got.current_list, 0);
    let t2 = board(vec![("A", vec![]), ("B", vec![])], 0, 0);
    let got2 = Todos::from_lists(t2.lists, 1).unwrap();
    assert_eq!(got2.current_list, 1);
}

#[test]
fn add_task_into_empty_column() {
    let mut t = board(vec![("A", vec![])], 0, 0);
    t.add_task();
    assert_eq!(t.lists[0].tasks, vec!["".to_string()]);
    assert_eq!(t.current_task, 0);
}

#[test]
fn add_task_inserts_after_cursor() {
    let mut t = board(vec![("A", vec!["a", "b", "c"])], 0, 1);
    t.add_task();
    assert_eq!(t.lists[0].tasks, vec!["a", "b", "", "c"]);
    assert_eq!(t.current_task, 2);
}

#[test]
fn delete_task_returns_text_and_clamps() {
    let mut t = board(vec![("A", vec!["a", "b"])], 0, 1);
    let removed = t.delete_task();
    assert_eq!(removed, "b");
    assert_eq!(t.lists[0].tasks, vec!["a"]);
    assert_eq!(t.current_task, 0);
}

#[test]
fn delete_last_task_resets_cursor() {
    let mut t = board(vec![("A", vec!["only"])], 0, 0);
    let removed = t.delete_task();
    assert_eq!(removed, "only");
    assert!(t.lists[0].tasks.is_empty());
    assert_eq!(t.current_task, 0);
}

#[test]
fn cursor_edges_are_noops() {
    let mut t = board(vec![("A", vec!["a"]), ("B", vec![])], 0, 0);
    t.move_cursor(Direction::Left);
    assert_eq!((t.current_list, t.current_task), (0, 0));
    t.move_cursor(Direction::Up);
    assert_eq!((t.current_list, t.current_task), (0, 0));
    t.move_cursor(Direction::Down);
    assert_eq!((t.current_list, t.current_task), (0, 0));
    t.current_list = 1;
    t.move_cursor(Direction::Right);
    assert_eq!((t.current_list, t.current_task), (1, 0));
}

#[test]
fn cursor_reclamps_when_changing_column() {
    let mut t = board(vec![("A", vec!["a", "b", "c"]), ("B", vec!["x"])], 0, 2);
    t.move_cursor(Direction::Right);
    assert_eq!(t.current_list, 1);
    assert_eq!(t.current_task, 0);
}

#[test]
fn move_task_swaps_within_column() {
    let mut t = board(vec![("A", vec!["a", "b"])], 0, 0);
    t.move_task(Direction::Down);
    assert_eq!(t.lists[0].tasks, vec!["b", "a"]);
    assert_eq!(t.current_task, 1);
    t.move_task(Direction::Up);
    assert_eq!(t.lists[0].tasks, vec!["a", "b"]);
    assert_eq!(t.current_task, 0);
}

#[test]
fn move_task_reorder_edges_are_noops() {
    let mut t = board(vec![("A", vec!["a", "b"])], 0, 0);
    t.move_task(Direction::Up);
    assert_eq!(t.lists[0].tasks, vec!["a", "b"]);
    assert_eq!(t.current_task, 0);
    t.current_task = 1;
    t.move_task(Direction::Down);
    assert_eq!(t.lists[0].tasks, vec!["a", "b"]);
    assert_eq!(t.current_task, 1);
}

#[test]
fn move_task_transfers_to_adjacent_column_end() {
    let mut t = board(vec![("A", vec!["a", "b"]), ("B", vec!["x"])], 0, 0);
    let before = total(&t);
    t.move_task(Direction::Right);
    assert_eq!(t.lists[0].tasks, vec!["b"]);
    assert_eq!(t.lists[1].tasks, vec!["x", "a"]);
    assert_eq!(total(&t), before);
    assert_eq!(t.current_list, 0);
    assert_eq!(t.current_task, 0);
}

#[test]
fn move_task_left_appends_and_clamps() {
    let mut t = board(vec![("A", vec!["x"]), ("B", vec!["a", "b"])], 1, 1);
    let before = total(&t);
    t.move_task(Direction::Left);
    assert_eq!(t.lists[0].tasks, vec!["x", "b"]);
    assert_eq!(t.lists[1].tasks, vec!["a"]);
    assert_eq!(total(&t), before);
    assert_eq!(t.current_task, 0);
}

#[test]
fn move_task_board_edges_are_noops() {
    let mut t = board(vec![("A", vec!["a"]), ("B", vec!["b"])], 0, 0);
    t.move_task(Direction::Left);
    assert_eq!(t.lists[0].tasks, vec!["a"]);
    assert_eq!(t.lists[1].tasks, vec!["b"]);
    assert_eq!((t.current_list, t.current_task), (0, 0));
    t.current_list = 1;
    t.move_task(Direction::Right);
    assert_eq!(t.lists[0].tasks, vec!["a"]);
    assert_eq!(t.lists[1].tasks, vec!["b"]);
    assert_eq!((t.current_list, t.current_task), (1, 0));
}

#[test]
fn check_cursor_position_clamps() {
    let mut t = board(vec![("A", vec!["a", "b"])], 0, 0);
    t.current_task = 9;
    t._check_cursor_position();
    assert_eq!(t.current_task, 1);
    t.lists[0].tasks.clear();
    t._check_cursor_position();
    assert_eq!(t.current_task, 0);
}

#[test]
fn insert_task_shifts_right() {
    let mut t = board(vec![("A", vec!["a", "c"])], 0, 0);
    t.insert_task(0, 1, "b".to_string());
    assert_eq!(t.lists[0].tasks, vec!["a", "b", "c"]);
    assert_eq!(t.current_task, 0);
}

#[test]
fn remove_task_returns_text() {
    let mut t = board(vec![("A", vec!["a", "b", "c"])], 0, 0);
    let got = t.remove_task(0, 1);
    assert_eq!(got, "b");
    assert_eq!(t.lists[0].tasks, vec!["a", "c"]);
}

#[test]
fn swap_tasks_exchanges_positions() {
    let mut t = board(vec![("A", vec!["a", "b", "c"])], 0, 0);
    t.swap_tasks(0, 0, 2);
    assert_eq!(t.lists[0].tasks, vec!["c", "b", "a"]);
}

#[test]
fn swap_tasks_same_index_is_noop() {
    let mut t = board(vec![("A", vec!["a", "b"])], 0, 0);
    t.swap_tasks(0, 1, 1);
    assert_eq!(t.lists[0].tasks, vec!["a", "b"]);
}
