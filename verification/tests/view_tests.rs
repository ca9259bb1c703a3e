use task_board::board::{TaskList, Todos};
use task_board::step::Key;
use task_board::view::{build_view, Highlight};

fn board(cols: Vec<(&str, Vec<&str>)>, cur_list: usize, cur_task: usize) -> Todos {
    let lists = cols
        .into_iter()
        .map(|(name, tasks)| TaskList {
            name: name.to_string(),
            tasks: tasks.into_iter().map(|t| t.to_string()).collect(),
        })
        .collect();
    Todos { lists, current_list: cur_list, current_task: cur_task, editing: false }
}

#[test]
fn view_titles_and_tasks() {
    let t = board(vec![("A", vec!["a", "b"]), ("B", vec!["x"])], 0, 1);
    let vm = build_view(&t);
    assert_eq!(vm.titles.len(), 2);
    assert_eq!(vm.titles[0].name, "A");
    assert_eq!(vm.titles[0].count, 2);
    assert!(vm.titles[0].selected);
    assert_eq!(vm.titles[1].name, "B");
    assert_eq!(vm.titles[1].count, 1);
    assert!(!vm.titles[1].selected);
    assert_eq!(vm.tasks.len(), 2);
    assert_eq!(vm.tasks[0].text, "a");
    assert_eq!(vm.tasks[0].highlight, Highlight::Plain);
    assert_eq!(vm.tasks[1].text, "b");
    assert_eq!(vm.tasks[1].highlight, Highlight::Focused);
}

#[test]
fn view_marks_editing_task() {
    let mut t = board(vec![("A", vec!["a"])], 0, 0);
    t.handle_key(Key::Enter, false);
    assert!(t.editing);
    let vm = build_view(&t);
    assert_eq!(vm.tasks[0].highlight, Highlight::Editing);
}

#[test]
fn view_of_empty_focused_column() {
    let t = board(vec![("A", vec![]), ("B", vec!["x"])], 0, 0);
    let vm = build_view(&t);
    assert_eq!(vm.titles.len(), 2);
    assert_eq!(vm.titles[0].count, 0);
    assert!(vm.tasks.is_empty());
}
