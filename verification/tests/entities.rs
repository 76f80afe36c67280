use taskstore::subtask::Subtask;
use taskstore::task::{has_validation_gap, Task};
use taskstore::task_element::TaskElement;
use taskstore::task_group::TaskGroup;

#[test]
fn test_task_new() {
    let task = Task::new();
    assert_eq!(task.completed, false);
    assert_eq!(task.description, "No description.");
    assert_eq!(task.details, None);
    assert!(task.subtasks.is_empty());
    assert_eq!(task.progress, 0);
    assert_ne!(task.id, 0);
    assert!(task.created_at <= chrono::Local::now().timestamp_millis());
    assert!(task.updated_at.is_none());
    assert!(task.deleted_at.is_none());
}

#[test]
fn test_subtask_new() {
    let subtask = Subtask::new();
    assert_eq!(subtask.order, 0);
    assert_eq!(subtask.description, "");
    assert!(!subtask.completed);
}

#[test]
fn test_task_group_new() {
    let task_group = TaskGroup::new();
    assert_eq!(task_group.name, "");
    assert!(task_group.tasks.is_empty());
}

#[test]
fn fresh_ids_differ() {
    let a = Task::new();
    let b = Task::new();
    assert_ne!(a.id, b.id);
}

#[test]
fn add_and_remove_subtask() {
    let mut task = Task::new();
    let mut s1 = Subtask::new();
    s1.description = "first".to_string();
    let s1_id = s1.id;
    let mut s2 = Subtask::new();
    s2.description = "second".to_string();
    task.add_subtask(s1);
    task.add_subtask(s2);
    assert_eq!(task.subtasks.len(), 2);
    task.remove_subtask(s1_id);
    assert_eq!(task.subtasks.len(), 1);
    assert_eq!(task.subtasks[0].description, "second");
}

#[test]
fn group_add_and_remove_task() {
    let mut group = TaskGroup::new();
    group.add_task(7);
    group.add_task(9);
    group.add_task(7);
    assert_eq!(group.tasks, vec![7, 9, 7]);
    group.remove_task(7);
    assert_eq!(group.tasks, vec![9]);
}

#[test]
fn update_refreshes_and_delete_is_permanent() {
    let mut task = Task::new();
    task.update_updated_at();
    let updated = task.updated_at.expect("updated instant set");
    assert!(updated >= task.created_at);

    let mut subtask = Subtask::new();
    subtask.deleted_at = Some(42);
    subtask.set_deleted();
    assert_eq!(subtask.deleted_at, Some(42));
}

#[test]
fn task_element_builder() {
    let e = TaskElement::default();
    assert_eq!(e.description, "No description.");
    assert_eq!(e.details, None);
    let e = e.update_description("Write docs".to_string());
    assert_eq!(e.description, "Write docs");
    let e = e.update_details("by Friday".to_string());
    assert_eq!(e.description, "Write docs");
    assert_eq!(e.details, Some("by Friday".to_string()));
}

#[test]
fn validation_gaps_are_flagged_not_rejected() {
    let mut task = Task::new();
    assert!(!has_validation_gap(&task));
    task.progress = 150;
    assert!(has_validation_gap(&task));
    task.progress = 50;
    task.start_datetime = Some(10);
    task.end_datetime = Some(5);
    assert!(has_validation_gap(&task));
    task.end_datetime = Some(10);
    assert!(!has_validation_gap(&task));
}
