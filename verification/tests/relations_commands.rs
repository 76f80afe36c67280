use taskstore::commands::{
    create_task, create_task_group, delete_task, delete_task_group, get_task_groups, get_tasks,
    update_task, update_task_group,
};
use taskstore::group_store::update_task_group_name;
use taskstore::storage::Storage;
use taskstore::subtask::Subtask;
use taskstore::task::Task;
use taskstore::task_group::TaskGroup;
use taskstore::task_store::save_task;
use taskstore::task_subtask::{
    get_subtask_ids_for_task, remove_rela_task_subtask, save_rela_task_subtask,
};
use taskstore::task_task_group::{
    get_task_id_from_task_group_id, remove_rela_task_task_group, save_rela_task_task_group,
};
use taskstore::StoreError;

const NOW: i64 = 1_700_000_000_000;

// Upserting the same relation pair twice leaves exactly one relation row.
#[test]
fn relation_upsert_is_idempotent() {
    let mut store = Storage::new();
    let mut task = Task::new();
    save_task(&mut store, &mut task, NOW).unwrap();
    let mut sub = Subtask::new();
    sub.save(&mut store, NOW).unwrap();

    save_rela_task_subtask(&mut store, task.id, sub.id).unwrap();
    save_rela_task_subtask(&mut store, task.id, sub.id).unwrap();

    let children = get_subtask_ids_for_task(&store, task.id);
    assert_eq!(children, vec![sub.id]);
}

#[test]
fn relation_remove_is_idempotent() {
    let mut store = Storage::new();
    let mut task = Task::new();
    save_task(&mut store, &mut task, NOW).unwrap();
    let mut sub = Subtask::new();
    sub.save(&mut store, NOW).unwrap();
    save_rela_task_subtask(&mut store, task.id, sub.id).unwrap();

    remove_rela_task_subtask(&mut store, task.id, sub.id);
    remove_rela_task_subtask(&mut store, task.id, sub.id);
    assert!(get_subtask_ids_for_task(&store, task.id).is_empty());
}

#[test]
fn relation_upsert_checks_both_ends() {
    let mut store = Storage::new();
    let mut task = Task::new();
    save_task(&mut store, &mut task, NOW).unwrap();
    assert_eq!(
        save_rela_task_subtask(&mut store, task.id, 999),
        Err(StoreError::NotFound)
    );
    assert_eq!(
        save_rela_task_task_group(&mut store, 999, task.id),
        Err(StoreError::NotFound)
    );
}

// Scenario: create group "Launch"; create task "Write docs" (no group);
// attach the task to the group. The group listing yields one group "Launch"
// whose member set contains the task id, and the task listing returns the
// task independent of group membership.
#[test]
fn group_membership_scenario() {
    let mut store = Storage::new();
    let groups = create_task_group(&mut store, "Launch".to_string()).unwrap();
    assert_eq!(groups.len(), 1);
    let group_id = groups[0].id;

    let tasks = create_task(&mut store, "Write docs".to_string(), None, None, None, None).unwrap();
    assert_eq!(tasks.len(), 1);
    let task_id = tasks[0].id;

    save_rela_task_task_group(&mut store, group_id, task_id).unwrap();

    let groups = get_task_groups(&store).unwrap();
    assert_eq!(groups.len(), 1);
    assert_eq!(groups[0].name, "Launch");
    assert!(groups[0].tasks.contains(&task_id));

    let tasks = get_tasks(&store).unwrap();
    assert_eq!(tasks.len(), 1);
    assert_eq!(tasks[0].id, task_id);
    assert_eq!(tasks[0].description, "Write docs");

    assert_eq!(
        get_task_id_from_task_group_id(&store, group_id),
        vec![task_id]
    );
    remove_rela_task_task_group(&mut store, group_id, task_id);
    assert!(get_task_id_from_task_group_id(&store, group_id).is_empty());
}

#[test]
fn create_task_attaches_to_named_group() {
    let mut store = Storage::new();
    let groups = create_task_group(&mut store, "Inbox".to_string()).unwrap();
    let group_id = groups[0].id;

    let tasks = create_task(
        &mut store,
        "triage".to_string(),
        Some("daily".to_string()),
        Some(100),
        Some(200),
        Some(group_id),
    )
    .unwrap();
    assert_eq!(tasks.len(), 1);
    assert_eq!(tasks[0].details, Some("daily".to_string()));
    assert_eq!(tasks[0].start_datetime, Some(100));
    assert_eq!(tasks[0].end_datetime, Some(200));
    let members = get_task_id_from_task_group_id(&store, group_id);
    assert_eq!(members, vec![tasks[0].id]);
}

#[test]
fn create_task_rejects_unknown_group() {
    let mut store = Storage::new();
    let r = create_task(&mut store, "lost".to_string(), None, None, None, Some(31));
    assert_eq!(r, Err(StoreError::NotFound));
    assert!(get_tasks(&store).unwrap().is_empty());
}

#[test]
fn update_and_delete_commands_round_trip() {
    let mut store = Storage::new();
    let tasks = create_task(&mut store, "one".to_string(), None, None, None, None).unwrap();
    let mut task = Task::new();
    task.id = tasks[0].id;
    task.created_at = tasks[0].created_at;
    task.description = "one, renamed".to_string();

    let listed = update_task(&mut store, task).unwrap();
    assert_eq!(listed.len(), 1);
    assert_eq!(listed[0].description, "one, renamed");

    let mut victim = Task::new();
    victim.id = listed[0].id;
    let listed = delete_task(&mut store, victim).unwrap();
    assert!(listed.is_empty());
}

#[test]
fn group_commands_round_trip() {
    let mut store = Storage::new();
    let groups = create_task_group(&mut store, "Alpha".to_string()).unwrap();
    let mut group = TaskGroup::new();
    group.id = groups[0].id;
    group.created_at = groups[0].created_at;
    group.name = "Beta".to_string();

    let listed = update_task_group(&mut store, group).unwrap();
    assert_eq!(listed.len(), 1);
    assert_eq!(listed[0].name, "Beta");

    let mut victim = TaskGroup::new();
    victim.id = listed[0].id;
    let listed = delete_task_group(&mut store, victim).unwrap();
    assert!(listed.is_empty());
}

#[test]
fn update_group_name_needs_stored_row() {
    let mut store = Storage::new();
    let mut group = TaskGroup::new();
    group.name = "ghost".to_string();
    assert_eq!(
        update_task_group_name(&mut store, &mut group, NOW),
        Err(StoreError::NotFound)
    );

    let groups = create_task_group(&mut store, "old name".to_string()).unwrap();
    let created_at = groups[0].created_at;
    let mut stored = TaskGroup::new();
    stored.id = groups[0].id;
    stored.name = "new name".to_string();
    update_task_group_name(&mut store, &mut stored, NOW).unwrap();
    let groups = get_task_groups(&store).unwrap();
    assert_eq!(groups.len(), 1);
    assert_eq!(groups[0].name, "new name");
    assert_eq!(groups[0].created_at, created_at);
}
