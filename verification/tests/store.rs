use taskstore::group_store::{load_all as load_all_groups, save_task_group};
use taskstore::storage::Storage;
use taskstore::subtask::Subtask;
use taskstore::task::Task;
use taskstore::task_group::TaskGroup;
use taskstore::task_store::{load_all, save_task, soft_delete_task};
use taskstore::task_subtask::save_rela_task_subtask;
use taskstore::StoreError;

const NOW: i64 = 1_700_000_000_000;

#[test]
fn test_task_save_and_load() {
    let mut store = Storage::new();

    let mut task = Task::new();
    task.description = "Test Task".to_string();
    task.completed = true;
    task.progress = 50;
    let mut sub = Subtask::new();
    sub.description = "child".to_string();
    task.subtasks = vec![sub];

    save_task(&mut store, &mut task, NOW).unwrap();

    let loaded_tasks = load_all(&store);
    assert!(loaded_tasks.len() >= 1);
    let loaded = loaded_tasks.iter().find(|t| t.id == task.id).unwrap();
    assert_eq!(loaded.description, "Test Task");
    assert_eq!(loaded.completed, true);
    assert_eq!(loaded.progress, 50);
    assert_eq!(loaded.subtasks.len(), 1);
}

#[test]
fn test_subtask_save_and_load() {
    let mut store = Storage::new();
    let mut task = Task::new();
    save_task(&mut store, &mut task, NOW).unwrap();

    let mut subtask = Subtask::new();
    subtask.description = "Test subtask".to_string();
    subtask.completed = true;

    subtask.save(&mut store, NOW).expect("Failed to save subtask");
    save_rela_task_subtask(&mut store, task.id, subtask.id).expect("Failed to relate subtask");
    let subtasks = Subtask::load_for_task(&store, task.id);

    assert_eq!(subtasks.len(), 1);
    assert_eq!(subtasks[0].description, "Test subtask");
    assert!(subtasks[0].completed);
}

#[test]
fn test_task_group_save_and_load() {
    let mut store = Storage::new();
    let mut task_group = TaskGroup::new();
    task_group.name = "Test Group".to_string();

    save_task_group(&mut store, &mut task_group, NOW).expect("Failed to save task group");
    let task_groups = load_all_groups(&store);

    assert_eq!(task_groups.len(), 1);
    assert_eq!(task_groups[0].name, "Test Group");
}

// Creating then loading yields a task with identical id and description and
// no delete instant.
#[test]
fn created_task_is_listed() {
    let mut store = Storage::new();
    let mut task = Task::new();
    task.description = "shopping".to_string();
    save_task(&mut store, &mut task, NOW).unwrap();

    let listed = load_all(&store);
    assert_eq!(listed.len(), 1);
    assert_eq!(listed[0].id, task.id);
    assert_eq!(listed[0].description, "shopping");
    assert!(listed[0].deleted_at.is_none());
}

// Soft-deleting a task removes it from the listing, but a direct subtask
// load for its id still returns its prior subtasks.
#[test]
fn soft_delete_retains_orphan_subtasks() {
    let mut store = Storage::new();
    let mut task = Task::new();
    let mut sub = Subtask::new();
    sub.description = "orphan".to_string();
    task.subtasks = vec![sub];
    save_task(&mut store, &mut task, NOW).unwrap();

    soft_delete_task(&mut store, &mut task, NOW + 1).unwrap();

    assert!(load_all(&store).is_empty());
    let orphans = Subtask::load_for_task(&store, task.id);
    assert_eq!(orphans.len(), 1);
    assert_eq!(orphans[0].description, "orphan");
}

// Saving a task twice with the same id and a changed description leaves
// exactly one task carrying the latest description.
#[test]
fn repeated_save_is_an_upsert() {
    let mut store = Storage::new();
    let mut task = Task::new();
    task.description = "draft".to_string();
    save_task(&mut store, &mut task, NOW).unwrap();

    task.description = "final wording".to_string();
    save_task(&mut store, &mut task, NOW + 5).unwrap();

    let listed = load_all(&store);
    assert_eq!(listed.len(), 1);
    assert_eq!(listed[0].id, task.id);
    assert_eq!(listed[0].description, "final wording");
}

// Schedule fields round-trip exactly through a save and a reload:
// start=2024-01-01, end=2024-01-10, progress=50.
#[test]
fn schedule_fields_round_trip() {
    let start: i64 = 1_704_067_200_000; // 2024-01-01T00:00:00Z
    let end: i64 = 1_704_844_800_000; // 2024-01-10T00:00:00Z
    let mut store = Storage::new();
    let mut task = Task::new();
    task.start_datetime = Some(start);
    task.end_datetime = Some(end);
    task.progress = 50;
    save_task(&mut store, &mut task, NOW).unwrap();

    let listed = load_all(&store);
    assert_eq!(listed.len(), 1);
    assert_eq!(listed[0].start_datetime, Some(start));
    assert_eq!(listed[0].end_datetime, Some(end));
    assert_eq!(listed[0].progress, 50);
}

// Subtasks come back sorted ascending by order index regardless of the
// insertion order: added with order=1 then order=0, loaded as [0, 1].
#[test]
fn subtasks_sorted_by_order_index() {
    let mut store = Storage::new();
    let mut task = Task::new();
    let mut s1 = Subtask::new();
    s1.order = 1;
    s1.description = "second".to_string();
    let mut s0 = Subtask::new();
    s0.order = 0;
    s0.description = "first".to_string();
    task.subtasks = vec![s1, s0];
    save_task(&mut store, &mut task, NOW).unwrap();

    let subs = Subtask::load_for_task(&store, task.id);
    assert_eq!(subs.len(), 2);
    assert_eq!(subs[0].order, 0);
    assert_eq!(subs[0].description, "first");
    assert_eq!(subs[1].order, 1);
    assert_eq!(subs[1].description, "second");
}

// Soft-deleted subtasks are excluded from a load, while the others keep
// their order.
#[test]
fn deleted_subtasks_are_excluded() {
    let mut store = Storage::new();
    let mut task = Task::new();
    let mut s0 = Subtask::new();
    s0.order = 0;
    let mut s1 = Subtask::new();
    s1.order = 1;
    s1.description = "kept".to_string();
    let s0_id = s0.id;
    task.subtasks = vec![s0, s1];
    save_task(&mut store, &mut task, NOW).unwrap();

    let mut gone = task
        .subtasks
        .iter()
        .find(|s| s.id == s0_id)
        .unwrap()
        .duplicate();
    gone.soft_delete(&mut store, NOW + 1).unwrap();

    let subs = Subtask::load_for_task(&store, task.id);
    assert_eq!(subs.len(), 1);
    assert_eq!(subs[0].description, "kept");
}

// Saves refresh the update instant and hold it at or above the creation
// instant, and the update instant survives the reload.
#[test]
fn save_refreshes_update_instant() {
    let mut store = Storage::new();
    let mut task = Task::new();
    let created = task.created_at;
    save_task(&mut store, &mut task, created - 100).unwrap();
    assert_eq!(task.updated_at, Some(created));

    save_task(&mut store, &mut task, created + 100).unwrap();
    assert_eq!(task.updated_at, Some(created + 100));

    let listed = load_all(&store);
    assert_eq!(listed[0].updated_at, Some(created + 100));
}

// A load for a task with no related subtasks answers an empty sequence,
// not an error.
#[test]
fn empty_subtask_load_is_not_an_error() {
    let mut store = Storage::new();
    let mut task = Task::new();
    save_task(&mut store, &mut task, NOW).unwrap();
    assert!(Subtask::load_for_task(&store, task.id).is_empty());
    assert!(Subtask::load_for_task(&store, 424242).is_empty());
}

// Duplicate order indices within one task are accepted, not renumbered and
// not rejected; the tie is broken by id, so the order is deterministic.
#[test]
fn duplicate_order_indices_tie_break_by_id() {
    let mut store = Storage::new();
    let mut task = Task::new();
    let mut a = Subtask::new();
    a.order = 2;
    let mut b = Subtask::new();
    b.order = 2;
    let (lo, hi) = if a.id < b.id { (a.id, b.id) } else { (b.id, a.id) };
    task.subtasks = vec![a, b];
    save_task(&mut store, &mut task, NOW).unwrap();

    let subs = Subtask::load_for_task(&store, task.id);
    assert_eq!(subs.len(), 2);
    assert_eq!(subs[0].order, 2);
    assert_eq!(subs[1].order, 2);
    assert_eq!(subs[0].id, lo);
    assert_eq!(subs[1].id, hi);
}

// A group save checks that every member id references a stored task.
#[test]
fn group_save_rejects_unknown_members() {
    let mut store = Storage::new();
    let mut group = TaskGroup::new();
    group.name = "Launch".to_string();
    group.add_task(12345);
    let r = save_task_group(&mut store, &mut group, NOW);
    assert_eq!(r, Err(StoreError::NotFound));
    assert!(load_all_groups(&store).is_empty());
}
