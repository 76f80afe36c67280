use taskstore::codec::{
    decode_group_row, decode_relation, decode_subtask_row, decode_task_row, encode_group_row,
    encode_relation, encode_subtask_row, encode_task_row, GroupRowText, RelationText,
    SubtaskRowText, TaskRowText,
};
use taskstore::storage::{GroupRow, Relation, Storage, TaskRow};
use taskstore::subtask::Subtask;
use taskstore::StoreError;

fn sample_task_row() -> TaskRow {
    TaskRow {
        id: 0xa1a2a3a4b1b2c1c2d1d2d3d4d5d6d7d8,
        completed: true,
        description: "Test Task".to_string(),
        details: Some("details".to_string()),
        start_datetime: Some(1_704_067_200_000),
        end_datetime: Some(1_704_844_800_000),
        progress: 50,
        created_at: 1_700_000_000_000,
        updated_at: Some(1_700_000_000_500),
        deleted_at: None,
    }
}

#[test]
fn task_row_round_trips_through_text() {
    let row = sample_task_row();
    let text = encode_task_row(&row);
    let back = decode_task_row(&text).unwrap();
    assert_eq!(back.id, row.id);
    assert_eq!(back.completed, row.completed);
    assert_eq!(back.description, row.description);
    assert_eq!(back.details, row.details);
    assert_eq!(back.start_datetime, row.start_datetime);
    assert_eq!(back.end_datetime, row.end_datetime);
    assert_eq!(back.progress, row.progress);
    assert_eq!(back.created_at, row.created_at);
    assert_eq!(back.updated_at, row.updated_at);
    assert_eq!(back.deleted_at, row.deleted_at);
}

#[test]
fn text_forms_are_canonical() {
    let row = sample_task_row();
    let text = encode_task_row(&row);
    assert_eq!(text.id, "a1a2a3a4-b1b2-c1c2-d1d2-d3d4d5d6d7d8");
    assert_eq!(text.created_at, "2023-11-14T22:13:20+00:00");
    assert_eq!(text.start_datetime.as_deref(), Some("2024-01-01T00:00:00+00:00"));
}

#[test]
fn known_text_decodes_to_known_values() {
    let text = TaskRowText {
        id: "00000000-0000-0000-0000-000000000007".to_string(),
        completed: false,
        description: "from disk".to_string(),
        details: None,
        start_datetime: None,
        end_datetime: None,
        progress: 0,
        created_at: "2024-01-01T00:00:00+00:00".to_string(),
        updated_at: None,
        deleted_at: None,
    };
    let row = decode_task_row(&text).unwrap();
    assert_eq!(row.id, 7);
    assert_eq!(row.created_at, 1_704_067_200_000);
}

#[test]
fn unparseable_text_is_a_constraint_violation() {
    let mut text = encode_task_row(&sample_task_row());
    text.id = "not-an-id".to_string();
    assert_eq!(decode_task_row(&text), Err(StoreError::ConstraintViolation));

    let mut text = encode_task_row(&sample_task_row());
    text.created_at = "yesterday".to_string();
    assert_eq!(decode_task_row(&text), Err(StoreError::ConstraintViolation));

    let mut text = encode_task_row(&sample_task_row());
    text.updated_at = Some(String::new());
    assert_eq!(decode_task_row(&text), Err(StoreError::ConstraintViolation));
}

#[test]
fn subtask_row_round_trips_through_text() {
    let row = Subtask {
        id: 99,
        order: 3,
        description: "step".to_string(),
        completed: false,
        created_at: 1_700_000_000_000,
        updated_at: None,
        deleted_at: Some(1_700_000_001_000),
    };
    let text = encode_subtask_row(&row);
    let back = decode_subtask_row(&text).unwrap();
    assert_eq!(back.id, 99);
    assert_eq!(back.order, 3);
    assert_eq!(back.description, "step");
    assert_eq!(back.deleted_at, Some(1_700_000_001_000));

    let bad = SubtaskRowText {
        id: text.id.clone(),
        order: 3,
        description: "step".to_string(),
        completed: false,
        created_at: "n/a".to_string(),
        updated_at: None,
        deleted_at: None,
    };
    assert_eq!(decode_subtask_row(&bad), Err(StoreError::ConstraintViolation));
}

#[test]
fn group_row_round_trips_through_text() {
    let row = GroupRow {
        id: 4242,
        name: "Launch".to_string(),
        created_at: 1_700_000_000_000,
        updated_at: Some(1_700_000_000_001),
        deleted_at: None,
    };
    let text = encode_group_row(&row);
    let back = decode_group_row(&text).unwrap();
    assert_eq!(back.id, 4242);
    assert_eq!(back.name, "Launch");
    assert_eq!(back.updated_at, Some(1_700_000_000_001));

    let bad = GroupRowText {
        id: "whatever".to_string(),
        name: "Launch".to_string(),
        created_at: text.created_at.clone(),
        updated_at: None,
        deleted_at: None,
    };
    assert_eq!(decode_group_row(&bad), Err(StoreError::ConstraintViolation));
}

#[test]
fn relation_round_trips_through_text() {
    let rel = Relation { parent_id: 1, child_id: 2 };
    let text = encode_relation(&rel);
    assert_eq!(decode_relation(&text).unwrap(), rel);

    let bad = RelationText {
        parent_id: text.parent_id.clone(),
        child_id: "broken".to_string(),
    };
    assert_eq!(decode_relation(&bad), Err(StoreError::ConstraintViolation));
}

#[test]
fn check_wf_accepts_fresh_and_rejects_duplicates() {
    let store = Storage::new();
    assert!(store.check_wf());

    let mut broken = Storage::new();
    let row = sample_task_row();
    let twin = sample_task_row();
    broken.tasks.push(row);
    broken.tasks.push(twin);
    assert!(!broken.check_wf());

    let mut dangling = Storage::new();
    dangling.rela_task_subtask.push(Relation { parent_id: 1, child_id: 2 });
    assert!(!dangling.check_wf());
}
