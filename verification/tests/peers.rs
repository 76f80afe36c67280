use taskstore::peers::{Book, CalendarMemo, FileNode, MindMap, ReadingActivity, ReadingMemo};

#[test]
fn book_new_sets_defaults() {
    let book = Book::new("Dune".to_string(), "Herbert".to_string(), 412);
    assert_eq!(book.title, "Dune");
    assert_eq!(book.author, "Herbert");
    assert_eq!(book.status, "To Read");
    assert_eq!(book.total_pages, 412);
    assert!(book.cover_image_path.is_none());
    assert_eq!(book.id.len(), 36);
    assert!(book.created_at.contains('T'));
    assert!(book.updated_at.is_none());
    assert!(book.deleted_at.is_none());
}

#[test]
fn mind_map_new_keeps_content() {
    let map = MindMap::new("plan".to_string(), "{}".to_string());
    assert_eq!(map.title, "plan");
    assert_eq!(map.content, "{}");
    assert!(map.updated_at.is_none());
    assert!(map.deleted_at.is_none());
    let other = MindMap::new("plan".to_string(), "{}".to_string());
    assert_ne!(map.id, other.id);
}

#[test]
fn peer_records_hold_their_fields() {
    let memo = ReadingMemo {
        id: "m1".to_string(),
        book_id: "b1".to_string(),
        page_number: 12,
        content_path: "memos/m1.md".to_string(),
        created_at: "2024-01-01T00:00:00+00:00".to_string(),
        updated_at: None,
        deleted_at: None,
    };
    assert_eq!(memo.page_number, 12);

    let activity = ReadingActivity {
        date: "2024-01-01".to_string(),
        book_title: "Dune".to_string(),
        start_page: 0,
        end_page: 12,
        memo_id: memo.id.clone(),
    };
    assert_eq!(activity.end_page - activity.start_page, 12);

    let day = CalendarMemo { date: "2024-01-01".to_string(), content: "rest".to_string() };
    assert_eq!(day.content, "rest");

    let tree = FileNode {
        name: "notes".to_string(),
        path: "notes".to_string(),
        is_dir: true,
        children: Some(vec![FileNode {
            name: "a.md".to_string(),
            path: "notes/a.md".to_string(),
            is_dir: false,
            children: None,
        }]),
    };
    assert_eq!(tree.children.as_ref().unwrap().len(), 1);
}
