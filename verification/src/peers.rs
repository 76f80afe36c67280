//! Record types of the neighbouring modules: books and reading memos,
//! calendar memos, mind maps, and the note file tree. These are simple
//! record-per-row stores kept as plain data here; their ids and instants use
//! the same text forms as the task tables.

use vstd::prelude::*;

use crate::clock::{current_instant, encodable_instant, instant_text, rfc3339_text_of};
use crate::ids::{fresh_id, id_text, uuid_text_of};

verus! {

/// A book being read.
pub struct Book {
    pub id: String,
    pub title: String,
    pub author: String,
    pub status: String,
    pub total_pages: i32,
    pub cover_image_path: Option<String>,
    pub created_at: String,
    pub updated_at: Option<String>,
    pub deleted_at: Option<String>,
}

impl Book {
    /// A fresh book: the given title, author and page count, status
    /// "To Read", no cover, created now, never updated, never deleted.
    pub fn new(title: String, author: String, total_pages: i32) -> (r: Book)
        ensures
            (exists|id: u128| id != 0 && r.id@ == #[trigger] uuid_text_of(id)),
            r.title == title,
            r.author == author,
            r.status@ == "To Read"@,
            r.total_pages == total_pages,
            r.cover_image_path is None,
            (exists|m: i64|
                encodable_instant(m) && r.created_at@ == #[trigger] rfc3339_text_of(m)),
            r.updated_at is None,
            r.deleted_at is None,
    {
        Book {
            id: id_text(fresh_id()),
            title,
            author,
            status: "To Read".to_owned(),
            total_pages,
            cover_image_path: None,
            created_at: instant_text(current_instant()),
            updated_at: None,
            deleted_at: None,
        }
    }
}

/// A memo attached to a page of a book; the memo body lives in a file at
/// `content_path`, only the metadata is stored as a row.
pub struct ReadingMemo {
    pub id: String,
    pub book_id: String,
    pub page_number: i32,
    pub content_path: String,
    pub created_at: String,
    pub updated_at: Option<String>,
    pub deleted_at: Option<String>,
}

/// One day of reading in one book, derived from consecutive memos.
pub struct ReadingActivity {
    pub date: String,
    pub book_title: String,
    pub start_page: i32,
    pub end_page: i32,
    pub memo_id: String,
}

/// A free-form memo keyed by calendar date.
pub struct CalendarMemo {
    pub date: String,
    pub content: String,
}

/// A mind map: a title over an opaque content blob.
pub struct MindMap {
    pub id: String,
    pub title: String,
    pub content: String,
    pub created_at: String,
    pub updated_at: Option<String>,
    pub deleted_at: Option<String>,
}

impl MindMap {
    /// A fresh mind map with the given title and content, created now.
    pub fn new(title: String, content: String) -> (r: MindMap)
        ensures
            (exists|id: u128| id != 0 && r.id@ == #[trigger] uuid_text_of(id)),
            r.title == title,
            r.content == content,
            (exists|m: i64|
                encodable_instant(m) && r.created_at@ == #[trigger] rfc3339_text_of(m)),
            r.updated_at is None,
            r.deleted_at is None,
    {
        MindMap {
            id: id_text(fresh_id()),
            title,
            content,
            created_at: instant_text(current_instant()),
            updated_at: None,
            deleted_at: None,
        }
    }
}

/// One node of the note file tree: a file, or a directory with its children.
pub struct FileNode {
    pub name: String,
    pub path: String,
    pub is_dir: bool,
    pub children: Option<Vec<FileNode>>,
}

} // verus!
