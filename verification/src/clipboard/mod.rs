//! Clipboard history entries and the events that move them around.
use vstd::prelude::*;

pub mod handler;

verus! {

/// Kind of content of a clipboard history entry.
#[derive(Clone, Copy, Debug, PartialEq, Eq, Structural)]
pub enum ContentType {
    Text,
    File,
}

/// "text"
pub open spec fn text_tag() -> Seq<char> {
    seq!['t', 'e', 'x', 't']
}

/// "file"
pub open spec fn file_tag() -> Seq<char> {
    seq!['f', 'i', 'l', 'e']
}

impl ContentType {
    /// The tag stored for this kind.
    pub open spec fn tag(self) -> Seq<char> {
        match self {
            ContentType::Text => text_tag(),
            ContentType::File => file_tag(),
        }
    }

    pub fn as_str(&self) -> (r: &'static str)
        ensures
            r@ == self.tag(),
    {
        proof {
            reveal_strlit("text");
            reveal_strlit("file");
        }
        match self {
            ContentType::Text => "text",
            ContentType::File => "file",
        }
    }

    /// The kind a stored tag names: `"file"` is a file entry, anything else text.
    pub fn parse_content_type(s: &str) -> (r: ContentType)
        ensures
            s@ == file_tag() ==> r == ContentType::File,
            s@ != file_tag() ==> r == ContentType::Text,
    {
        proof {
            reveal_strlit("file");
        }
        let owned = s.to_owned();
        let file = String::from_str("file");
        assert("file"@ =~= file_tag());
        if owned == file {
            ContentType::File
        } else {
            ContentType::Text
        }
    }
}

/// A stored clipboard history entry.
#[derive(Clone, Debug)]
pub struct ClipboardItem {
    pub id: i64,
    pub content_type: ContentType,
    pub text_content: Option<String>,
    pub preview: String,
    pub file_paths: Option<Vec<String>>,
    pub content_hash: String,
    pub byte_size: i64,
    pub is_pinned: bool,
    pub source_app: Option<String>,
    pub created_at: String,
}

/// New clipboard content seen by the monitor, not yet processed.
#[derive(Clone, Debug)]
pub enum RawClipboardContent {
    Text(String),
    Files(Vec<String>),
}

/// What the monitor reports to the application.
#[derive(Clone, Copy, Debug, PartialEq, Eq, Structural)]
pub enum ClipboardEvent {
    /// An entry was added (its id).
    ItemAdded(i64),
    /// An entry was deleted (its id).
    ItemDeleted(i64),
}

} // verus!
