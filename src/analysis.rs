//! What the analysis engine hands over, in byte offsets.
use vstd::prelude::*;

verus! {

/// Handle of a document in the store: its index there.
#[derive(Clone, Copy, Debug, PartialEq, Eq, Structural, Hash)]
pub struct FileId(pub u32);

/// Half-open byte interval of a file's text.
#[derive(Clone, Copy, Debug, PartialEq, Eq, Structural, Hash)]
pub struct ByteRange {
    pub start: u32,
    pub end: u32,
}

/// A byte range in a given file.
#[derive(Clone, Copy, Debug, PartialEq, Eq, Structural, Hash)]
pub struct FileRange {
    pub file_id: FileId,
    pub range: ByteRange,
}

/// A byte offset in a given file.
#[derive(Clone, Copy, Debug, PartialEq, Eq, Structural, Hash)]
pub struct FilePos {
    pub file_id: FileId,
    pub pos: u32,
}

#[derive(Clone, Copy, Debug, PartialEq, Eq, Structural, Hash)]
pub enum Severity {
    Error,
    Warning,
    /// A transient parse state while the user is typing.
    IncompleteSyntax,
}

/// A related note of a diagnostic, possibly in another file.
#[derive(Clone, Debug, PartialEq, Eq)]
pub struct Note {
    pub range: FileRange,
    pub message: String,
}

#[derive(Clone, Debug, PartialEq, Eq)]
pub struct Diagnostic {
    pub severity: Severity,
    pub range: ByteRange,
    pub message: String,
    pub notes: Vec<Note>,
    pub deprecated: bool,
    pub unnecessary: bool,
}

#[derive(Clone, Copy, Debug, PartialEq, Eq, Structural, Hash)]
pub enum CompletionItemKind {
    Keyword,
    Param,
    LetBinding,
    Field,
    BuiltinConst,
    BuiltinFunction,
    BuiltinAttrset,
}

#[derive(Clone, Debug, PartialEq, Eq)]
pub struct CompletionItem {
    pub label: String,
    /// The range that the completion replaces.
    pub source_range: ByteRange,
    /// The text that replaces it.
    pub replace: String,
    pub kind: CompletionItemKind,
}

/// Replace the bytes of `delete` with `insert`.
#[derive(Clone, Debug, PartialEq, Eq)]
pub struct TextEdit {
    pub delete: ByteRange,
    pub insert: String,
}

/// Edits over several files: for each file, its edits in order, the ranges
/// of one file not overlapping.
#[derive(Clone, Debug, PartialEq, Eq)]
pub struct WorkspaceEdit {
    pub content_edits: Vec<(FileId, Vec<TextEdit>)>,
}

} // verus!
