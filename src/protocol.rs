//! What the editor protocol receives, in lines and UTF-16 columns, and the
//! mathematical views that contracts speak of.
use vstd::prelude::*;

verus! {

/// 0-based line, and column in UTF-16 code units.
#[derive(Clone, Copy, Debug, PartialEq, Eq, Structural, Hash)]
pub struct Position {
    pub line: u32,
    pub character: u32,
}

#[derive(Clone, Copy, Debug, PartialEq, Eq, Structural, Hash)]
pub struct Range {
    pub start: Position,
    pub end: Position,
}

/// A range in the document that `uri` names.
#[derive(Clone, Debug, PartialEq, Eq)]
pub struct Location {
    pub uri: String,
    pub range: Range,
}

pub struct LocationView {
    pub uri: Seq<char>,
    pub range: Range,
}

impl View for Location {
    type V = LocationView;

    open spec fn view(&self) -> LocationView {
        LocationView { uri: self.uri@, range: self.range }
    }
}

#[derive(Clone, Debug, PartialEq, Eq)]
pub struct DiagnosticRelatedInformation {
    pub location: Location,
    pub message: String,
}

pub struct RelatedView {
    pub location: LocationView,
    pub message: Seq<char>,
}

impl View for DiagnosticRelatedInformation {
    type V = RelatedView;

    open spec fn view(&self) -> RelatedView {
        RelatedView { location: self.location@, message: self.message@ }
    }
}

#[derive(Clone, Copy, Debug, PartialEq, Eq, Structural, Hash)]
pub enum DiagnosticSeverity {
    Error,
    Warning,
    Hint,
}

#[derive(Clone, Copy, Debug, PartialEq, Eq, Structural, Hash)]
pub enum DiagnosticTag {
    Unnecessary,
    Deprecated,
}

#[derive(Clone, Debug, PartialEq, Eq)]
pub struct Diagnostic {
    pub range: Range,
    pub severity: DiagnosticSeverity,
    pub message: String,
    pub related_information: Vec<DiagnosticRelatedInformation>,
    pub tags: Option<Vec<DiagnosticTag>>,
}

pub struct DiagnosticView {
    pub range: Range,
    pub severity: DiagnosticSeverity,
    pub message: Seq<char>,
    pub related: Seq<RelatedView>,
    pub tags: Option<Seq<DiagnosticTag>>,
}

pub open spec fn related_views(s: Seq<DiagnosticRelatedInformation>) -> Seq<RelatedView> {
    s.map_values(|r: DiagnosticRelatedInformation| r@)
}

impl View for Diagnostic {
    type V = DiagnosticView;

    open spec fn view(&self) -> DiagnosticView {
        DiagnosticView {
            range: self.range,
            severity: self.severity,
            message: self.message@,
            related: related_views(self.related_information@),
            tags: match self.tags {
                Some(t) => Some(t@),
                None => None,
            },
        }
    }
}

pub open spec fn diagnostic_views(s: Seq<Diagnostic>) -> Seq<DiagnosticView> {
    s.map_values(|d: Diagnostic| d@)
}

#[derive(Clone, Copy, Debug, PartialEq, Eq, Structural, Hash)]
pub enum CompletionItemKind {
    Keyword,
    Variable,
    Field,
    Constant,
    Function,
    Class,
}

#[derive(Clone, Copy, Debug, PartialEq, Eq, Structural, Hash)]
pub enum InsertTextFormat {
    PlainText,
    Snippet,
}

#[derive(Clone, Copy, Debug, PartialEq, Eq, Structural, Hash)]
pub enum InsertTextMode {
    AsIs,
    AdjustIndentation,
}

/// Replace the text of `range` with `new_text`.
#[derive(Clone, Debug, PartialEq, Eq)]
pub struct TextEdit {
    pub range: Range,
    pub new_text: String,
}

pub struct TextEditView {
    pub range: Range,
    pub new_text: Seq<char>,
}

impl View for TextEdit {
    type V = TextEditView;

    open spec fn view(&self) -> TextEditView {
        TextEditView { range: self.range, new_text: self.new_text@ }
    }
}

pub open spec fn text_edit_views(s: Seq<TextEdit>) -> Seq<TextEditView> {
    s.map_values(|e: TextEdit| e@)
}

#[derive(Clone, Debug, PartialEq, Eq)]
pub struct CompletionItem {
    pub label: String,
    pub kind: CompletionItemKind,
    pub insert_text_format: InsertTextFormat,
    pub insert_text_mode: InsertTextMode,
    pub text_edit: TextEdit,
}

#[derive(Clone, Debug, PartialEq, Eq)]
pub enum PrepareRenameResponse {
    Range(Range),
    RangeWithPlaceholder { range: Range, placeholder: String },
    DefaultBehavior { default_behavior: bool },
}

#[derive(Clone, Copy, Debug, PartialEq, Eq, Structural, Hash)]
pub enum ErrorCode {
    /// The request is not valid for its target.
    InvalidRequest,
}

/// A request-level error.
#[derive(Clone, Debug, PartialEq, Eq)]
pub struct LspError {
    pub code: ErrorCode,
    pub message: String,
}

/// Edits keyed by document: each document's URI with its edits, in order.
#[derive(Clone, Debug, PartialEq, Eq)]
pub struct WorkspaceEdit {
    pub changes: Vec<(String, Vec<TextEdit>)>,
}

pub open spec fn changes_view(s: Seq<(String, Vec<TextEdit>)>) -> Seq<(Seq<char>, Seq<TextEditView>)> {
    s.map_values(|c: (String, Vec<TextEdit>)| (c.0@, text_edit_views(c.1@)))
}

/// The document that a request names.
#[derive(Clone, Debug, PartialEq, Eq)]
pub struct TextDocumentIdentifier {
    pub uri: String,
}

/// A position in the document that a request names.
#[derive(Clone, Debug, PartialEq, Eq)]
pub struct TextDocumentPositionParams {
    pub text_document: TextDocumentIdentifier,
    pub position: Position,
}

} // verus!
