//! Converters from analysis results to protocol messages and back. Every
//! range goes through `to_range`, and so through the one index of its
//! file.
use crate::analysis::{self, ByteRange, FileId, FilePos, FileRange, Note, Severity};
use crate::line_map::{
    byte_len, char_index_of, col_of_offset, is_boundary, lemma_byte_offset_grows,
    lemma_col_line_le_bytes, lemma_round_trip, line_of_offset, pos_offset, LineMap,
};
use crate::protocol::{
    self, changes_view, diagnostic_views, related_views, text_edit_views, DiagnosticRelatedInformation,
    DiagnosticSeverity, DiagnosticTag, DiagnosticView, ErrorCode, InsertTextFormat, InsertTextMode,
    Location, LocationView, LspError, Position, PrepareRenameResponse, Range, RelatedView,
    TextDocumentIdentifier, TextDocumentPositionParams, TextEditView,
};
use crate::vfs::{distinct_uris, has_file, text_of, tracks_uri, uri_of, UnknownDocument, Vfs, VfsView};
use vstd::prelude::*;
use vstd::string::StringExecFns;

verus! {

/// Protocol position of byte offset `o` of `t`.
pub open spec fn position_at(t: Seq<char>, o: int) -> Position {
    Position { line: line_of_offset(t, o) as u32, character: col_of_offset(t, o) as u32 }
}

/// Protocol range of byte range `r` of `t`.
pub open spec fn range_at(t: Seq<char>, r: ByteRange) -> Range {
    Range { start: position_at(t, r.start as int), end: position_at(t, r.end as int) }
}

/// Both ends of `r` lie on character boundaries of `t`.
pub open spec fn valid_range(t: Seq<char>, r: ByteRange) -> bool {
    is_boundary(t, r.start as int) && is_boundary(t, r.end as int)
}

pub open spec fn valid_file_range(v: VfsView, fr: FileRange) -> bool {
    has_file(v, fr.file_id) && valid_range(text_of(v, fr.file_id), fr.range)
}

/// Protocol location of a byte range of a file of the store.
pub open spec fn location_at(v: VfsView, fr: FileRange) -> LocationView {
    LocationView { uri: uri_of(v, fr.file_id), range: range_at(text_of(v, fr.file_id), fr.range) }
}

/// `f` is the file of the store whose URI is `uri`.
pub open spec fn is_file_for_uri(v: VfsView, uri: Seq<char>, f: FileId) -> bool {
    has_file(v, f) && uri_of(v, f) == uri
}

/// Resolves the document that a request names.
pub fn from_file(vfs: &Vfs, doc: &TextDocumentIdentifier) -> (r: Result<FileId, UnknownDocument>)
    requires
        vfs.wf(),
    ensures
        match r {
            Ok(f) => is_file_for_uri(vfs@, doc.uri@, f),
            Err(e) => !tracks_uri(vfs@, doc.uri@) && e.uri@ == doc.uri@,
        },
{
    match vfs.file_for_uri(&doc.uri) {
        Some(f) => Ok(f),
        None => Err(UnknownDocument { uri: doc.uri.clone() }),
    }
}

/// Byte offset in `file` of a protocol position, clamped into the text.
pub fn from_pos(vfs: &Vfs, file: FileId, pos: Position) -> (r: u32)
    requires
        vfs.wf(),
        has_file(vfs@, file),
    ensures
        r == pos_offset(text_of(vfs@, file), pos.line as int, pos.character as int),
{
    let line_map = vfs.file_line_map(file);
    line_map.pos(pos.line, pos.character)
}

/// Resolves the document and position that a request names.
pub fn from_file_pos(vfs: &Vfs, params: &TextDocumentPositionParams) -> (r: Result<
    FilePos,
    UnknownDocument,
>)
    requires
        vfs.wf(),
    ensures
        match r {
            Ok(fp) => is_file_for_uri(vfs@, params.text_document.uri@, fp.file_id) && fp.pos
                == pos_offset(
                text_of(vfs@, fp.file_id),
                params.position.line as int,
                params.position.character as int,
            ),
            Err(e) => !tracks_uri(vfs@, params.text_document.uri@) && e.uri@
                == params.text_document.uri@,
        },
{
    let file = match from_file(vfs, &params.text_document) {
        Ok(f) => f,
        Err(e) => return Err(e),
    };
    let pos = from_pos(vfs, file, params.position);
    Ok(FilePos { file_id: file, pos })
}

/// Protocol location of a byte range of a file of the store.
pub fn to_location(vfs: &Vfs, frange: FileRange) -> (r: Location)
    requires
        vfs.wf(),
        valid_file_range(vfs@, frange),
    ensures
        r@ == location_at(vfs@, frange),
{
    let uri = vfs.uri_for_file(frange.file_id);
    let line_map = vfs.file_line_map(frange.file_id);
    Location { uri, range: to_range(line_map, frange.range) }
}

/// Protocol range of a byte range.
pub fn to_range(line_map: &LineMap, range: ByteRange) -> (r: Range)
    requires
        line_map.wf(),
        valid_range(line_map@, range),
    ensures
        r == range_at(line_map@, range),
{
    let (line1, col1) = line_map.line_col(range.start);
    let (line2, col2) = line_map.line_col(range.end);
    Range {
        start: Position { line: line1, character: col1 },
        end: Position { line: line2, character: col2 },
    }
}

/// Protocol severity of an analysis severity; none for one that is never
/// shown.
pub open spec fn severity_of(s: Severity) -> Option<DiagnosticSeverity> {
    match s {
        Severity::Error => Some(DiagnosticSeverity::Error),
        Severity::Warning => Some(DiagnosticSeverity::Warning),
        Severity::IncompleteSyntax => None,
    }
}

pub open spec fn tags_of(d: analysis::Diagnostic) -> Seq<DiagnosticTag> {
    (if d.deprecated {
        seq![DiagnosticTag::Deprecated]
    } else {
        Seq::empty()
    }) + (if d.unnecessary {
        seq![DiagnosticTag::Unnecessary]
    } else {
        Seq::empty()
    })
}

/// A note as related information.
pub open spec fn note_info(v: VfsView, n: Note) -> RelatedView {
    RelatedView { location: location_at(v, n.range), message: n.message@ }
}

pub open spec fn notes_info(v: VfsView, notes: Seq<Note>) -> Seq<RelatedView> {
    notes.map_values(|n: Note| note_info(v, n))
}

/// The label of the related information that leads from a hint back to its
/// diagnostic.
pub open spec fn original_label() -> Seq<char> {
    "original diagnostic"@
}

/// The protocol form of diagnostic `d` of `file` itself.
pub open spec fn primary_of(
    v: VfsView,
    file: FileId,
    d: analysis::Diagnostic,
    severity: DiagnosticSeverity,
) -> DiagnosticView {
    DiagnosticView {
        range: range_at(text_of(v, file), d.range),
        severity,
        message: d.message@,
        related: notes_info(v, d.notes@),
        tags: Some(tags_of(d)),
    }
}

/// The hint that note `n` of diagnostic `d` of `file` becomes.
pub open spec fn hint_of(v: VfsView, file: FileId, d: analysis::Diagnostic, n: Note) -> DiagnosticView {
    DiagnosticView {
        range: range_at(text_of(v, file), n.range.range),
        severity: DiagnosticSeverity::Hint,
        message: n.message@,
        related: seq![
            RelatedView {
                location: location_at(v, FileRange { file_id: file, range: d.range }),
                message: original_label(),
            },
        ],
        tags: None,
    }
}

/// The hints of the notes of `d` that lie in `file`, in order.
pub open spec fn hints_of(v: VfsView, file: FileId, d: analysis::Diagnostic, notes: Seq<Note>) -> Seq<
    DiagnosticView,
>
    decreases notes.len(),
{
    if notes.len() == 0 {
        Seq::empty()
    } else {
        let prev = hints_of(v, file, d, notes.drop_last());
        if notes.last().range.file_id == file {
            prev.push(hint_of(v, file, d, notes.last()))
        } else {
            prev
        }
    }
}

/// What one diagnostic of `file` becomes: nothing for one that is never
/// shown, else its hints followed by itself.
pub open spec fn diagnostic_out(v: VfsView, file: FileId, d: analysis::Diagnostic) -> Seq<
    DiagnosticView,
> {
    match severity_of(d.severity) {
        None => Seq::empty(),
        Some(s) => hints_of(v, file, d, d.notes@).push(primary_of(v, file, d, s)),
    }
}

/// What a list of diagnostics of `file` becomes, in order.
pub open spec fn diagnostics_out(v: VfsView, file: FileId, ds: Seq<analysis::Diagnostic>) -> Seq<
    DiagnosticView,
>
    decreases ds.len(),
{
    if ds.len() == 0 {
        Seq::empty()
    } else {
        diagnostics_out(v, file, ds.drop_last()) + diagnostic_out(v, file, ds.last())
    }
}

/// The ranges of a shown diagnostic of `file` and of its notes lie on
/// character boundaries of their files.
pub open spec fn valid_diagnostic(v: VfsView, file: FileId, d: analysis::Diagnostic) -> bool {
    severity_of(d.severity) is Some ==> {
        &&& valid_range(text_of(v, file), d.range)
        &&& forall|i: int|
            0 <= i < d.notes@.len() ==> valid_file_range(v, #[trigger] d.notes@[i].range)
    }
}

fn related_information(vfs: &Vfs, notes: &Vec<Note>) -> (r: Vec<DiagnosticRelatedInformation>)
    requires
        vfs.wf(),
        forall|i: int| 0 <= i < notes@.len() ==> valid_file_range(vfs@, #[trigger] notes@[i].range),
    ensures
        related_views(r@) == notes_info(vfs@, notes@),
{
    let mut r: Vec<DiagnosticRelatedInformation> = Vec::new();
    for i in 0..notes.len()
        invariant
            vfs.wf(),
            forall|i: int|
                0 <= i < notes@.len() ==> valid_file_range(vfs@, #[trigger] notes@[i].range),
            related_views(r@) == notes_info(vfs@, notes@.take(i as int)),
    {
        let n = &notes[i];
        let info = DiagnosticRelatedInformation {
            location: to_location(vfs, n.range),
            message: n.message.clone(),
        };
        let ghost prev = r@;
        r.push(info);
        assert(notes@.take(i + 1) =~= notes@.take(i as int).push(notes@[i as int]));
        assert(related_views(r@) =~= related_views(prev).push(info@));
        assert(notes_info(vfs@, notes@.take(i + 1)) =~= notes_info(vfs@, notes@.take(i as int)).push(
            note_info(vfs@, notes@[i as int]),
        ));
    }
    assert(notes@.take(notes@.len() as int) =~= notes@);
    r
}

fn diagnostic_tags(d: &analysis::Diagnostic) -> (r: Vec<DiagnosticTag>)
    ensures
        r@ == tags_of(*d),
{
    let mut tags: Vec<DiagnosticTag> = Vec::new();
    if d.deprecated {
        tags.push(DiagnosticTag::Deprecated);
    }
    if d.unnecessary {
        tags.push(DiagnosticTag::Unnecessary);
    }
    assert(tags@ =~= tags_of(*d));
    tags
}

/// Appends what diagnostic `d` of `file` becomes to `out`.
fn push_diagnostic(
    vfs: &Vfs,
    file: FileId,
    line_map: &LineMap,
    d: &analysis::Diagnostic,
    out: &mut Vec<protocol::Diagnostic>,
)
    requires
        vfs.wf(),
        has_file(vfs@, file),
        line_map.wf(),
        line_map@ == text_of(vfs@, file),
        valid_diagnostic(vfs@, file, *d),
    ensures
        diagnostic_views(final(out)@) == diagnostic_views(old(out)@) + diagnostic_out(vfs@, file, *d),
{
    let ghost base = diagnostic_views(out@);
    let severity = match d.severity {
        Severity::Error => DiagnosticSeverity::Error,
        Severity::Warning => DiagnosticSeverity::Warning,
        Severity::IncompleteSyntax => {
            assert(base + diagnostic_out(vfs@, file, *d) =~= base);
            return ;
        },
    };
    let primary = protocol::Diagnostic {
        range: to_range(line_map, d.range),
        severity,
        message: d.message.clone(),
        related_information: related_information(vfs, &d.notes),
        tags: Some(diagnostic_tags(d)),
    };
    assert(primary@ == primary_of(vfs@, file, *d, severity));
    let ghost notes = d.notes@;
    assert(notes.take(0) =~= Seq::<Note>::empty());
    assert(diagnostic_views(out@) =~= base + hints_of(vfs@, file, *d, notes.take(0)));
    for i in 0..d.notes.len()
        invariant
            vfs.wf(),
            has_file(vfs@, file),
            line_map.wf(),
            line_map@ == text_of(vfs@, file),
            valid_diagnostic(vfs@, file, *d),
            severity_of(d.severity) is Some,
            notes == d.notes@,
            diagnostic_views(out@) == base + hints_of(vfs@, file, *d, notes.take(i as int)),
    {
        let n = &d.notes[i];
        assert(notes.take(i + 1).drop_last() =~= notes.take(i as int));
        assert(valid_file_range(vfs@, notes[i as int].range));
        if n.range.file_id.0 == file.0 {
            let back = to_location(vfs, FileRange { file_id: file, range: d.range });
            let mut related: Vec<DiagnosticRelatedInformation> = Vec::new();
            related.push(
                DiagnosticRelatedInformation {
                    location: back,
                    message: String::from_str("original diagnostic"),
                },
            );
            let hint = protocol::Diagnostic {
                range: to_range(line_map, n.range.range),
                severity: DiagnosticSeverity::Hint,
                message: n.message.clone(),
                related_information: related,
                tags: None,
            };
            assert(related_views(related@) =~= hint_of(vfs@, file, *d, *n).related);
            assert(hint@ == hint_of(vfs@, file, *d, *n));
            let ghost prev = out@;
            out.push(hint);
            assert(diagnostic_views(out@) =~= diagnostic_views(prev).push(hint@));
        }
        assert(diagnostic_views(out@) =~= base + hints_of(vfs@, file, *d, notes.take(i + 1)));
    }
    assert(notes.take(notes.len() as int) =~= notes);
    let ghost prev = out@;
    out.push(primary);
    assert(diagnostic_views(out@) =~= diagnostic_views(prev).push(primary@));
    assert(diagnostic_views(out@) =~= base + diagnostic_out(vfs@, file, *d));
}

/// Protocol diagnostics of the diagnostics of `file`: for each one that is
/// shown, in order, a hint for each of its notes in `file`, then itself.
pub fn to_diagnostics(vfs: &Vfs, file: FileId, diags: &[analysis::Diagnostic]) -> (r: Vec<
    protocol::Diagnostic,
>)
    requires
        vfs.wf(),
        has_file(vfs@, file),
        forall|i: int| 0 <= i < diags@.len() ==> valid_diagnostic(vfs@, file, #[trigger] diags@[i]),
    ensures
        diagnostic_views(r@) == diagnostics_out(vfs@, file, diags@),
{
    let line_map = vfs.file_line_map(file);
    let mut ret: Vec<protocol::Diagnostic> = Vec::new();
    assert(diagnostic_views(ret@) =~= diagnostics_out(vfs@, file, diags@.take(0)));
    for i in 0..diags.len()
        invariant
            vfs.wf(),
            has_file(vfs@, file),
            line_map.wf(),
            line_map@ == text_of(vfs@, file),
            forall|i: int|
                0 <= i < diags@.len() ==> valid_diagnostic(vfs@, file, #[trigger] diags@[i]),
            diagnostic_views(ret@) == diagnostics_out(vfs@, file, diags@.take(i as int)),
    {
        assert(diags@.take(i + 1).drop_last() =~= diags@.take(i as int));
        assert(valid_diagnostic(vfs@, file, diags@[i as int]));
        push_diagnostic(vfs, file, line_map, &diags[i], &mut ret);
    }
    assert(diags@.take(diags@.len() as int) =~= diags@);
    ret
}

/// The protocol kind of each analysis completion kind.
pub open spec fn completion_kind_of(k: analysis::CompletionItemKind) -> protocol::CompletionItemKind {
    match k {
        analysis::CompletionItemKind::Keyword => protocol::CompletionItemKind::Keyword,
        analysis::CompletionItemKind::Param => protocol::CompletionItemKind::Variable,
        analysis::CompletionItemKind::LetBinding => protocol::CompletionItemKind::Variable,
        analysis::CompletionItemKind::Field => protocol::CompletionItemKind::Field,
        analysis::CompletionItemKind::BuiltinConst => protocol::CompletionItemKind::Constant,
        analysis::CompletionItemKind::BuiltinFunction => protocol::CompletionItemKind::Function,
        analysis::CompletionItemKind::BuiltinAttrset => protocol::CompletionItemKind::Class,
    }
}

/// Protocol kind of an analysis completion kind.
pub fn to_completion_kind(k: analysis::CompletionItemKind) -> (r: protocol::CompletionItemKind)
    ensures
        r == completion_kind_of(k),
{
    match k {
        analysis::CompletionItemKind::Keyword => protocol::CompletionItemKind::Keyword,
        analysis::CompletionItemKind::Param => protocol::CompletionItemKind::Variable,
        analysis::CompletionItemKind::LetBinding => protocol::CompletionItemKind::Variable,
        analysis::CompletionItemKind::Field => protocol::CompletionItemKind::Field,
        analysis::CompletionItemKind::BuiltinConst => protocol::CompletionItemKind::Constant,
        analysis::CompletionItemKind::BuiltinFunction => protocol::CompletionItemKind::Function,
        analysis::CompletionItemKind::BuiltinAttrset => protocol::CompletionItemKind::Class,
    }
}

/// Protocol completion item: the label, the kind by the table above, and an
/// edit that replaces the source range with the replacement text, as plain
/// text.
pub fn to_completion_item(line_map: &LineMap, item: analysis::CompletionItem) -> (r:
    protocol::CompletionItem)
    requires
        line_map.wf(),
        valid_range(line_map@, item.source_range),
    ensures
        r.label@ == item.label@,
        r.kind == completion_kind_of(item.kind),
        r.insert_text_format == InsertTextFormat::PlainText,
        r.insert_text_mode == InsertTextMode::AdjustIndentation,
        r.text_edit@ == (TextEditView {
            range: range_at(line_map@, item.source_range),
            new_text: item.replace@,
        }),
{
    let kind = to_completion_kind(item.kind);
    protocol::CompletionItem {
        label: item.label,
        kind,
        insert_text_format: InsertTextFormat::PlainText,
        insert_text_mode: InsertTextMode::AdjustIndentation,
        text_edit: protocol::TextEdit {
            range: to_range(line_map, item.source_range),
            new_text: item.replace,
        },
    }
}

/// The error for a rename that the analysis refused, with its explanation.
pub fn to_rename_error(message: String) -> (r: LspError)
    ensures
        r.code == ErrorCode::InvalidRequest,
        r.message@ == message@,
{
    LspError { code: ErrorCode::InvalidRequest, message }
}

/// Prepare-rename answer: the range of the name, and its current text as
/// the proposed new name.
pub fn to_prepare_rename_response(vfs: &Vfs, file: FileId, range: ByteRange, text: String) -> (r:
    PrepareRenameResponse)
    requires
        vfs.wf(),
        has_file(vfs@, file),
        valid_range(text_of(vfs@, file), range),
    ensures
        r matches PrepareRenameResponse::RangeWithPlaceholder { range: rr, placeholder } && rr
            == range_at(text_of(vfs@, file), range) && placeholder@ == text@,
{
    let line_map = vfs.file_line_map(file);
    let range = to_range(line_map, range);
    PrepareRenameResponse::RangeWithPlaceholder { range, placeholder: text }
}

pub open spec fn text_edit_at(t: Seq<char>, e: analysis::TextEdit) -> TextEditView {
    TextEditView { range: range_at(t, e.delete), new_text: e.insert@ }
}

/// Protocol form of a text edit.
pub fn to_text_edit(line_map: &LineMap, edit: &analysis::TextEdit) -> (r: protocol::TextEdit)
    requires
        line_map.wf(),
        valid_range(line_map@, edit.delete),
    ensures
        r@ == text_edit_at(line_map@, *edit),
{
    protocol::TextEdit { range: to_range(line_map, edit.delete), new_text: edit.insert.clone() }
}

/// The edits of `file`, each against the file's own index, in order.
pub open spec fn file_edits_out(v: VfsView, file: FileId, edits: Seq<analysis::TextEdit>) -> (
    Seq<char>,
    Seq<TextEditView>,
) {
    (uri_of(v, file), edits.map_values(|e: analysis::TextEdit| text_edit_at(text_of(v, file), e)))
}

/// What the edits of each file become, in order, files without edits left
/// out.
pub open spec fn workspace_edit_out(v: VfsView, entries: Seq<(FileId, Vec<analysis::TextEdit>)>) -> Seq<
    (Seq<char>, Seq<TextEditView>),
>
    decreases entries.len(),
{
    if entries.len() == 0 {
        Seq::empty()
    } else {
        let prev = workspace_edit_out(v, entries.drop_last());
        let last = entries.last();
        if last.1@.len() == 0 {
            prev
        } else {
            prev.push(file_edits_out(v, last.0, last.1@))
        }
    }
}

/// Each file of the workspace edit is in the store, and each range lies on
/// character boundaries of its file.
pub open spec fn valid_workspace_edit(v: VfsView, entries: Seq<(FileId, Vec<analysis::TextEdit>)>) -> bool {
    forall|i: int|
        0 <= i < entries.len() ==> {
            &&& has_file(v, #[trigger] entries[i].0)
            &&& forall|k: int|
                0 <= k < entries[i].1@.len() ==> valid_range(
                    text_of(v, entries[i].0),
                    #[trigger] entries[i].1@[k].delete,
                )
        }
}

fn to_text_edits(vfs: &Vfs, file: FileId, edits: &Vec<analysis::TextEdit>) -> (r: Vec<
    protocol::TextEdit,
>)
    requires
        vfs.wf(),
        has_file(vfs@, file),
        forall|k: int|
            0 <= k < edits@.len() ==> valid_range(text_of(vfs@, file), #[trigger] edits@[k].delete),
    ensures
        text_edit_views(r@) == file_edits_out(vfs@, file, edits@).1,
{
    let line_map = vfs.file_line_map(file);
    let ghost t = text_of(vfs@, file);
    let mut r: Vec<protocol::TextEdit> = Vec::new();
    for i in 0..edits.len()
        invariant
            line_map.wf(),
            line_map@ == t,
            forall|k: int| 0 <= k < edits@.len() ==> valid_range(t, #[trigger] edits@[k].delete),
            text_edit_views(r@) == edits@.take(i as int).map_values(
                |e: analysis::TextEdit| text_edit_at(t, e),
            ),
    {
        let e = to_text_edit(line_map, &edits[i]);
        let ghost prev = r@;
        r.push(e);
        assert(edits@.take(i + 1) =~= edits@.take(i as int).push(edits@[i as int]));
        assert(text_edit_views(r@) =~= text_edit_views(prev).push(e@));
        assert(edits@.take(i + 1).map_values(|e: analysis::TextEdit| text_edit_at(t, e))
            =~= edits@.take(i as int).map_values(|e: analysis::TextEdit| text_edit_at(t, e)).push(
            text_edit_at(t, edits@[i as int]),
        ));
    }
    assert(edits@.take(edits@.len() as int) =~= edits@);
    r
}

/// Protocol workspace edit: for each file with edits, in order, its URI and
/// its edits, each file converted against its own index.
pub fn to_workspace_edit(vfs: &Vfs, ws_edit: analysis::WorkspaceEdit) -> (r: protocol::WorkspaceEdit)
    requires
        vfs.wf(),
        valid_workspace_edit(vfs@, ws_edit.content_edits@),
    ensures
        changes_view(r.changes@) == workspace_edit_out(vfs@, ws_edit.content_edits@),
{
    let entries = &ws_edit.content_edits;
    let mut changes: Vec<(String, Vec<protocol::TextEdit>)> = Vec::new();
    assert(changes_view(changes@) =~= workspace_edit_out(vfs@, entries@.take(0)));
    for i in 0..entries.len()
        invariant
            vfs.wf(),
            valid_workspace_edit(vfs@, entries@),
            changes_view(changes@) == workspace_edit_out(vfs@, entries@.take(i as int)),
    {
        let entry = &entries[i];
        assert(entries@.take(i + 1).drop_last() =~= entries@.take(i as int));
        assert(has_file(vfs@, entries@[i as int].0));
        if entry.1.len() > 0 {
            let uri = vfs.uri_for_file(entry.0);
            let edits = to_text_edits(vfs, entry.0, &entry.1);
            let ghost prev = changes@;
            changes.push((uri, edits));
            assert(changes_view(changes@) =~= changes_view(prev).push(
                file_edits_out(vfs@, entry.0, entry.1@),
            ));
        }
    }
    assert(entries@.take(entries@.len() as int) =~= entries@);
    protocol::WorkspaceEdit { changes }
}

/// The output of a concatenation of diagnostic lists is the concatenation of
/// their outputs.
pub proof fn lemma_diagnostics_out_concat(
    v: VfsView,
    file: FileId,
    a: Seq<analysis::Diagnostic>,
    b: Seq<analysis::Diagnostic>,
)
    ensures
        diagnostics_out(v, file, a + b) == diagnostics_out(v, file, a) + diagnostics_out(v, file, b),
    decreases b.len(),
{
    if b.len() == 0 {
        assert(a + b =~= a);
        assert(diagnostics_out(v, file, a) + diagnostics_out(v, file, b) =~= diagnostics_out(
            v,
            file,
            a,
        ));
    } else {
        assert((a + b).drop_last() =~= a + b.drop_last());
        assert((a + b).last() == b.last());
        lemma_diagnostics_out_concat(v, file, a, b.drop_last());
        assert(diagnostics_out(v, file, a + b) =~= diagnostics_out(v, file, a) + diagnostics_out(
            v,
            file,
            b,
        ));
    }
}

/// A one-element list gives what its element gives.
pub proof fn lemma_single_diagnostic_out(v: VfsView, file: FileId, d: analysis::Diagnostic)
    ensures
        diagnostics_out(v, file, seq![d]) == diagnostic_out(v, file, d),
{
    let ds = seq![d];
    assert(ds.drop_last() =~= Seq::<analysis::Diagnostic>::empty());
    assert(ds.last() == d);
    assert(diagnostics_out(v, file, Seq::<analysis::Diagnostic>::empty()) == Seq::<
        DiagnosticView,
    >::empty());
    assert(diagnostics_out(v, file, ds) =~= diagnostic_out(v, file, d));
}

/// A diagnostic of incomplete syntax leaves no trace: wherever it stands in
/// a list, the output is that of the list without it.
pub proof fn lemma_incomplete_syntax_dropped(
    v: VfsView,
    file: FileId,
    a: Seq<analysis::Diagnostic>,
    d: analysis::Diagnostic,
    b: Seq<analysis::Diagnostic>,
)
    requires
        d.severity == Severity::IncompleteSyntax,
    ensures
        diagnostics_out(v, file, a + seq![d] + b) == diagnostics_out(v, file, a + b),
{
    lemma_diagnostics_out_concat(v, file, a + seq![d], b);
    lemma_diagnostics_out_concat(v, file, a, seq![d]);
    lemma_diagnostics_out_concat(v, file, a, b);
    lemma_single_diagnostic_out(v, file, d);
    assert(diagnostics_out(v, file, a) + diagnostics_out(v, file, seq![d]) =~= diagnostics_out(
        v,
        file,
        a,
    ));
}

/// A shown diagnostic with one note, in its own file, gives two
/// diagnostics: first a hint at the note's range whose one related
/// information points at the diagnostic's range, then the diagnostic.
pub proof fn lemma_same_file_note_hoisted(v: VfsView, file: FileId, d: analysis::Diagnostic)
    requires
        severity_of(d.severity) is Some,
        d.notes@.len() == 1,
        d.notes@[0].range.file_id == file,
    ensures
        ({
            let out = diagnostics_out(v, file, seq![d]);
            &&& out.len() == 2
            &&& out[0] == hint_of(v, file, d, d.notes@[0])
            &&& out[1] == primary_of(v, file, d, severity_of(d.severity)->0)
            &&& out[0].severity == DiagnosticSeverity::Hint
            &&& out[0].range == range_at(text_of(v, file), d.notes@[0].range.range)
            &&& out[0].related.len() == 1
            &&& out[0].related[0].location.uri == uri_of(v, file)
            &&& out[0].related[0].location.range == out[1].range
        }),
{
    lemma_single_diagnostic_out(v, file, d);
    assert(d.notes@.drop_last() =~= Seq::<Note>::empty());
    assert(hints_of(v, file, d, Seq::<Note>::empty()) == Seq::<DiagnosticView>::empty());
    assert(d.notes@.last() == d.notes@[0]);
}

/// A shown diagnostic with one note, in another file, gives the diagnostic
/// alone, the note among its related information.
pub proof fn lemma_other_file_note_kept(v: VfsView, file: FileId, d: analysis::Diagnostic)
    requires
        severity_of(d.severity) is Some,
        d.notes@.len() == 1,
        d.notes@[0].range.file_id != file,
    ensures
        ({
            let out = diagnostics_out(v, file, seq![d]);
            &&& out.len() == 1
            &&& out[0] == primary_of(v, file, d, severity_of(d.severity)->0)
            &&& out[0].related == seq![note_info(v, d.notes@[0])]
        }),
{
    lemma_single_diagnostic_out(v, file, d);
    assert(d.notes@.drop_last() =~= Seq::<Note>::empty());
    assert(hints_of(v, file, d, Seq::<Note>::empty()) == Seq::<DiagnosticView>::empty());
    assert(d.notes@.last() == d.notes@[0]);
    assert(notes_info(v, d.notes@) =~= seq![note_info(v, d.notes@[0])]);
}

/// The completion kind table, entry by entry.
pub proof fn lemma_completion_kind_table()
    ensures
        completion_kind_of(analysis::CompletionItemKind::Keyword)
            == protocol::CompletionItemKind::Keyword,
        completion_kind_of(analysis::CompletionItemKind::Param)
            == protocol::CompletionItemKind::Variable,
        completion_kind_of(analysis::CompletionItemKind::LetBinding)
            == protocol::CompletionItemKind::Variable,
        completion_kind_of(analysis::CompletionItemKind::Field)
            == protocol::CompletionItemKind::Field,
        completion_kind_of(analysis::CompletionItemKind::BuiltinConst)
            == protocol::CompletionItemKind::Constant,
        completion_kind_of(analysis::CompletionItemKind::BuiltinFunction)
            == protocol::CompletionItemKind::Function,
        completion_kind_of(analysis::CompletionItemKind::BuiltinAttrset)
            == protocol::CompletionItemKind::Class,
{
}

/// The edits of one file come out the same, whether the workspace edit holds
/// them alone or beside those of another file, before or after them.
pub proof fn lemma_workspace_files_independent(
    v: VfsView,
    a: (FileId, Vec<analysis::TextEdit>),
    b: (FileId, Vec<analysis::TextEdit>),
)
    requires
        a.1@.len() > 0,
    ensures
        workspace_edit_out(v, seq![a]) == seq![file_edits_out(v, a.0, a.1@)],
        workspace_edit_out(v, seq![a, b])[0] == file_edits_out(v, a.0, a.1@),
        workspace_edit_out(v, seq![b, a]).last() == file_edits_out(v, a.0, a.1@),
{
    let none = Seq::<(FileId, Vec<analysis::TextEdit>)>::empty();
    assert(seq![a].drop_last() =~= none);
    assert(seq![b].drop_last() =~= none);
    assert(seq![a, b].drop_last() =~= seq![a]);
    assert(seq![b, a].drop_last() =~= seq![b]);
    assert(seq![a].last() == a);
    assert(seq![a, b].last() == b);
    assert(seq![b, a].last() == a);
    assert(seq![b].last() == b);
    assert(workspace_edit_out(v, none) == Seq::<(Seq<char>, Seq<TextEditView>)>::empty());
    assert(workspace_edit_out(v, seq![a]) =~= seq![file_edits_out(v, a.0, a.1@)]);
}

/// Looking up the URI of a file of the store gives that file, and never
/// fails.
pub proof fn lemma_uri_lookup_gives_file(v: VfsView, f: FileId, g: FileId)
    requires
        distinct_uris(v),
        has_file(v, f),
    ensures
        tracks_uri(v, uri_of(v, f)),
        is_file_for_uri(v, uri_of(v, f), g) ==> g == f,
{
    assert(v[f.0 as int].0 == uri_of(v, f));
    if is_file_for_uri(v, uri_of(v, f), g) && g != f {
        assert(v[g.0 as int].0 == v[f.0 as int].0);
    }
}

/// A request made of a file's URI and the position of a boundary offset `o`
/// of its text resolves to that file and `o`.
pub proof fn lemma_file_pos_round_trip(v: VfsView, f: FileId, g: FileId, o: int)
    requires
        distinct_uris(v),
        has_file(v, f),
        byte_len(text_of(v, f)) <= u32::MAX,
        is_boundary(text_of(v, f), o),
    ensures
        tracks_uri(v, uri_of(v, f)),
        is_file_for_uri(v, uri_of(v, f), g) ==> g == f,
        pos_offset(
            text_of(v, f),
            position_at(text_of(v, f), o).line as int,
            position_at(text_of(v, f), o).character as int,
        ) == o,
{
    lemma_uri_lookup_gives_file(v, f, g);
    let t = text_of(v, f);
    let i = char_index_of(t, o);
    lemma_col_line_le_bytes(t, i);
    lemma_byte_offset_grows(t, i, t.len() as int);
    lemma_round_trip(t, o);
}

/// The diagnostics that are shown: all but those of incomplete syntax.
pub open spec fn shown() -> spec_fn(analysis::Diagnostic) -> bool {
    |d: analysis::Diagnostic| d.severity != Severity::IncompleteSyntax
}

/// Taking every diagnostic of incomplete syntax out of a list leaves its
/// output unchanged, and a list of only such diagnostics gives nothing.
pub proof fn lemma_incomplete_syntax_filtered(
    v: VfsView,
    file: FileId,
    ds: Seq<analysis::Diagnostic>,
)
    ensures
        diagnostics_out(v, file, ds) == diagnostics_out(v, file, ds.filter(shown())),
        (forall|i: int| 0 <= i < ds.len() ==> (#[trigger] ds[i]).severity == Severity::IncompleteSyntax)
            ==> diagnostics_out(v, file, ds).len() == 0,
    decreases ds.len(),
{
    reveal(Seq::filter);
    if ds.len() > 0 {
        let init = ds.drop_last();
        let last = ds.last();
        lemma_incomplete_syntax_filtered(v, file, init);
        let f = init.filter(shown());
        assert(ds.filter(shown()) == if shown()(last) {
            f.push(last)
        } else {
            f
        });
        if shown()(last) {
            assert(f.push(last).drop_last() =~= f);
            assert(f.push(last).last() == last);
        } else {
            assert(diagnostic_out(v, file, last) =~= Seq::<DiagnosticView>::empty());
            assert(diagnostics_out(v, file, ds) =~= diagnostics_out(v, file, init));
        }
        if forall|i: int| 0 <= i < ds.len() ==> (#[trigger] ds[i]).severity == Severity::IncompleteSyntax {
            assert forall|i: int| 0 <= i < init.len() implies (#[trigger] init[i]).severity
                == Severity::IncompleteSyntax by {
                assert(init[i] == ds[i]);
            }
            assert(last == ds[ds.len() - 1]);
            assert(diagnostic_out(v, file, last) =~= Seq::<DiagnosticView>::empty());
        }
    }
}

} // verus!
