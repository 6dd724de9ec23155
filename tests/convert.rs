use nil_convert::analysis::{
    ByteRange, CompletionItem, CompletionItemKind, Diagnostic, FileId, FilePos, FileRange, Note,
    Severity, TextEdit, WorkspaceEdit,
};
use nil_convert::convert::{
    from_file, from_file_pos, from_pos, to_completion_item, to_completion_kind, to_diagnostics,
    to_location, to_prepare_rename_response, to_range, to_rename_error, to_text_edit,
    to_workspace_edit,
};
use nil_convert::line_map::LineMap;
use nil_convert::protocol::{
    self, DiagnosticSeverity, DiagnosticTag, ErrorCode, InsertTextFormat, InsertTextMode, Position,
    PrepareRenameResponse, Range, TextDocumentIdentifier, TextDocumentPositionParams,
};
use nil_convert::vfs::Vfs;
use protocol::CompletionItemKind as P;

fn range(l1: u32, c1: u32, l2: u32, c2: u32) -> Range {
    Range {
        start: Position { line: l1, character: c1 },
        end: Position { line: l2, character: c2 },
    }
}

fn br(start: u32, end: u32) -> ByteRange {
    ByteRange { start, end }
}

fn store() -> (Vfs, FileId, FileId) {
    let mut vfs = Vfs::new();
    let a = vfs.add_file("file:///a.nix".to_string(), "a = 1\nb = a\n").unwrap();
    let b = vfs.add_file("file:///b.nix".to_string(), "x\n\u{1F600}y = 2\n").unwrap();
    (vfs, a, b)
}

fn diag(severity: Severity, range: ByteRange, notes: Vec<Note>) -> Diagnostic {
    Diagnostic {
        severity,
        range,
        message: "msg".to_string(),
        notes,
        deprecated: false,
        unnecessary: false,
    }
}

#[test]
fn line_col_ascii() {
    let m = LineMap::new("a = 1\nb = a\n");
    assert_eq!(m.line_col(0), (0, 0));
    assert_eq!(m.line_col(5), (0, 5));
    assert_eq!(m.line_col(6), (1, 0));
    assert_eq!(m.line_col(10), (1, 4));
    assert_eq!(m.line_col(12), (2, 0));
}

#[test]
fn line_col_wide_char_counts_two_units() {
    // U+1F600 is four bytes in UTF-8 and two UTF-16 units.
    let m = LineMap::new("\u{1F600}a");
    assert_eq!(m.line_col(4), (0, 2));
    assert_eq!(m.line_col(5), (0, 3));
    let m = LineMap::new("x\n\u{1F600}a");
    assert_eq!(m.line_col(6), (1, 2));
    assert_eq!(m.line_col(7), (1, 3));
}

#[test]
fn line_col_bmp_multibyte() {
    // 'é' is two bytes, '€' three; one UTF-16 unit each.
    let m = LineMap::new("é€z");
    assert_eq!(m.line_col(2), (0, 1));
    assert_eq!(m.line_col(5), (0, 2));
    assert_eq!(m.line_col(6), (0, 3));
}

#[test]
fn pos_round_trips_every_boundary() {
    let text = "let\n  \u{1F600} = \"é€\";\r\n\nin x\u{10FFFF}";
    let m = LineMap::new(text);
    for (offset, _) in text.char_indices().chain(std::iter::once((text.len(), ' '))) {
        let (line, col) = m.line_col(offset as u32);
        assert_eq!(m.pos(line, col), offset as u32);
    }
}

#[test]
fn pos_clamps_column_to_line_end() {
    let m = LineMap::new("abc\nde\n");
    assert_eq!(m.pos(0, 3), 3);
    assert_eq!(m.pos(0, 1000), 3);
    assert_eq!(m.pos(0, u32::MAX), m.pos(0, 3));
    assert_eq!(m.pos(1, 50), 6);
}

#[test]
fn pos_clamps_line_to_last_line() {
    let m = LineMap::new("abc\nde");
    assert_eq!(m.pos(1, 1), 5);
    assert_eq!(m.pos(7, 1), 5);
    assert_eq!(m.pos(7, 100), 6);
}

#[test]
fn pos_inside_surrogate_pair_gives_char_start() {
    let m = LineMap::new("\u{1F600}a");
    assert_eq!(m.pos(0, 0), 0);
    assert_eq!(m.pos(0, 1), 0);
    assert_eq!(m.pos(0, 2), 4);
    assert_eq!(m.pos(0, 3), 5);
}

#[test]
fn empty_text() {
    let m = LineMap::new("");
    assert_eq!(m.line_col(0), (0, 0));
    assert_eq!(m.pos(0, 0), 0);
    assert_eq!(m.pos(3, 9), 0);
}

#[test]
fn diagnostic_range_scenario() {
    let (vfs, a, _) = store();
    let out = to_diagnostics(&vfs, a, &[diag(Severity::Error, br(10, 11), vec![])]);
    assert_eq!(out.len(), 1);
    assert_eq!(out[0].range, range(1, 4, 1, 5));
    assert_eq!(out[0].severity, DiagnosticSeverity::Error);
    assert_eq!(out[0].message, "msg");
    assert_eq!(out[0].related_information, vec![]);
    assert_eq!(out[0].tags, Some(vec![]));
}

#[test]
fn prepare_rename_scenario() {
    let (vfs, a, _) = store();
    let r = to_prepare_rename_response(&vfs, a, br(10, 11), "a".to_string());
    assert_eq!(
        r,
        PrepareRenameResponse::RangeWithPlaceholder {
            range: range(1, 4, 1, 5),
            placeholder: "a".to_string(),
        }
    );
}

#[test]
fn rename_error_is_invalid_request() {
    let e = to_rename_error("cannot rename a builtin".to_string());
    assert_eq!(e.code, ErrorCode::InvalidRequest);
    assert_eq!(e.message, "cannot rename a builtin");
}

#[test]
fn incomplete_syntax_is_dropped() {
    let (vfs, a, _) = store();
    let note = Note { range: FileRange { file_id: a, range: br(0, 1) }, message: "n".to_string() };
    let diags = [
        diag(Severity::IncompleteSyntax, br(0, 1), vec![note.clone()]),
        diag(Severity::Warning, br(6, 7), vec![]),
        diag(Severity::IncompleteSyntax, br(2, 3), vec![]),
    ];
    let out = to_diagnostics(&vfs, a, &diags);
    assert_eq!(out.len(), 1);
    assert_eq!(out[0].severity, DiagnosticSeverity::Warning);
    assert_eq!(out[0].range, range(1, 0, 1, 1));
    let only = to_diagnostics(&vfs, a, &[diag(Severity::IncompleteSyntax, br(0, 1), vec![note])]);
    assert!(only.is_empty());
}

#[test]
fn same_file_note_is_hoisted_before_primary() {
    let (vfs, a, _) = store();
    let note = Note {
        range: FileRange { file_id: a, range: br(0, 1) },
        message: "defined here".to_string(),
    };
    let out = to_diagnostics(&vfs, a, &[diag(Severity::Error, br(10, 11), vec![note])]);
    assert_eq!(out.len(), 2);
    let hint = &out[0];
    assert_eq!(hint.severity, DiagnosticSeverity::Hint);
    assert_eq!(hint.range, range(0, 0, 0, 1));
    assert_eq!(hint.message, "defined here");
    assert_eq!(hint.tags, None);
    assert_eq!(hint.related_information.len(), 1);
    assert_eq!(hint.related_information[0].message, "original diagnostic");
    assert_eq!(hint.related_information[0].location.uri, "file:///a.nix");
    assert_eq!(hint.related_information[0].location.range, range(1, 4, 1, 5));
    let primary = &out[1];
    assert_eq!(primary.severity, DiagnosticSeverity::Error);
    assert_eq!(primary.range, range(1, 4, 1, 5));
    assert_eq!(primary.related_information.len(), 1);
    assert_eq!(primary.related_information[0].message, "defined here");
    assert_eq!(primary.related_information[0].location.range, range(0, 0, 0, 1));
}

#[test]
fn other_file_note_is_only_related_information() {
    let (vfs, a, b) = store();
    let note = Note { range: FileRange { file_id: b, range: br(2, 7) }, message: "there".to_string() };
    let out = to_diagnostics(&vfs, a, &[diag(Severity::Warning, br(0, 1), vec![note])]);
    assert_eq!(out.len(), 1);
    assert_eq!(out[0].severity, DiagnosticSeverity::Warning);
    assert_eq!(out[0].related_information.len(), 1);
    let info = &out[0].related_information[0];
    assert_eq!(info.message, "there");
    assert_eq!(info.location.uri, "file:///b.nix");
    assert_eq!(info.location.range, range(1, 0, 1, 3));
}

#[test]
fn hints_keep_input_order() {
    let (vfs, a, b) = store();
    let n1 = Note { range: FileRange { file_id: a, range: br(0, 1) }, message: "one".to_string() };
    let n2 = Note { range: FileRange { file_id: b, range: br(0, 1) }, message: "two".to_string() };
    let n3 = Note { range: FileRange { file_id: a, range: br(4, 5) }, message: "three".to_string() };
    let diags = [
        diag(Severity::Error, br(10, 11), vec![n1, n2, n3]),
        diag(Severity::Warning, br(6, 7), vec![]),
    ];
    let out = to_diagnostics(&vfs, a, &diags);
    let messages: Vec<&str> = out.iter().map(|d| d.message.as_str()).collect();
    assert_eq!(messages, vec!["one", "three", "msg", "msg"]);
    assert_eq!(out[2].related_information.len(), 3);
    assert_eq!(out[3].severity, DiagnosticSeverity::Warning);
}

#[test]
fn diagnostic_tags() {
    let (vfs, a, _) = store();
    let mut d = diag(Severity::Warning, br(0, 1), vec![]);
    d.deprecated = true;
    d.unnecessary = true;
    let out = to_diagnostics(&vfs, a, &[d.clone()]);
    assert_eq!(out[0].tags, Some(vec![DiagnosticTag::Deprecated, DiagnosticTag::Unnecessary]));
    d.deprecated = false;
    let out = to_diagnostics(&vfs, a, &[d]);
    assert_eq!(out[0].tags, Some(vec![DiagnosticTag::Unnecessary]));
}

#[test]
fn completion_kind_table() {
    assert_eq!(to_completion_kind(CompletionItemKind::Keyword), P::Keyword);
    assert_eq!(to_completion_kind(CompletionItemKind::Param), P::Variable);
    assert_eq!(to_completion_kind(CompletionItemKind::LetBinding), P::Variable);
    assert_eq!(to_completion_kind(CompletionItemKind::Field), P::Field);
    assert_eq!(to_completion_kind(CompletionItemKind::BuiltinConst), P::Constant);
    assert_eq!(to_completion_kind(CompletionItemKind::BuiltinFunction), P::Function);
    assert_eq!(to_completion_kind(CompletionItemKind::BuiltinAttrset), P::Class);
}

#[test]
fn completion_item_is_text_edit() {
    let m = LineMap::new("x\n\u{1F600}y = 2\n");
    let item = CompletionItem {
        label: "builtins".to_string(),
        source_range: br(6, 7),
        replace: "builtins".to_string(),
        kind: CompletionItemKind::BuiltinAttrset,
    };
    let r = to_completion_item(&m, item);
    assert_eq!(r.label, "builtins");
    assert_eq!(r.kind, protocol::CompletionItemKind::Class);
    assert_eq!(r.insert_text_format, InsertTextFormat::PlainText);
    assert_eq!(r.insert_text_mode, InsertTextMode::AdjustIndentation);
    assert_eq!(r.text_edit.range, range(1, 2, 1, 3));
    assert_eq!(r.text_edit.new_text, "builtins");
}

#[test]
fn text_edit_conversion() {
    let m = LineMap::new("a = 1\nb = a\n");
    let e = to_text_edit(&m, &TextEdit { delete: br(10, 11), insert: "c".to_string() });
    assert_eq!(e.range, range(1, 4, 1, 5));
    assert_eq!(e.new_text, "c");
}

#[test]
fn workspace_edit_files_do_not_interfere() {
    let (vfs, a, b) = store();
    let a_edits = vec![
        TextEdit { delete: br(0, 1), insert: "z".to_string() },
        TextEdit { delete: br(10, 11), insert: "z".to_string() },
    ];
    let b_edits = vec![TextEdit { delete: br(2, 7), insert: "w".to_string() }];
    let alone = to_workspace_edit(&vfs, WorkspaceEdit { content_edits: vec![(a, a_edits.clone())] });
    let both = to_workspace_edit(
        &vfs,
        WorkspaceEdit { content_edits: vec![(b, b_edits.clone()), (a, a_edits.clone())] },
    );
    assert_eq!(alone.changes.len(), 1);
    assert_eq!(both.changes.len(), 2);
    assert_eq!(alone.changes[0], both.changes[1]);
    assert_eq!(alone.changes[0].0, "file:///a.nix");
    let ranges: Vec<Range> = alone.changes[0].1.iter().map(|e| e.range).collect();
    assert_eq!(ranges, vec![range(0, 0, 0, 1), range(1, 4, 1, 5)]);
    assert_eq!(both.changes[0].0, "file:///b.nix");
    assert_eq!(both.changes[0].1[0].range, range(1, 0, 1, 3));
}

#[test]
fn workspace_edit_omits_files_without_edits() {
    let (vfs, a, b) = store();
    let edits = vec![TextEdit { delete: br(0, 1), insert: "q".to_string() }];
    let r = to_workspace_edit(&vfs, WorkspaceEdit { content_edits: vec![(a, vec![]), (b, edits)] });
    assert_eq!(r.changes.len(), 1);
    assert_eq!(r.changes[0].0, "file:///b.nix");
}

#[test]
fn location_of_file_range() {
    let (vfs, _, b) = store();
    let loc = to_location(&vfs, FileRange { file_id: b, range: br(2, 7) });
    assert_eq!(loc.uri, "file:///b.nix");
    assert_eq!(loc.range, range(1, 0, 1, 3));
    let m = LineMap::new("x\n\u{1F600}y = 2\n");
    assert_eq!(to_range(&m, br(2, 7)), range(1, 0, 1, 3));
}

#[test]
fn store_hands_out_handles_in_order() {
    let (vfs, a, b) = store();
    assert_eq!(a, FileId(0));
    assert_eq!(b, FileId(1));
    assert_eq!(vfs.uri_for_file(b), "file:///b.nix");
    assert_eq!(vfs.file_line_map(b).line_col(6), (1, 2));
}

#[test]
fn re_adding_a_uri_keeps_its_handle_and_takes_the_new_text() {
    let (mut vfs, a, b) = store();
    let again = vfs.add_file("file:///a.nix".to_string(), "\u{1F600}a = 1\n").unwrap();
    assert_eq!(again, a);
    let doc = TextDocumentIdentifier { uri: "file:///a.nix".to_string() };
    assert_eq!(from_file(&vfs, &doc), Ok(a));
    assert_eq!(vfs.file_line_map(a).line_col(5), (0, 3));
    assert_eq!(from_pos(&vfs, a, Position { line: 0, character: 2 }), 4);
    let c = vfs.add_file("file:///c.nix".to_string(), "c").unwrap();
    assert_eq!(c, FileId(2));
    assert_eq!(from_file(&vfs, &TextDocumentIdentifier { uri: "file:///b.nix".to_string() }), Ok(b));
}

#[test]
fn request_round_trips_to_file_and_offset() {
    let (vfs, a, b) = store();
    for (file, uri, len) in [(a, "file:///a.nix", 12u32), (b, "file:///b.nix", 12u32)] {
        let m = vfs.file_line_map(file);
        for o in 0..=len {
            if file == b && (3..6).contains(&o) {
                continue;
            }
            let r = to_range(m, br(o, o));
            let params = TextDocumentPositionParams {
                text_document: TextDocumentIdentifier { uri: uri.to_string() },
                position: r.start,
            };
            assert_eq!(from_file_pos(&vfs, &params), Ok(FilePos { file_id: file, pos: o }));
        }
    }
}

#[test]
fn resolving_documents() {
    let (vfs, a, b) = store();
    let doc = TextDocumentIdentifier { uri: "file:///b.nix".to_string() };
    assert_eq!(from_file(&vfs, &doc), Ok(b));
    let missing = TextDocumentIdentifier { uri: "file:///c.nix".to_string() };
    assert_eq!(from_file(&vfs, &missing).unwrap_err().uri, "file:///c.nix");
    assert_eq!(from_pos(&vfs, a, Position { line: 1, character: 4 }), 10);
    assert_eq!(from_pos(&vfs, b, Position { line: 1, character: 1 }), 2);
    let params = TextDocumentPositionParams {
        text_document: doc,
        position: Position { line: 1, character: 3 },
    };
    assert_eq!(from_file_pos(&vfs, &params), Ok(FilePos { file_id: b, pos: 7 }));
    let params = TextDocumentPositionParams {
        text_document: missing,
        position: Position { line: 0, character: 0 },
    };
    assert!(from_file_pos(&vfs, &params).is_err());
}
