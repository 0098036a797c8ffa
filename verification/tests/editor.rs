use review_annotation::buffer::{
    row_text, scope_for_row, BufferEdit, BufferRow, MultiBufferSnapshot, Point, ScopeSpan,
};
use review_annotation::editor::{
    Editor, SelectionPoints, BASE_TEXT_NOTICE, DELETED_LINE_NOTICE, LINE_GONE_NOTICE,
    NONE_ABOVE_NOTICE, NONE_BELOW_NOTICE, NOT_A_MARKER_NOTICE, NO_SYNTAX_NOTICE, READ_ONLY_NOTICE,
};
use review_annotation::labels::{EditorSettings, StatusColors};
use review_annotation::popup::{
    badge, Bias, BlockPlacement, BlockStyle, CustomBlockId, Effect, PromptAction, PLACEHOLDER,
};
use review_annotation::scope::{BlockComment, LanguageScope};

fn rust() -> Option<LanguageScope> {
    Some(LanguageScope {
        line_comment_prefixes: vec!["// ".to_string(), "/// ".to_string()],
        block_comment: Some(BlockComment {
            start: "/*".to_string(),
            end: "*/".to_string(),
        }),
    })
}

fn css() -> Option<LanguageScope> {
    Some(LanguageScope {
        line_comment_prefixes: vec![],
        block_comment: Some(BlockComment {
            start: "/*".to_string(),
            end: "*/".to_string(),
        }),
    })
}

fn row(text: &str, scope: Option<LanguageScope>) -> BufferRow {
    BufferRow {
        text: text.to_string(),
        deleted: false,
        scopes: vec![ScopeSpan { start: 0, scope }],
    }
}

fn deleted(text: &str) -> BufferRow {
    BufferRow {
        text: text.to_string(),
        deleted: true,
        scopes: vec![ScopeSpan {
            start: 0,
            scope: rust(),
        }],
    }
}

fn at(row: u32, column: u32) -> Point {
    Point { row, column }
}

fn cursor(row: u32) -> SelectionPoints {
    SelectionPoints {
        start: at(row, 0),
        end: at(row, 1),
    }
}

fn editor(rows: Vec<BufferRow>, selection: SelectionPoints) -> Editor {
    Editor {
        read_only: false,
        in_workspace: true,
        settings: EditorSettings {
            review_annotation_types: vec![],
        },
        buffer: MultiBufferSnapshot { rows },
        selection,
        review_annotation_popup: None,
        effects: vec![],
    }
}

fn open(editor: &mut Editor) {
    let request = editor.insert_review_annotation().expect("the popup opens");
    assert!(editor.open_review_annotation_popup(request, Some(CustomBlockId(7))));
    assert!(matches!(
        editor.effects.as_slice(),
        [Effect::FocusPrompt, Effect::Notify]
    ));
    editor.effects.clear();
}

fn type_in(editor: &mut Editor, text: &str) {
    match &mut editor.review_annotation_popup {
        Some(popup) => popup.prompt_editor.text = text.to_string(),
        None => panic!("no popup is open"),
    }
}

fn typed(editor: &Editor) -> String {
    match editor.review_annotation_prompt_editor() {
        Some(prompt) => prompt.text.clone(),
        None => panic!("no popup is open"),
    }
}

/// The notice that the last call showed, and nothing else.
fn only_notice(editor: &mut Editor) -> String {
    let notice = match editor.effects.as_slice() {
        [Effect::ShowToast(message)] => message.clone(),
        _ => panic!("a single notice was expected"),
    };
    editor.effects.clear();
    notice
}

/// The edit that closing the popup wrote.
fn submitted(editor: &mut Editor) -> BufferEdit {
    let mut effects = std::mem::take(&mut editor.effects);
    assert_eq!(effects.len(), 4);
    assert!(matches!(effects[1], Effect::RemoveBlock(CustomBlockId(7))));
    assert!(matches!(effects[2], Effect::FocusEditor));
    assert!(matches!(effects[3], Effect::Notify));
    assert!(editor.review_annotation_popup.is_none());
    match effects.remove(0) {
        Effect::Edit(edit) => edit,
        _ => panic!("an edit was expected"),
    }
}

fn apply(rows: &[&str], edit: &BufferEdit) -> Vec<String> {
    let text = rows.join("\n");
    let offset = |point: Point| {
        rows.iter()
            .take(point.row as usize)
            .map(|row| row.len() + 1)
            .sum::<usize>()
            + point.column as usize
    };
    let changed = format!(
        "{}{}{}",
        &text[..offset(edit.start)],
        edit.text,
        &text[offset(edit.end)..]
    );
    changed.split('\n').map(|row| row.to_string()).collect()
}

#[test]
fn opens_below_the_row() {
    let mut editor = editor(vec![row("fn a() {", rust()), row("  b\u{e9}();", rust())], cursor(1));
    let request = editor.insert_review_annotation().expect("the popup opens");
    assert!(editor.effects.is_empty());
    assert_eq!(request.block.style, BlockStyle::Sticky);
    assert_eq!(
        request.block.placement,
        BlockPlacement::Below {
            point: at(1, 8),
            bias: Bias::Right
        }
    );
    assert_eq!(request.block.height, Some(2));
    assert_eq!(request.block.priority, 0);
    assert_eq!(request.prompt_editor.placeholder, PLACEHOLDER);
    assert_eq!(request.prompt_editor.text, "");
    assert_eq!(request.anchor.row, 1);
    assert!(request.anchor.valid);
    assert_eq!(request.anchor.bias, Bias::Left);
    assert_eq!(request.types, vec!["ISSUE", "SUGGESTION", "NOTE", "PRAISE"]);
    assert_eq!(request.type_index, 0);
    assert_eq!(request.span_rows, 0);
}

#[test]
fn opens_on_a_marker_to_edit_it() {
    let mut editor = editor(
        vec![row("// [NOTE:+5] old text", rust()), row("code", rust())],
        SelectionPoints {
            start: at(0, 0),
            end: at(1, 2),
        },
    );
    let request = editor.insert_review_annotation().expect("the popup opens");
    assert_eq!(request.type_index, 2);
    assert_eq!(request.prompt_editor.text, "old text");
    assert_eq!(request.span_rows, 5);
}

#[test]
fn without_a_block_nothing_opens() {
    let mut editor = editor(vec![row("code", rust())], cursor(0));
    let request = editor.insert_review_annotation().expect("the popup opens");
    assert!(!editor.open_review_annotation_popup(request, None));
    assert!(editor.review_annotation_popup.is_none());
    assert!(editor.effects.is_empty());
}

#[test]
fn an_open_popup_is_focused() {
    let mut editor = editor(vec![row("code", rust())], cursor(0));
    open(&mut editor);
    type_in(&mut editor, "half a thought");
    assert!(editor.insert_review_annotation().is_none());
    assert!(matches!(editor.effects.as_slice(), [Effect::FocusPrompt]));
    assert_eq!(typed(&editor), "half a thought");
}

#[test]
fn refuses_to_open_where_a_marker_is_not_valid() {
    let mut read_only = editor(vec![row("code", rust())], cursor(0));
    read_only.read_only = true;
    assert!(read_only.insert_review_annotation().is_none());
    assert_eq!(only_notice(&mut read_only), READ_ONLY_NOTICE);

    let mut gone = editor(vec![deleted("code")], cursor(0));
    assert!(gone.resolve_annotation_target().is_none());
    assert_eq!(only_notice(&mut gone), DELETED_LINE_NOTICE);

    let mut plain = editor(vec![row("prose", None)], cursor(0));
    assert!(plain.insert_review_annotation().is_none());
    assert_eq!(only_notice(&mut plain), NO_SYNTAX_NOTICE);

    plain.in_workspace = false;
    assert!(plain.insert_review_annotation().is_none());
    assert!(plain.effects.is_empty());
}

#[test]
fn the_selection_gives_the_rows() {
    let rows = || vec![row("a", rust()), row("b", rust()), row("c", rust())];
    let over = |start: Point, end: Point| editor(rows(), SelectionPoints { start, end });
    assert_eq!(over(at(0, 0), at(2, 1)).selected_rows(), (0, 2));
    assert_eq!(over(at(0, 0), at(2, 0)).selected_rows(), (0, 1));
    assert_eq!(over(at(1, 0), at(1, 0)).selected_rows(), (1, 1));
    assert_eq!(over(at(2, 0), at(1, 1)).selected_rows(), (2, 2));
    assert_eq!(over(at(1, 0), at(2, 1)).cursor_row(), 1);
}

#[test]
fn the_span_counts_rows_of_the_working_copy() {
    let mut editor = editor(
        vec![row("a", rust()), deleted("b"), deleted("c"), row("d", rust())],
        SelectionPoints {
            start: at(0, 0),
            end: at(3, 1),
        },
    );
    assert_eq!(editor.live_span_rows(&editor.buffer, 0, 3), 1);
    assert_eq!(editor.live_span_rows(&editor.buffer, 1, 2), 0);
    assert_eq!(editor.live_span_rows(&editor.buffer, 3, 3), 0);
    assert_eq!(editor.live_span_rows(&editor.buffer, 9, 8), 0);
    assert!(editor.row_is_deleted(&editor.buffer, 1));
    assert!(!editor.row_is_deleted(&editor.buffer, 3));
    let target = editor.resolve_annotation_target().expect("a target");
    assert_eq!((target.row, target.span_rows), (0, 1));
    assert!(target.existing.is_none());
}

#[test]
fn the_language_is_that_of_the_text() {
    let fenced = BufferRow {
        text: "  code".to_string(),
        deleted: false,
        scopes: vec![
            ScopeSpan { start: 0, scope: None },
            ScopeSpan { start: 2, scope: rust() },
        ],
    };
    let snapshot = MultiBufferSnapshot { rows: vec![fenced] };
    let line = row_text(&snapshot, 0);
    assert_eq!(line, "  code");
    assert!(scope_for_row(&snapshot, 0, &line).is_some());
    assert!(scope_for_row(&snapshot, 0, "code").is_none());
    assert!(snapshot.language_scope_at(at(0, 1)).is_none());
    assert!(snapshot.language_scope_at(at(0, 5)).is_some());
    assert_eq!(snapshot.line_len(0), 6);
    assert_eq!(snapshot.max_row(), 0);
}

#[test]
fn writes_a_new_marker_above_the_row() {
    let mut editor = editor(vec![row("a", rust()), row("    b", rust())], cursor(1));
    open(&mut editor);
    type_in(&mut editor, "  look\n here ");
    editor.submit_review_annotation();
    let edit = submitted(&mut editor);
    assert_eq!((edit.start, edit.end), (at(1, 0), at(1, 0)));
    assert_eq!(edit.text, "    // [ISSUE] look here\n");
    assert_eq!(
        apply(&["a", "    b"], &edit),
        vec!["a", "    // [ISSUE] look here", "    b"]
    );
}

#[test]
fn a_marker_of_several_rows_keeps_the_rows_below() {
    let scope = Some(LanguageScope {
        line_comment_prefixes: vec![],
        block_comment: Some(BlockComment {
            start: "begin\n".to_string(),
            end: "end".to_string(),
        }),
    });
    let mut editor = editor(vec![row("a", None), row("b", scope)], cursor(1));
    open(&mut editor);
    type_in(&mut editor, "why");
    editor.submit_review_annotation();
    let edit = submitted(&mut editor);
    assert_eq!(
        apply(&["a", "b"], &edit),
        vec!["a", "begin", " [ISSUE] why end", "b"]
    );
}

#[test]
fn rewrites_a_marker_in_place() {
    let rows = ["/// [NOTE:+2] old", "code"];
    let mut editor = editor(vec![row(rows[0], rust()), row(rows[1], rust())], cursor(0));
    open(&mut editor);
    assert_eq!(typed(&editor), "old");
    type_in(&mut editor, "new");
    editor.handle_prompt_action(PromptAction::Tab);
    editor.effects.clear();
    editor.handle_prompt_action(PromptAction::Newline);
    let edit = submitted(&mut editor);
    assert_eq!((edit.start, edit.end), (at(0, 0), at(0, 17)));
    assert_eq!(apply(&rows, &edit), vec!["/// [PRAISE:+2] new", "code"]);
}

#[test]
fn a_block_marker_stays_a_block_comment() {
    let rows = ["  /* [NOTE:+2] old */", "code"];
    let mut editor = editor(vec![row(rows[0], rust()), row(rows[1], rust())], cursor(0));
    open(&mut editor);
    type_in(&mut editor, "new */ text");
    editor.submit_review_annotation();
    assert_eq!(
        only_notice(&mut editor),
        "A review comment here cannot contain `*/`, which would close the comment early."
    );
    assert_eq!(typed(&editor), "new */ text");
    type_in(&mut editor, "new text");
    editor.submit_review_annotation();
    let edit = submitted(&mut editor);
    assert_eq!(apply(&rows, &edit), vec!["  /* [NOTE:+2] new text */", "code"]);
}

#[test]
fn an_editor_is_valid_within_its_buffer() {
    let valid = || editor(vec![row("a", rust()), row("b", rust())], cursor(1));
    assert!(valid().is_valid());
    assert!(!editor(vec![], cursor(0)).is_valid());
    let mut beyond = valid();
    beyond.selection = cursor(2);
    assert!(!beyond.is_valid());
    let mut torn = valid();
    torn.buffer.rows[0].text = "a\nb".to_string();
    assert!(!torn.is_valid());
    let mut untyped = valid();
    open(&mut untyped);
    assert!(untyped.is_valid());
    if let Some(popup) = &mut untyped.review_annotation_popup {
        popup.type_index = 4;
    }
    assert!(!untyped.is_valid());
    let mut unusable = valid();
    open(&mut unusable);
    if let Some(popup) = &mut unusable.review_annotation_popup {
        popup.types[3] = "NO\nTYPE".to_string();
    }
    assert!(!unusable.is_valid());
    let mut doubled = valid();
    open(&mut doubled);
    if let Some(popup) = &mut doubled.review_annotation_popup {
        popup.types[3] = "ISSUE".to_string();
    }
    assert!(!doubled.is_valid());
    let mut adrift = valid();
    open(&mut adrift);
    if let Some(popup) = &mut adrift.review_annotation_popup {
        popup.anchor.row = 2;
    }
    assert!(!adrift.is_valid());
    if let Some(popup) = &mut adrift.review_annotation_popup {
        popup.anchor.valid = false;
    }
    assert!(adrift.is_valid());
}

#[test]
fn a_marker_deleted_meanwhile_is_not_overwritten() {
    let mut editor = editor(vec![row("// [NOTE] old", rust()), row("code", rust())], cursor(0));
    open(&mut editor);
    editor.buffer.rows.remove(0);
    editor.selection = cursor(0);
    editor.submit_review_annotation();
    let edit = submitted(&mut editor);
    assert_eq!(apply(&["code"], &edit), vec!["// [NOTE] old", "code"]);
}

#[test]
fn an_empty_comment_closes_the_popup() {
    let mut editor = editor(vec![row("code", rust())], cursor(0));
    open(&mut editor);
    type_in(&mut editor, " \n\t ");
    editor.submit_review_annotation();
    assert!(editor.review_annotation_popup.is_none());
    assert!(matches!(
        editor.effects.as_slice(),
        [
            Effect::RemoveBlock(CustomBlockId(7)),
            Effect::FocusEditor,
            Effect::Notify
        ]
    ));
}

#[test]
fn without_a_popup_submitting_does_nothing() {
    let mut editor = editor(vec![row("code", rust())], cursor(0));
    editor.submit_review_annotation();
    editor.dismiss_review_annotation_popup();
    editor.cycle_review_annotation_kind(false);
    assert!(editor.effects.is_empty());
    assert!(editor.review_annotation_prompt_editor().is_none());
}

#[test]
fn a_refusal_keeps_the_comment() {
    let start = || {
        let mut editor = editor(vec![row("code", rust())], cursor(0));
        open(&mut editor);
        type_in(&mut editor, "kept */ text");
        editor
    };

    let mut read_only = start();
    read_only.read_only = true;
    read_only.submit_review_annotation();
    assert_eq!(only_notice(&mut read_only), READ_ONLY_NOTICE);
    assert_eq!(typed(&read_only), "kept */ text");

    let mut gone = start();
    if let Some(popup) = &mut gone.review_annotation_popup {
        popup.anchor.valid = false;
    }
    gone.submit_review_annotation();
    assert_eq!(only_notice(&mut gone), LINE_GONE_NOTICE);
    assert_eq!(typed(&gone), "kept */ text");

    let mut base = start();
    base.buffer.rows[0].deleted = true;
    base.submit_review_annotation();
    assert_eq!(only_notice(&mut base), DELETED_LINE_NOTICE);
    assert_eq!(typed(&base), "kept */ text");

    let mut plain = start();
    plain.buffer.rows[0] = row("prose", None);
    plain.submit_review_annotation();
    assert_eq!(only_notice(&mut plain), NO_SYNTAX_NOTICE);
    assert_eq!(typed(&plain), "kept */ text");

    let mut style = start();
    style.buffer.rows[0] = row("a {}", css());
    style.submit_review_annotation();
    assert_eq!(
        only_notice(&mut style),
        "A review comment here cannot contain `*/`, which would close the comment early."
    );
    assert_eq!(typed(&style), "kept */ text");

    let mut fine = start();
    fine.submit_review_annotation();
    assert_eq!(submitted(&mut fine).text, "// [ISSUE] kept */ text\n");
}

#[test]
fn a_block_comment_is_written_where_there_are_no_line_comments() {
    let mut editor = editor(vec![row("\ta {}", css())], cursor(0));
    open(&mut editor);
    type_in(&mut editor, "too wide");
    editor.submit_review_annotation();
    assert_eq!(submitted(&mut editor).text, "\t/* [ISSUE] too wide */\n");
}

#[test]
fn tab_goes_around_the_types() {
    let mut editor = editor(vec![row("code", rust())], cursor(0));
    open(&mut editor);
    let selected = |editor: &Editor| match &editor.review_annotation_popup {
        Some(popup) => popup.selected_type().to_string(),
        None => panic!("no popup is open"),
    };
    let mut seen = vec![selected(&editor)];
    for _ in 0..4 {
        editor.handle_prompt_action(PromptAction::Tab);
        seen.push(selected(&editor));
    }
    assert_eq!(seen, vec!["ISSUE", "SUGGESTION", "NOTE", "PRAISE", "ISSUE"]);
    let mut back = vec![];
    for _ in 0..4 {
        editor.handle_prompt_action(PromptAction::Backtab);
        back.push(selected(&editor));
    }
    assert_eq!(back, vec!["PRAISE", "NOTE", "SUGGESTION", "ISSUE"]);
    editor.handle_prompt_action(PromptAction::Backtab);
    assert_eq!(selected(&editor), "PRAISE");
    editor.cycle_review_annotation_kind(false);
    assert_eq!(selected(&editor), "ISSUE");
    assert_eq!(editor.effects.len(), 10);
    assert!(editor.effects.iter().all(|effect| matches!(effect, Effect::Notify)));
}

#[test]
fn cancel_closes_the_popup() {
    let mut editor = editor(vec![row("code", rust())], cursor(0));
    open(&mut editor);
    type_in(&mut editor, "never mind");
    editor.handle_prompt_action(PromptAction::Cancel);
    assert!(editor.review_annotation_popup.is_none());
    assert_eq!(editor.effects.len(), 3);
}

fn marked_rows() -> Vec<BufferRow> {
    vec![
        row("// [ISSUE] first", rust()),
        row("code", rust()),
        deleted("// [ISSUE] gone"),
        row("// [NOTE] second", rust()),
        row("code", rust()),
    ]
}

#[test]
fn visits_the_nearest_marker() {
    let visit = |start: u32, forward: bool| {
        let mut editor = editor(marked_rows(), cursor(start));
        if forward {
            editor.go_to_next_review_annotation();
        } else {
            editor.go_to_previous_review_annotation();
        }
        match editor.effects.as_slice() {
            [Effect::SelectAndCenter(point)] => Some(*point),
            [Effect::ShowToast(message)] => {
                let expected = if forward { NONE_BELOW_NOTICE } else { NONE_ABOVE_NOTICE };
                assert_eq!(message, expected);
                None
            }
            _ => panic!("a visit or a notice was expected"),
        }
    };
    assert_eq!(visit(0, true), Some(at(3, 0)));
    assert_eq!(visit(3, true), None);
    assert_eq!(visit(4, true), None);
    assert_eq!(visit(3, false), Some(at(0, 0)));
    assert_eq!(visit(4, false), Some(at(3, 0)));
    assert_eq!(visit(0, false), None);
    assert_eq!(editor(marked_rows(), cursor(1)).find_review_annotation(true), Some(3));
}

#[test]
fn deletes_a_marker_with_its_row() {
    let rows = ["// [ISSUE] x", "code"];
    let mut first = editor(vec![row(rows[0], rust()), row(rows[1], rust())], cursor(0));
    first.delete_review_annotation();
    match first.effects.as_slice() {
        [Effect::Edit(edit)] => {
            assert_eq!((edit.start, edit.end, edit.text.as_str()), (at(0, 0), at(1, 0), ""));
            assert_eq!(apply(&rows, edit), vec!["code"]);
        }
        _ => panic!("an edit was expected"),
    }
    let mut last = editor(vec![row("code", rust()), row("// [ISSUE] x", rust())], cursor(1));
    last.delete_review_annotation();
    match last.effects.as_slice() {
        [Effect::Edit(edit)] => {
            assert_eq!((edit.start, edit.end, edit.text.as_str()), (at(1, 0), at(1, 12), ""));
            assert_eq!(apply(&["code", "// [ISSUE] x"], edit), vec!["code", ""]);
        }
        _ => panic!("an edit was expected"),
    }
}

#[test]
fn refuses_to_delete_what_is_no_marker() {
    let mut read_only = editor(marked_rows(), cursor(0));
    read_only.read_only = true;
    read_only.delete_review_annotation();
    assert_eq!(only_notice(&mut read_only), READ_ONLY_NOTICE);
    let mut base = editor(marked_rows(), cursor(2));
    base.delete_review_annotation();
    assert_eq!(only_notice(&mut base), BASE_TEXT_NOTICE);
    let mut code = editor(marked_rows(), cursor(1));
    code.delete_review_annotation();
    assert_eq!(only_notice(&mut code), NOT_A_MARKER_NOTICE);
}

#[test]
fn deleting_undoes_a_new_marker() {
    let rows = ["fn a() {", "    b();", "}"];
    let mut editor = editor(rows.iter().map(|text| row(text, rust())).collect(), cursor(1));
    open(&mut editor);
    type_in(&mut editor, "why?");
    editor.submit_review_annotation();
    let written = apply(&rows, &submitted(&mut editor));
    editor.buffer.rows = written.iter().map(|text| row(text, rust())).collect();
    editor.delete_review_annotation();
    let written: Vec<&str> = written.iter().map(|text| text.as_str()).collect();
    match editor.effects.as_slice() {
        [Effect::Edit(edit)] => assert_eq!(apply(&written, edit), rows),
        _ => panic!("an edit was expected"),
    }
}

#[test]
fn a_notice_needs_a_workspace() {
    let mut editor = editor(vec![row("code", rust())], cursor(0));
    editor.notify_review_annotation("hello".to_string());
    assert_eq!(only_notice(&mut editor), "hello");
    editor.in_workspace = false;
    editor.notify_review_annotation("hello".to_string());
    assert!(editor.effects.is_empty());
}

#[test]
fn the_badge_names_the_selected_type() {
    let status = StatusColors {
        hint: 'h',
        info: 'i',
        error: 'e',
        success: 's',
    };
    let mut editor = editor(vec![row("code", rust())], cursor(0));
    assert_eq!(badge(&editor.review_annotation_popup, &status), ("ISSUE".to_string(), 'e'));
    open(&mut editor);
    editor.cycle_review_annotation_kind(true);
    assert_eq!(badge(&editor.review_annotation_popup, &status), ("PRAISE".to_string(), 's'));
}
