use block_source::edit_generation::TextMovement;
use block_source::lang::python_config;
use block_source::source::{Selections, Source};
use block_source::text_edit::{EditOrigin, TextEdit};
use block_source::text_range::{TextPoint, TextRange};

fn source_of(text: &str) -> Source {
    Source::new(ropey::Rope::from_str(text), python_config())
}

#[test]
fn dirty_flag_is_edge_triggered() {
    let mut src = source_of("x");
    assert!(src.has_text_changed_since_last_check());
    assert!(!src.has_text_changed_since_last_check());
    assert!(!src.has_text_changed_since_last_check());
    let mut sels = Selections::new();
    src.insert_str("y", &mut sels);
    assert!(src.has_text_changed_since_last_check());
    assert!(!src.has_text_changed_since_last_check());
}

#[test]
fn undo_restores_text_byte_for_byte() {
    let mut src = source_of("hello");
    let mut sels = Selections::new();
    sels.set_selection(TextRange::new_cursor(TextPoint::new(0, 2)));
    src.insert_str("XY", &mut sels);
    assert_eq!(src.text_string(), "heXYllo");
    src.undo(&mut sels);
    assert_eq!(src.text_string(), "hello");
}

#[test]
fn undo_of_deletion_restores_text() {
    let mut src = source_of("ab\ncd");
    let mut sels = Selections::new();
    sels.set_selection(TextRange::new_cursor(TextPoint::new(1, 0)));
    src.delete(TextMovement::Grapheme, &mut sels);
    assert_eq!(src.text_string(), "abcd");
    src.undo(&mut sels);
    assert_eq!(src.text_string(), "ab\ncd");
}

#[test]
fn typed_run_coalesces_and_newline_opens_group() {
    let mut src = source_of("");
    let mut sels = Selections::new();
    src.insert_char("a", &mut sels);
    src.insert_char("b", &mut sels);
    src.insert_char("c", &mut sels);
    assert_eq!(src.text_string(), "abc");
    src.insert_newline(&mut sels);
    src.insert_char("d", &mut sels);
    src.insert_char("e", &mut sels);
    assert_eq!(src.text_string(), "abc\nde");
    // the newline opened a fresh group and the following characters merged
    // into it, so the first undo lands right after "c" was typed
    src.undo(&mut sels);
    assert_eq!(src.text_string(), "abc");
    // the run of plain characters is one group
    src.undo(&mut sels);
    assert_eq!(src.text_string(), "");
    src.undo(&mut sels);
    assert_eq!(src.text_string(), "");
}

#[test]
fn redo_replays_undone_groups() {
    let mut src = source_of("");
    let mut sels = Selections::new();
    src.insert_char("a", &mut sels);
    src.insert_char("b", &mut sels);
    src.insert_newline(&mut sels);
    src.insert_char("c", &mut sels);
    assert_eq!(src.text_string(), "ab\nc");
    src.undo(&mut sels);
    src.undo(&mut sels);
    assert_eq!(src.text_string(), "");
    src.redo(&mut sels);
    assert_eq!(src.text_string(), "ab");
    // the selection lands as a cursor just after the group's last edit
    assert!(sels.selection().is_cursor());
    assert_eq!(sels.selection().start, TextPoint::new(0, 2));
    src.redo(&mut sels);
    assert_eq!(src.text_string(), "ab\nc");
    assert!(sels.selection().is_cursor());
    assert_eq!(sels.selection().start, TextPoint::new(1, 1));
    src.redo(&mut sels);
    assert_eq!(src.text_string(), "ab\nc");
}

#[test]
fn new_edit_clears_redo() {
    let mut src = source_of("");
    let mut sels = Selections::new();
    src.insert_char("a", &mut sels);
    src.undo(&mut sels);
    assert_eq!(src.text_string(), "");
    src.insert_char("b", &mut sels);
    src.redo(&mut sels);
    assert_eq!(src.text_string(), "b");
}

#[test]
fn undo_on_empty_history_changes_nothing() {
    let mut src = source_of("stay");
    let mut sels = Selections::new();
    src.undo(&mut sels);
    assert_eq!(src.text_string(), "stay");
    src.redo(&mut sels);
    assert_eq!(src.text_string(), "stay");
}

#[test]
fn undo_moves_selection_to_where_edits_began() {
    let mut src = source_of("hello");
    let mut sels = Selections::new();
    sels.set_selection(TextRange::new_cursor(TextPoint::new(0, 3)));
    src.insert_str("Q", &mut sels);
    src.undo(&mut sels);
    assert_eq!(sels.selection().start, TextPoint::new(0, 3));
    assert_eq!(sels.selection().end, TextPoint::new(0, 3));
}

#[test]
fn cursor_teleport_splits_groups() {
    let mut src = source_of("");
    let mut sels = Selections::new();
    src.insert_char("a", &mut sels);
    src.external_cursor_move();
    src.insert_char("b", &mut sels);
    assert_eq!(src.text_string(), "ab");
    src.undo(&mut sels);
    assert_eq!(src.text_string(), "a");
    src.undo(&mut sels);
    assert_eq!(src.text_string(), "");
}

#[test]
fn undo_raises_dirty_flag() {
    let mut src = source_of("");
    let mut sels = Selections::new();
    src.insert_char("a", &mut sels);
    let _ = src.has_text_changed_since_last_check();
    assert!(!src.has_text_changed_since_last_check());
    src.undo(&mut sels);
    assert!(src.has_text_changed_since_last_check());
}

#[test]
fn set_text_resets_history() {
    let mut src = source_of("old");
    let mut sels = Selections::new();
    src.insert_char("a", &mut sels);
    src.set_text("fresh text");
    assert_eq!(src.text_string(), "fresh text");
    assert!(src.has_text_changed_since_last_check());
    sels.set_selection(TextRange::new_cursor(TextPoint::new(0, 0)));
    src.undo(&mut sels);
    assert_eq!(src.text_string(), "fresh text");
}

#[test]
fn external_edit_participates_in_undo() {
    let mut src = source_of("abc");
    let mut sels = Selections::new();
    let edit = TextEdit::new_with_origin(
        String::from("X"),
        TextRange::new_cursor(TextPoint::new(0, 1)),
        EditOrigin::External,
    );
    src.apply_edit(
        &edit,
        block_source::undo_manager::UndoStopCondition::Always,
        true,
        &mut sels,
    );
    assert_eq!(src.text_string(), "aXbc");
    src.undo(&mut sels);
    assert_eq!(src.text_string(), "abc");
}

#[test]
fn multiline_unicode_edit_round_trips() {
    let mut src = source_of("αβ\nγδ");
    let mut sels = Selections::new();
    sels.set_selection(TextRange::new_cursor(TextPoint::new(1, 1)));
    src.insert_str("π\nρ", &mut sels);
    assert_eq!(src.text_string(), "αβ\nγπ\nρδ");
    assert_eq!(sels.selection().start, TextPoint::new(2, 1));
    src.undo(&mut sels);
    assert_eq!(src.text_string(), "αβ\nγδ");
}

#[test]
fn undo_of_indent_restores_lines() {
    let mut src = source_of("a\nb");
    let mut sels = Selections::new();
    sels.set_selection(TextRange::new(TextPoint::new(0, 0), TextPoint::new(1, 1)));
    src.indent(&mut sels);
    assert_eq!(src.text_string(), "    a\n    b");
    src.undo(&mut sels);
    assert_eq!(src.text_string(), "a\nb");
}
