use block_source::edit_generation::TextMovement;
use block_source::lang::python_config;
use block_source::source::{Selections, Source};
use block_source::text_edit::TextEdit;
use block_source::text_range::{TextPoint, TextRange};

fn source_of(text: &str) -> Source {
    Source::new(ropey::Rope::from_str(text), python_config())
}

fn cursor(line: usize, col: usize) -> TextRange {
    TextRange::new_cursor(TextPoint::new(line, col))
}

#[test]
fn pairing_quote_then_type_over() {
    let mut src = source_of("");
    let mut sels = Selections::new();
    src.insert_char("\"", &mut sels);
    assert_eq!(src.text_string(), "\"\"");
    assert_eq!(sels.selection().start, TextPoint::new(0, 1));
    assert!(sels.selection().is_cursor());
    src.insert_char("\"", &mut sels);
    assert_eq!(src.text_string(), "\"\"");
    assert_eq!(sels.selection().start, TextPoint::new(0, 2));
}

#[test]
fn pairing_bracket_and_linked_delete() {
    let mut src = source_of("");
    let mut sels = Selections::new();
    src.insert_char("(", &mut sels);
    assert_eq!(src.text_string(), "()");
    assert_eq!(sels.selection().start, TextPoint::new(0, 1));
    src.delete(TextMovement::Grapheme, &mut sels);
    assert_eq!(src.text_string(), "");
    assert_eq!(sels.selection().start, TextPoint::new(0, 0));
}

#[test]
fn no_pairing_before_word_character() {
    let mut src = source_of("word");
    let mut sels = Selections::new();
    sels.set_selection(cursor(0, 0));
    src.insert_char("(", &mut sels);
    assert_eq!(src.text_string(), "(word");
    assert_eq!(sels.selection().start, TextPoint::new(0, 1));
}

#[test]
fn quote_not_paired_next_to_same_quote() {
    let mut src = source_of("\"\"");
    let mut sels = Selections::new();
    sels.set_selection(cursor(0, 2));
    src.insert_char("\"", &mut sels);
    assert_eq!(src.text_string(), "\"\"\"");
    assert_eq!(sels.selection().start, TextPoint::new(0, 3));
}

#[test]
fn format_string_prefix_still_pairs() {
    let mut src = source_of("f");
    let mut sels = Selections::new();
    sels.set_selection(cursor(0, 1));
    src.insert_char("\"", &mut sels);
    assert_eq!(src.text_string(), "f\"\"");
    assert_eq!(sels.selection().start, TextPoint::new(0, 2));
}

#[test]
fn dedent_on_backspace() {
    let mut src = source_of("    x");
    let mut sels = Selections::new();
    sels.set_selection(cursor(0, 4));
    src.delete(TextMovement::Grapheme, &mut sels);
    assert_eq!(src.text_string(), "x");
    assert_eq!(sels.selection().start, TextPoint::new(0, 0));
}

#[test]
fn dedent_stops_at_unit_boundary() {
    let mut src = source_of("      x");
    let mut sels = Selections::new();
    sels.set_selection(cursor(0, 6));
    src.delete(TextMovement::Grapheme, &mut sels);
    assert_eq!(src.text_string(), "    x");
    assert_eq!(sels.selection().start, TextPoint::new(0, 4));
}

#[test]
fn delete_noop_at_origin() {
    let mut src = source_of("hello world");
    let mut sels = Selections::new();
    src.delete(TextMovement::Grapheme, &mut sels);
    assert_eq!(src.text_string(), "hello world");
    assert_eq!(sels.selection().start, TextPoint::new(0, 0));
    assert!(sels.selection().is_cursor());
}

#[test]
fn delete_merges_lines_at_column_zero() {
    let mut src = source_of("ab\ncd");
    let mut sels = Selections::new();
    sels.set_selection(cursor(1, 0));
    src.delete(TextMovement::Grapheme, &mut sels);
    assert_eq!(src.text_string(), "abcd");
    assert_eq!(sels.selection().start, TextPoint::new(0, 2));
}

#[test]
fn delete_selection_removes_it_whole() {
    let mut src = source_of("hello");
    let mut sels = Selections::new();
    sels.set_selection(TextRange::new(TextPoint::new(0, 1), TextPoint::new(0, 4)));
    src.delete(TextMovement::Grapheme, &mut sels);
    assert_eq!(src.text_string(), "ho");
    assert_eq!(sels.selection().start, TextPoint::new(0, 1));
}

#[test]
fn delete_word_takes_word_run() {
    let mut src = source_of("foo bar");
    let mut sels = Selections::new();
    sels.set_selection(cursor(0, 7));
    src.delete(TextMovement::Word, &mut sels);
    assert_eq!(src.text_string(), "foo ");
    assert_eq!(sels.selection().start, TextPoint::new(0, 4));
}

#[test]
fn delete_pseudo_selection() {
    let mut src = source_of("hello");
    let mut sels = Selections::new();
    sels.set_selection(cursor(0, 2));
    sels.set_pseudo_selection(Some(TextRange::new(
        TextPoint::new(0, 1),
        TextPoint::new(0, 3),
    )));
    src.delete(TextMovement::Grapheme, &mut sels);
    assert_eq!(src.text_string(), "hlo");
    assert_eq!(sels.selection().start, TextPoint::new(0, 1));
}

#[test]
fn newline_keeps_indent_and_adds_unit_after_colon() {
    let mut src = source_of("def f():\n");
    let mut sels = Selections::new();
    sels.set_selection(cursor(0, 8));
    src.insert_newline(&mut sels);
    assert_eq!(src.text_string(), "def f():\n    \n");
    assert_eq!(sels.selection().start, TextPoint::new(1, 4));
}

#[test]
fn newline_copies_plain_indent() {
    let mut src = source_of("    pass");
    let mut sels = Selections::new();
    sels.set_selection(cursor(0, 8));
    src.insert_newline(&mut sels);
    assert_eq!(src.text_string(), "    pass\n    ");
    assert_eq!(sels.selection().start, TextPoint::new(1, 4));
}

#[test]
fn insert_str_replaces_selection() {
    let mut src = source_of("hello world");
    let mut sels = Selections::new();
    sels.set_selection(TextRange::new(TextPoint::new(0, 0), TextPoint::new(0, 5)));
    src.insert_str("bye", &mut sels);
    assert_eq!(src.text_string(), "bye world");
    assert_eq!(sels.selection().start, TextPoint::new(0, 3));
}

#[test]
fn apply_edit_moves_cursor_past_insertion() {
    let mut src = source_of("hello");
    let mut sels = Selections::new();
    let edit = TextEdit::new(String::from("A\nBC"), cursor(0, 2));
    src.apply_edit(
        &edit,
        block_source::undo_manager::UndoStopCondition::Always,
        true,
        &mut sels,
    );
    assert_eq!(src.text_string(), "heA\nBCllo");
    assert_eq!(sels.selection().start, TextPoint::new(1, 2));
}

#[test]
fn indent_adds_unit_to_touched_lines() {
    let mut src = source_of("a\nb");
    let mut sels = Selections::new();
    sels.set_selection(TextRange::new(TextPoint::new(0, 0), TextPoint::new(1, 1)));
    src.indent(&mut sels);
    assert_eq!(src.text_string(), "    a\n    b");
    assert_eq!(sels.selection().start, TextPoint::new(1, 5));
}

#[test]
fn unindent_removes_only_what_is_present() {
    let mut src = source_of("  x\n      y");
    let mut sels = Selections::new();
    sels.set_selection(TextRange::new(TextPoint::new(0, 0), TextPoint::new(1, 7)));
    src.unindent(&mut sels);
    assert_eq!(src.text_string(), "x\n  y");
}

#[test]
fn indent_then_unindent_round_trips() {
    let mut src = source_of("a\nb");
    let mut sels = Selections::new();
    sels.set_selection(TextRange::new(TextPoint::new(0, 0), TextPoint::new(1, 1)));
    src.indent(&mut sels);
    sels.set_selection(TextRange::new(TextPoint::new(0, 0), TextPoint::new(1, 5)));
    src.unindent(&mut sels);
    assert_eq!(src.text_string(), "a\nb");
}

#[test]
fn external_cursor_move_clears_pairing() {
    let mut src = source_of("");
    let mut sels = Selections::new();
    src.insert_char("(", &mut sels);
    assert_eq!(src.text_string(), "()");
    src.external_cursor_move();
    sels.set_selection(cursor(0, 1));
    src.insert_char(")", &mut sels);
    assert_eq!(src.text_string(), "())");
    assert_eq!(sels.selection().start, TextPoint::new(0, 2));
}

#[test]
fn non_ascii_insert_and_delete() {
    let mut src = source_of("héllo");
    let mut sels = Selections::new();
    sels.set_selection(cursor(0, 5));
    src.insert_str("ß", &mut sels);
    assert_eq!(src.text_string(), "hélloß");
    src.delete(TextMovement::Grapheme, &mut sels);
    assert_eq!(src.text_string(), "héllo");
}

#[test]
fn new_end_lands_after_inserted_text() {
    let edit = TextEdit::new(String::from("ab\ncd"), cursor(0, 3));
    let p = edit.new_end();
    assert_eq!(p, TextPoint::new(1, 2));
    let flat = TextEdit::new(String::from("xy"), cursor(2, 3));
    assert_eq!(flat.new_end(), TextPoint::new(2, 5));
}

#[test]
fn duplicate_copies_every_field() {
    let edit = TextEdit::new(String::from("ab"), cursor(1, 2));
    let copy = edit.duplicate();
    assert_eq!(copy.text, edit.text);
    assert_eq!(copy.range, edit.range);
}

#[test]
fn ordered_swaps_reversed_ranges() {
    let r = TextRange::new(TextPoint::new(2, 1), TextPoint::new(0, 4)).ordered();
    assert_eq!(r.start, TextPoint::new(0, 4));
    assert_eq!(r.end, TextPoint::new(2, 1));
    let same = TextRange::new(TextPoint::new(0, 1), TextPoint::new(0, 2)).ordered();
    assert_eq!(same.start, TextPoint::new(0, 1));
}

#[test]
fn word_delete_of_symbol_takes_one_char() {
    let mut src = source_of("foo +");
    let mut sels = Selections::new();
    sels.set_selection(cursor(0, 5));
    src.delete(TextMovement::Word, &mut sels);
    assert_eq!(src.text_string(), "foo ");
    assert_eq!(sels.selection().start, TextPoint::new(0, 4));
}

#[test]
fn quote_after_word_character_stays_single() {
    let mut src = source_of("ab");
    let mut sels = Selections::new();
    sels.set_selection(cursor(0, 2));
    src.insert_char("'", &mut sels);
    assert_eq!(src.text_string(), "ab'");
    assert_eq!(sels.selection().start, TextPoint::new(0, 3));
}

#[test]
fn quote_after_unicode_letter_stays_single() {
    // an accented letter is alphanumeric, so the quote is not paired
    let mut src = source_of("é");
    let mut sels = Selections::new();
    sels.set_selection(cursor(0, 1));
    src.insert_char("\"", &mut sels);
    assert_eq!(src.text_string(), "é\"");
    assert_eq!(sels.selection().start, TextPoint::new(0, 2));
}

#[test]
fn bracket_before_unicode_letter_stays_single() {
    let mut src = source_of("é");
    let mut sels = Selections::new();
    sels.set_selection(cursor(0, 0));
    src.insert_char("(", &mut sels);
    assert_eq!(src.text_string(), "(é");
    assert_eq!(sels.selection().start, TextPoint::new(0, 1));
}

#[test]
fn word_delete_spans_unicode_letters() {
    let mut src = source_of("héllo");
    let mut sels = Selections::new();
    sels.set_selection(cursor(0, 5));
    src.delete(TextMovement::Word, &mut sels);
    assert_eq!(src.text_string(), "");
    assert_eq!(sels.selection().start, TextPoint::new(0, 0));
}

#[test]
fn ledger_survives_typing_over_a_closer() {
    let mut src = source_of("");
    let mut sels = Selections::new();
    src.insert_char("(", &mut sels);
    src.insert_char("[", &mut sels);
    assert_eq!(src.text_string(), "([])");
    assert_eq!(sels.selection().start, TextPoint::new(0, 2));
    // typing the closer steps over it and pops only the ignore stack
    src.insert_char("]", &mut sels);
    assert_eq!(src.text_string(), "([])");
    assert_eq!(sels.selection().start, TextPoint::new(0, 3));
    // the delete-linkage ledger survived the type-over, so this backspace
    // still co-deletes the auto-inserted partner after the cursor
    src.delete(TextMovement::Grapheme, &mut sels);
    assert_eq!(src.text_string(), "([");
    assert_eq!(sels.selection().start, TextPoint::new(0, 2));
    // the next entry is popped too; with nothing after the cursor only one
    // character goes
    src.delete(TextMovement::Grapheme, &mut sels);
    assert_eq!(src.text_string(), "(");
    assert_eq!(sels.selection().start, TextPoint::new(0, 1));
}
