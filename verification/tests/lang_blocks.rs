use block_source::blocks::{blocks_for_tree, make_padding};
use block_source::lang::{
    java_config, python_config, rust_config, BlockType, LanguageConfig, NewScopeChar, Palette,
    Snippet,
};
use block_source::source::Source;
use block_source::str_util::{indent_of_line, str_eq, whitespace_at_start};

#[test]
fn for_file_picks_language_by_extension() {
    assert_eq!(LanguageConfig::for_file("main.py").name, "python");
    assert_eq!(LanguageConfig::for_file("Main.java").name, "java");
    assert_eq!(LanguageConfig::for_file("lib.rs").name, "rust");
    assert_eq!(LanguageConfig::for_file("a.cpp").name, "cpp");
    assert_eq!(LanguageConfig::for_file("a.hpp").name, "cpp");
    assert_eq!(LanguageConfig::for_file("a.cs").name, "c#");
    assert_eq!(LanguageConfig::for_file("top.v").name, "verilog");
    assert_eq!(LanguageConfig::for_file("top.sv").name, "systemverilog");
    // unknown extensions fall back to python
    assert_eq!(LanguageConfig::for_file("notes.txt").name, "python");
    assert_eq!(LanguageConfig::for_file("noext").name, "python");
}

#[test]
fn scope_chars_per_language() {
    assert_eq!(NewScopeChar::Colon.char(), ':');
    assert_eq!(NewScopeChar::Brace.char(), '{');
    assert_eq!(NewScopeChar::Begin.char(), 'b');
    assert_eq!(python_config().new_scope_char, NewScopeChar::Colon);
    assert_eq!(java_config().new_scope_char, NewScopeChar::Brace);
}

#[test]
fn python_categorizer_basic_kinds() {
    let cfg = python_config();
    assert_eq!(
        cfg.categorize_node("function_definition", None, None, false),
        Some(BlockType::FunctionDef)
    );
    assert_eq!(cfg.categorize_node("if_statement", None, None, false), Some(BlockType::If));
    assert_eq!(cfg.categorize_node("comment", None, None, true), Some(BlockType::Comment));
    assert_eq!(cfg.categorize_node("else_clause", None, None, false), Some(BlockType::Divider));
    assert_eq!(cfg.categorize_node("no_such_kind", None, None, false), None);
}

#[test]
fn java_if_after_else_is_suppressed() {
    let cfg = java_config();
    assert_eq!(
        cfg.categorize_node("if_statement", Some("block"), Some("else"), false),
        None
    );
    assert_eq!(
        cfg.categorize_node("if_statement", Some("block"), Some("{"), false),
        Some(BlockType::If)
    );
}

#[test]
fn java_for_init_declaration_is_suppressed() {
    let cfg = java_config();
    assert_eq!(
        cfg.categorize_node("local_variable_declaration", Some("for_statement"), None, true),
        None
    );
    assert_eq!(
        cfg.categorize_node("local_variable_declaration", Some("block"), None, true),
        Some(BlockType::Generic)
    );
}

#[test]
fn rust_context_sensitive_rules() {
    let cfg = rust_config();
    assert_eq!(
        cfg.categorize_node("let_declaration", Some("block"), None, true),
        Some(BlockType::Generic)
    );
    assert_eq!(
        cfg.categorize_node("let_declaration", Some("block"), None, false),
        Some(BlockType::Divider)
    );
    assert_eq!(cfg.categorize_node("if_expression", Some("else_clause"), None, false), None);
    assert_eq!(
        cfg.categorize_node("if_expression", Some("block"), None, false),
        Some(BlockType::If)
    );
    assert_eq!(
        cfg.categorize_node("call_expression", Some("argument_list"), None, true),
        None
    );
    assert_eq!(
        cfg.categorize_node("call_expression", Some("expression_statement"), None, true),
        Some(BlockType::Generic)
    );
}

#[test]
fn palette_and_snippet_hold_their_parts() {
    let s = Snippet::new(String::from("pass"), String::from("pass\n"));
    assert_eq!(s.id, "pass");
    assert_eq!(s.source, "pass\n");
    let p = Palette::new(String::from("General"), vec![s]);
    assert_eq!(p.name, "General");
    assert_eq!(p.snippets.len(), 1);
}

#[test]
fn string_node_ids_come_from_config() {
    let cfg = python_config();
    assert_eq!(cfg.string_node_ids.string, 232);
    assert_eq!(cfg.string_node_ids.string_bounds, vec![104, 107]);
}

#[test]
fn whitespace_helpers() {
    assert_eq!(whitespace_at_start("  \tx"), 3);
    assert_eq!(whitespace_at_start("x"), 0);
    assert_eq!(whitespace_at_start(""), 0);
    // whitespace is the Unicode class: a no-break space counts
    assert_eq!(whitespace_at_start("\u{a0}x"), 1);
    assert_eq!(indent_of_line("a\n  b\n    c", 1), 2);
    assert_eq!(indent_of_line("a\n  b\n    c", 2), 4);
    assert_eq!(indent_of_line("a\n  b", 7), 0);
    assert!(str_eq("abc", "abc"));
    assert!(!str_eq("abc", "abd"));
    assert!(!str_eq("ab", "abc"));
}

#[test]
fn python_tree_yields_nested_blocks() {
    let src = Source::new(
        ropey::Rope::from_str("def f():\n    pass\n"),
        python_config(),
    );
    let cfg = python_config();
    let mut cursor = src.get_tree_cursor().expect("the grammar should load and parse");
    let blocks = blocks_for_tree(&mut cursor, &cfg, 100_000);
    assert_eq!(blocks.len(), 2);
    assert_eq!(blocks[0].kind, BlockType::FunctionDef);
    assert_eq!(blocks[0].start_row, 0);
    assert_eq!(blocks[0].depth, 0);
    assert_eq!(blocks[1].kind, BlockType::Generic);
    assert_eq!(blocks[1].start_row, 1);
    assert_eq!(blocks[1].depth, 1);
}

#[test]
fn tree_follows_edits_incrementally() {
    let mut src = Source::new(ropey::Rope::from_str("x = 1\n"), python_config());
    let cfg = python_config();
    {
        let mut cursor = src.get_tree_cursor().expect("parse");
        let blocks = blocks_for_tree(&mut cursor, &cfg, 100_000);
        assert_eq!(blocks.len(), 1);
        assert_eq!(blocks[0].kind, BlockType::Generic);
    }
    let mut sels = block_source::source::Selections::new();
    sels.set_selection(block_source::text_range::TextRange::new_cursor(
        block_source::text_range::TextPoint::new(1, 0),
    ));
    src.insert_str("if a:\n    b = 2\n", &mut sels);
    let mut cursor = src.get_tree_cursor().expect("parse after edit");
    let blocks = blocks_for_tree(&mut cursor, &cfg, 100_000);
    assert!(blocks.iter().any(|b| b.kind == BlockType::If));
    assert!(blocks.iter().any(|b| b.kind == BlockType::Generic && b.depth == 1));
}

#[test]
fn padding_counts_block_starts_per_line() {
    let src = Source::new(
        ropey::Rope::from_str("def f():\n    pass\n"),
        python_config(),
    );
    let cfg = python_config();
    let mut cursor = src.get_tree_cursor().expect("parse");
    let blocks = blocks_for_tree(&mut cursor, &cfg, 100_000);
    let padding = make_padding(&blocks, 3);
    assert_eq!(padding, vec![1, 1, 0]);
}
