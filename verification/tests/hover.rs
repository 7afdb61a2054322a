use block_source::documentation::{BlockType, Documentation, DocumentationPopup};
use block_source::str_util::{replace_str, split_str, str_contains, trim_str};
use block_source::text_range::{TextPoint, TextRange};

#[test]
fn new_documentation_is_a_placeholder() {
    let d = Documentation::new();
    assert_eq!(d.message, " ");
    assert_eq!(d.range.start, TextPoint::new(0, 0));
    assert_eq!(d.range.end, TextPoint::new(0, 0));
    assert!(d.hover_info.all_blocks.is_empty());
}

#[test]
fn example_documentation_is_rust_code() {
    let d = Documentation::example();
    assert_eq!(d.hover_info.language, "rs");
    assert_eq!(d.hover_info.all_blocks.len(), 1);
    assert_eq!(d.hover_info.all_blocks[0].1, BlockType::CodeBlock);
    assert_eq!(d.range.start, TextPoint::new(2, 18));
    assert_eq!(d.range.end, TextPoint::new(2, 25));
}

#[test]
fn set_hover_detects_python_and_splits_fences() {
    let mut d = Documentation::new();
    let range = TextRange::new(TextPoint::new(1, 2), TextPoint::new(1, 5));
    d.set_hover(
        String::from("<b>python</b>```python\nprint(1)```"),
        range,
    );
    assert_eq!(d.range, range);
    assert_eq!(d.hover_info.language, "py");
    let blocks = &d.hover_info.all_blocks;
    assert_eq!(blocks.len(), 2);
    assert_eq!(blocks[0].0, "python");
    assert_eq!(blocks[0].1, BlockType::RegularBlock);
    assert_eq!(blocks[1].0, "print(1)");
    assert_eq!(blocks[1].1, BlockType::CodeBlock);
}

#[test]
fn set_hover_strips_markup_tags() {
    let mut d = Documentation::new();
    d.set_hover(String::from("<i>plain</i> text"), TextRange::zero());
    assert_eq!(d.hover_info.language, "");
    let blocks = &d.hover_info.all_blocks;
    assert_eq!(blocks.len(), 1);
    assert_eq!(blocks[0].0, "plain text");
    // with no language detected the empty marker matches any long piece,
    // so a piece of nine or more characters counts as code
    assert_eq!(blocks[0].1, BlockType::CodeBlock);
}

#[test]
fn set_hover_normalises_nbsp_entities() {
    let mut d = Documentation::new();
    d.set_hover(String::from("a&nbsp;b"), TextRange::zero());
    let blocks = &d.hover_info.all_blocks;
    assert_eq!(blocks.len(), 1);
    assert_eq!(blocks[0].0, "a b");
}

#[test]
fn set_hover_detects_rust() {
    let mut d = Documentation::new();
    d.set_hover(
        String::from("```rust\nfn main() {}\n``` extra prose"),
        TextRange::zero(),
    );
    assert_eq!(d.hover_info.language, "rs");
    let blocks = &d.hover_info.all_blocks;
    assert_eq!(blocks.len(), 2);
    assert_eq!(blocks[0].0, "fn main() {}");
    assert_eq!(blocks[0].1, BlockType::CodeBlock);
    assert_eq!(blocks[1].0, "extra prose");
    assert_eq!(blocks[1].1, BlockType::RegularBlock);
}

#[test]
fn request_hover_echoes_the_position() {
    let d = Documentation::new();
    assert_eq!(d.request_hover(3, 7), (3, 7));
}

#[test]
fn popup_requests_only_for_cursor_past_indent() {
    let rope = ropey::Rope::from_str("  abc");
    let mut popup = DocumentationPopup::new();
    // a real selection never asks for hover
    let sel = TextRange::new(TextPoint::new(0, 2), TextPoint::new(0, 4));
    assert_eq!(popup.request_hover_info(&rope, sel), None);
    // a cursor sitting exactly at the indent end never asks either
    let at_indent = TextRange::new_cursor(TextPoint::new(0, 2));
    assert_eq!(popup.request_hover_info(&rope, at_indent), None);
    // a cursor inside the text asks
    let inside = TextRange::new_cursor(TextPoint::new(0, 4));
    assert_eq!(popup.request_hover_info(&rope, inside), Some(TextPoint::new(0, 4)));
}

#[test]
fn string_helpers_have_exact_results() {
    assert!(str_contains("hello world", "lo w"));
    assert!(!str_contains("hello", "world"));
    assert!(str_contains("abc", ""));
    assert_eq!(replace_str("aXbXc", "X", "--"), "a--b--c");
    assert_eq!(replace_str("aaa", "aa", "b"), "ba");
    assert_eq!(replace_str("abc", "", "z"), "abc");
    let parts = split_str("a``b````c", "``");
    assert_eq!(parts, vec!["a", "b", "", "c"]);
    assert_eq!(split_str("abc", "x"), vec!["abc"]);
    assert_eq!(trim_str("  a b \n"), "a b");
    assert_eq!(trim_str("   "), "");
}
