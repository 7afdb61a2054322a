//! The incremental tree synchronizer.
//!
//! Owns the concrete syntax tree produced by the tree-sitter parser and
//! keeps it in step with the buffer. The tree itself is an opaque outside
//! value: nothing is claimed about its shape. What the rest of the library
//! relies on — and proves — is that the byte/point delta handed to
//! [`TreeManager::update`] is derived correctly from an edit; that happens
//! in [`crate::text_edit`].

use vstd::prelude::*;

verus! {

#[verifier::external_type_specification]
#[verifier::external_body]
pub struct ExParser(tree_sitter::Parser);

#[verifier::external_type_specification]
#[verifier::external_body]
pub struct ExTree(tree_sitter::Tree);

#[verifier::external_type_specification]
#[verifier::external_body]
pub struct ExTreeCursor<'a>(tree_sitter::TreeCursor<'a>);

#[verifier::external_type_specification]
#[verifier::external_body]
pub struct ExLanguage(tree_sitter::Language);

/// Relies on `tree_sitter::Parser::new`.
#[verifier::external_body]
fn ts_parser_new() -> tree_sitter::Parser {
    tree_sitter::Parser::new()
}

/// Relies on `tree_sitter::Parser::set_language`; reports whether the
/// grammar was accepted.
#[verifier::external_body]
fn ts_parser_set_language(p: &mut tree_sitter::Parser, lang: &tree_sitter::Language) -> bool {
    p.set_language(lang).is_ok()
}

/// Relies on `tree_sitter::Parser::parse`: parses the text, reusing
/// unaffected subtrees of `old_tree` when one is given. Returns `None`
/// when no grammar is set.
#[verifier::external_body]
fn ts_parse(
    p: &mut tree_sitter::Parser,
    text: &str,
    old_tree: Option<&tree_sitter::Tree>,
) -> Option<tree_sitter::Tree> {
    p.parse(text.as_bytes(), old_tree)
}

/// Relies on `tree_sitter::Tree::edit`: shifts the tree's stored ranges by
/// the described byte/point delta before the next incremental parse.
#[verifier::external_body]
#[allow(clippy::too_many_arguments)]
fn ts_tree_edit(
    t: &mut tree_sitter::Tree,
    start_byte: usize,
    old_end_byte: usize,
    new_end_byte: usize,
    start_row: usize,
    start_col: usize,
    old_end_row: usize,
    old_end_col: usize,
    new_end_row: usize,
    new_end_col: usize,
) {
    t.edit(&tree_sitter::InputEdit {
        start_byte,
        old_end_byte,
        new_end_byte,
        start_position: tree_sitter::Point { row: start_row, column: start_col },
        old_end_position: tree_sitter::Point { row: old_end_row, column: old_end_col },
        new_end_position: tree_sitter::Point { row: new_end_row, column: new_end_col },
    })
}

/// Relies on `tree_sitter::Tree::walk`: a read-only traversal cursor over
/// the current tree, valid until the next mutation.
#[verifier::external_body]
fn ts_tree_walk<'a>(t: &'a tree_sitter::Tree) -> tree_sitter::TreeCursor<'a> {
    t.walk()
}

/// What one syntax-tree node exposes, read out as plain values: its
/// grammar kind, whether it is a named node, and its byte and line/column
/// spans.
pub struct NodeInfo {
    pub kind: String,
    pub named: bool,
    pub start_byte: usize,
    pub end_byte: usize,
    pub start_row: usize,
    pub start_col: usize,
    pub end_row: usize,
    pub end_col: usize,
}

/// Relies on `TreeCursor::node` and `Node`'s `kind`, `is_named`,
/// `start_byte`, `end_byte`, `start_position` and `end_position`: copies
/// the current node's data out as plain values.
#[verifier::external_body]
pub fn cursor_node_info(c: &tree_sitter::TreeCursor<'_>) -> NodeInfo {
    let n = c.node();
    let sp = n.start_position();
    let ep = n.end_position();
    NodeInfo {
        kind: n.kind().to_string(),
        named: n.is_named(),
        start_byte: n.start_byte(),
        end_byte: n.end_byte(),
        start_row: sp.row,
        start_col: sp.column,
        end_row: ep.row,
        end_col: ep.column,
    }
}

/// Relies on `TreeCursor::goto_first_child`: descends to the first child,
/// reporting whether there was one.
#[verifier::external_body]
pub fn cursor_goto_first_child(c: &mut tree_sitter::TreeCursor<'_>) -> bool {
    c.goto_first_child()
}

/// Relies on `TreeCursor::goto_next_sibling`: moves to the next sibling,
/// reporting whether there was one.
#[verifier::external_body]
pub fn cursor_goto_next_sibling(c: &mut tree_sitter::TreeCursor<'_>) -> bool {
    c.goto_next_sibling()
}

/// Relies on `TreeCursor::goto_parent`: moves back up to the parent,
/// reporting whether the cursor was below the root.
#[verifier::external_body]
pub fn cursor_goto_parent(c: &mut tree_sitter::TreeCursor<'_>) -> bool {
    c.goto_parent()
}

/// The positional delta of one edit, in the parser's units: byte offsets
/// plus line/column points, where the column counts bytes within the line.
#[derive(Clone, Copy, PartialEq, Eq, Structural, Debug)]
pub struct TreeDelta {
    pub start_byte: usize,
    pub old_end_byte: usize,
    pub new_end_byte: usize,
    pub start_row: usize,
    pub start_col: usize,
    pub old_end_row: usize,
    pub old_end_col: usize,
    pub new_end_row: usize,
    pub new_end_col: usize,
}

/// Owns the parser and the current syntax tree.
pub struct TreeManager {
    parser: tree_sitter::Parser,
    tree: Option<tree_sitter::Tree>,
}

impl TreeManager {
    /// A synchronizer for the given grammar, with no tree yet. If the
    /// parser refuses the grammar, every later parse yields no tree and
    /// consumers see an empty traversal.
    pub fn new(lang: &tree_sitter::Language) -> TreeManager {
        let mut parser = ts_parser_new();
        let _accepted = ts_parser_set_language(&mut parser, lang);
        TreeManager { parser, tree: None }
    }

    /// Discards any existing tree and parses `text` from scratch.
    pub fn replace(&mut self, text: &str) {
        self.tree = ts_parse(&mut self.parser, text, None);
    }

    /// Re-parses after an edit, reusing unaffected subtrees. `text` must be
    /// the post-edit content and `delta` the span that changed, as computed
    /// by [`crate::text_edit::TextEdit::apply`].
    pub fn update(&mut self, text: &str, delta: TreeDelta) {
        match &mut self.tree {
            Some(tree) => {
                ts_tree_edit(
                    tree,
                    delta.start_byte,
                    delta.old_end_byte,
                    delta.new_end_byte,
                    delta.start_row,
                    delta.start_col,
                    delta.old_end_row,
                    delta.old_end_col,
                    delta.new_end_row,
                    delta.new_end_col,
                );
            },
            None => {},
        }
        self.tree = ts_parse(&mut self.parser, text, self.tree.as_ref());
    }

    /// A traversal cursor over the current tree, or `None` when no parse
    /// has succeeded yet.
    pub fn get_cursor<'a>(&'a self) -> Option<tree_sitter::TreeCursor<'a>> {
        match &self.tree {
            Some(tree) => Some(ts_tree_walk(tree)),
            None => None,
        }
    }
}

} // verus!
