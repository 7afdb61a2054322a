//! Per-language configuration: which grammar to parse with, which
//! character opens a new scope, how syntax-tree node kinds map to visual
//! block categories, and the node ids that mark string literals.
//!
//! A configuration is plain data selected once when a document is opened;
//! the classification itself is [`LanguageConfig::categorize_node`], a
//! verified lookup over the configuration's rule table.

use vstd::prelude::*;
use vstd::string::StrSliceExecFns;

use crate::str_util::str_eq;

verus! {

/// The grammars the editor can parse with.
#[derive(Clone, Copy, PartialEq, Eq, Structural, Debug)]
pub enum LanguageId {
    Python,
    Java,
    Cpp,
    CSharp,
    Rust,
    Verilog,
    SystemVerilog,
}

/// The character that opens a new scope and so increases the indent of
/// the following line.
#[derive(Clone, Copy, PartialEq, Eq, Structural, Debug)]
pub enum NewScopeChar {
    Colon,
    Brace,
    Begin,
}

impl NewScopeChar {
    /// The character compared against the end of the current line when a
    /// newline is inserted; `'b'` stands in for `begin`.
    pub fn char(&self) -> (c: char)
        ensures
            c == self.spec_char(),
    {
        match self {
            NewScopeChar::Colon => ':',
            NewScopeChar::Brace => '{',
            NewScopeChar::Begin => 'b',
        }
    }

    pub open spec fn spec_char(self) -> char {
        match self {
            NewScopeChar::Colon => ':',
            NewScopeChar::Brace => '{',
            NewScopeChar::Begin => 'b',
        }
    }
}

/// The grammar's node ids for a string literal and for its delimiters;
/// used to build pseudo-selections around string bounds.
#[derive(Clone, PartialEq, Eq, Debug)]
pub struct StringNodeIDs {
    pub string: u16,
    pub string_bounds: Vec<u16>,
}

/// A snippet offered by the palette. Its source must end with a newline.
#[derive(Clone, PartialEq, Eq, Debug)]
pub struct Snippet {
    pub id: String,
    pub source: String,
}

impl Snippet {
    pub fn new(id: String, source: String) -> (s: Snippet)
        ensures
            s.id == id && s.source == source,
    {
        Snippet { id, source }
    }
}

/// A named group of snippets.
#[derive(Clone, PartialEq, Eq, Debug)]
pub struct Palette {
    pub name: String,
    pub snippets: Vec<Snippet>,
}

impl Palette {
    pub fn new(name: String, snippets: Vec<Snippet>) -> (p: Palette)
        ensures
            p.name == name && p.snippets == snippets,
    {
        Palette { name, snippets }
    }
}

/// The visual block category assigned to a classified node.
#[derive(Clone, Copy, PartialEq, Eq, Structural, Debug)]
pub enum BlockType {
    Object,
    FunctionDef,
    While,
    If,
    For,
    Try,
    Switch,
    Generic,
    Comment,
    Divider,
}

/// How a node kind is classified, including the handful of context
/// dependent special cases.
#[derive(Clone, PartialEq, Eq, Debug)]
pub enum CategorizeRule {
    /// Always this category.
    Always(BlockType),
    /// Suppressed when the previous sibling is an `else`, so that else-if
    /// chains render as one construct.
    UnlessPrevSiblingElse(BlockType),
    /// Suppressed when the parent's kind is in the list, for instance a
    /// variable declaration that is a for-loop's init clause.
    UnlessParentIn(Vec<String>, BlockType),
    /// This category when the node spans a single line, a divider
    /// otherwise.
    SingleLineOrDivider(BlockType),
}

/// One row of a language's classification table.
#[derive(Clone, PartialEq, Eq, Debug)]
pub struct CategorizerEntry {
    pub kind: String,
    pub rule: CategorizeRule,
}

/// What a rule yields for a node with the given parent kind, previous
/// sibling kind, and line extent.
pub open spec fn spec_apply_rule(
    rule: CategorizeRule,
    parent: Option<Seq<char>>,
    prev_sibling: Option<Seq<char>>,
    single_line: bool,
) -> Option<BlockType> {
    match rule {
        CategorizeRule::Always(bt) => Some(bt),
        CategorizeRule::UnlessPrevSiblingElse(bt) => {
            if prev_sibling == Some("else"@) {
                None
            } else {
                Some(bt)
            }
        },
        CategorizeRule::UnlessParentIn(kinds, bt) => {
            if parent is Some && (exists|i: int|
                0 <= i < kinds@.len() && kinds@[i]@ == parent.unwrap()) {
                None
            } else {
                Some(bt)
            }
        },
        CategorizeRule::SingleLineOrDivider(bt) => {
            if single_line {
                Some(bt)
            } else {
                Some(BlockType::Divider)
            }
        },
    }
}

/// The first rule of the table whose kind matches, applied; `None` when no
/// row matches.
pub open spec fn spec_categorize(
    table: Seq<CategorizerEntry>,
    kind: Seq<char>,
    parent: Option<Seq<char>>,
    prev_sibling: Option<Seq<char>>,
    single_line: bool,
) -> Option<BlockType>
    decreases table.len(),
{
    if table.len() == 0 {
        None
    } else if table[0].kind@ == kind {
        spec_apply_rule(table[0].rule, parent, prev_sibling, single_line)
    } else {
        spec_categorize(table.skip(1), kind, parent, prev_sibling, single_line)
    }
}

/// The table lookup lands on row `i` when no earlier row matches the
/// kind: the result is that row's rule, applied.
pub proof fn lemma_categorize_at(
    t: Seq<CategorizerEntry>,
    i: int,
    kind: Seq<char>,
    parent: Option<Seq<char>>,
    prev_sibling: Option<Seq<char>>,
    single_line: bool,
)
    requires
        0 <= i < t.len(),
        forall|j: int| 0 <= j < i ==> #[trigger] t[j].kind@ != kind,
        t[i].kind@ == kind,
    ensures
        spec_categorize(t, kind, parent, prev_sibling, single_line) == spec_apply_rule(
            t[i].rule,
            parent,
            prev_sibling,
            single_line,
        ),
    decreases i,
{
    if i > 0 {
        assert(t[0].kind@ != kind);
        assert forall|j: int| 0 <= j < i - 1 implies #[trigger] t.skip(1)[j].kind@ != kind by {
            assert(t.skip(1)[j] == t[j + 1]);
        }
        assert(t.skip(1)[i - 1] == t[i]);
        lemma_categorize_at(t.skip(1), i - 1, kind, parent, prev_sibling, single_line);
    }
}

/// The per-language configuration consumed by the editor core.
#[derive(Clone, PartialEq, Eq, Debug)]
pub struct LanguageConfig {
    /// Name of the language, used as an id and potentially for UI.
    pub name: String,
    /// Which grammar parses this language.
    pub grammar: LanguageId,
    /// The character that starts a new scope.
    pub new_scope_char: NewScopeChar,
    /// Node classification table for block decomposition.
    pub categorizer: Vec<CategorizerEntry>,
    /// The node ids marking string literals and their delimiters.
    pub string_node_ids: StringNodeIDs,
    /// Snippet palettes; supplied by the embedding layer.
    pub palettes: Vec<Palette>,
}

impl LanguageConfig {
    /// Classifies a node by its kind, the kind of its parent and previous
    /// sibling, and whether it spans a single line.
    pub fn categorize_node(
        &self,
        kind: &str,
        parent: Option<&str>,
        prev_sibling: Option<&str>,
        single_line: bool,
    ) -> (r: Option<BlockType>)
        ensures
            r == spec_categorize(
                self.categorizer@,
                kind@,
                match parent {
                    Some(p) => Some(p@),
                    None => None,
                },
                match prev_sibling {
                    Some(p) => Some(p@),
                    None => None,
                },
                single_line,
            ),
    {
        let ghost pview = match parent {
            Some(p) => Some(p@),
            None => None,
        };
        let ghost sview = match prev_sibling {
            Some(p) => Some(p@),
            None => None,
        };
        let n = self.categorizer.len();
        let mut i: usize = 0;
        proof {
            assert(self.categorizer@.skip(0) =~= self.categorizer@);
        }
        while i < n
            invariant
                i <= n,
                n == self.categorizer@.len(),
                pview == (match parent {
                    Some(p) => Some(p@),
                    None => None,
                }),
                sview == (match prev_sibling {
                    Some(p) => Some(p@),
                    None => None,
                }),
                spec_categorize(self.categorizer@, kind@, pview, sview, single_line)
                    == spec_categorize(
                    self.categorizer@.skip(i as int),
                    kind@,
                    pview,
                    sview,
                    single_line,
                ),
            decreases n - i,
        {
            proof {
                assert(self.categorizer@.skip(i as int)[0] == self.categorizer@[i as int]);
                assert(self.categorizer@.skip(i as int).skip(1) =~= self.categorizer@.skip(
                    i + 1,
                ));
            }
            let entry = &self.categorizer[i];
            if str_eq(entry.kind.as_str(), kind) {
                return apply_rule(&entry.rule, parent, prev_sibling, single_line);
            }
            i = i + 1;
        }
        None
    }
}

/// Executable form of [`spec_apply_rule`].
#[verifier::loop_isolation(false)]
fn apply_rule(
    rule: &CategorizeRule,
    parent: Option<&str>,
    prev_sibling: Option<&str>,
    single_line: bool,
) -> (r: Option<BlockType>)
    ensures
        r == spec_apply_rule(
            *rule,
            match parent {
                Some(p) => Some(p@),
                None => None,
            },
            match prev_sibling {
                Some(p) => Some(p@),
                None => None,
            },
            single_line,
        ),
{
    match rule {
        CategorizeRule::Always(bt) => Some(*bt),
        CategorizeRule::UnlessPrevSiblingElse(bt) => {
            match prev_sibling {
                Some(sib) => {
                    if str_eq(sib, "else") {
                        None
                    } else {
                        Some(*bt)
                    }
                },
                None => Some(*bt),
            }
        },
        CategorizeRule::UnlessParentIn(kinds, bt) => {
            match parent {
                Some(p) => {
                    let n = kinds.len();
                    let mut i: usize = 0;
                    while i < n
                        invariant
                            i <= n,
                            n == kinds@.len(),
                            forall|j: int| 0 <= j < i ==> kinds@[j]@ != p@,
                        decreases n - i,
                    {
                        if str_eq(kinds[i].as_str(), p) {
                            proof {
                                assert(kinds@[i as int]@ == p@);
                                assert(exists|j: int|
                                    0 <= j < kinds@.len() && kinds@[j]@ == p@);
                            }
                            return None;
                        }
                        i = i + 1;
                    }
                    Some(*bt)
                },
                None => Some(*bt),
            }
        },
        CategorizeRule::SingleLineOrDivider(bt) => {
            if single_line {
                Some(*bt)
            } else {
                Some(BlockType::Divider)
            }
        },
    }
}

/// An owned copy of a string slice.
fn own_str(x: &str) -> (s: String)
    ensures
        s@ == x@,
{
    String::from_str(x)
}

/// One classification table row.
fn entry(kind: &str, rule: CategorizeRule) -> (e: CategorizerEntry)
    ensures
        e.kind@ == kind@ && e.rule == rule,
{
    CategorizerEntry { kind: own_str(kind), rule }
}

/// The suffix of `s` after its last `'.'`; the whole of `s` when it holds
/// no dot, empty when it ends with one.
pub open spec fn ext_of(s: Seq<char>) -> Seq<char>
    decreases s.len(),
{
    if s.len() == 0 {
        s
    } else if s[s.len() - 1] == '.' {
        Seq::empty()
    } else {
        ext_of(s.drop_last()).push(s[s.len() - 1])
    }
}

proof fn lemma_ext_of_after_dot(s: Seq<char>, k: int)
    requires
        0 <= k < s.len(),
        s[k] == '.',
        forall|j: int| k < j < s.len() ==> s[j] != '.',
    ensures
        ext_of(s) =~= s.subrange(k + 1, s.len() as int),
    decreases s.len(),
{
    if k == s.len() - 1 {
    } else {
        assert(s.drop_last()[k] == '.');
        lemma_ext_of_after_dot(s.drop_last(), k);
    }
}

proof fn lemma_ext_of_no_dot(s: Seq<char>)
    requires
        forall|j: int| 0 <= j < s.len() ==> s[j] != '.',
    ensures
        ext_of(s) =~= s,
    decreases s.len(),
{
    if s.len() > 0 {
        lemma_ext_of_no_dot(s.drop_last());
    }
}

/// Which grammar handles a file name extension; Python is the fallback.
pub open spec fn spec_lang_for_ext(ext: Seq<char>) -> LanguageId {
    if ext == "py"@ {
        LanguageId::Python
    } else if ext == "java"@ {
        LanguageId::Java
    } else if ext == "cpp"@ || ext == "h"@ || ext == "hpp"@ {
        LanguageId::Cpp
    } else if ext == "cs"@ {
        LanguageId::CSharp
    } else if ext == "rs"@ {
        LanguageId::Rust
    } else if ext == "v"@ || ext == "vh"@ {
        LanguageId::Verilog
    } else if ext == "sv"@ || ext == "svh"@ {
        LanguageId::SystemVerilog
    } else {
        LanguageId::Python
    }
}

/// The scope-opening character each grammar's configuration carries.
pub open spec fn spec_scope_char_of(id: LanguageId) -> NewScopeChar {
    match id {
        LanguageId::Python => NewScopeChar::Colon,
        LanguageId::Java => NewScopeChar::Brace,
        LanguageId::Cpp => NewScopeChar::Brace,
        LanguageId::CSharp => NewScopeChar::Brace,
        LanguageId::Rust => NewScopeChar::Brace,
        LanguageId::Verilog => NewScopeChar::Begin,
        LanguageId::SystemVerilog => NewScopeChar::Begin,
    }
}

/// The name each grammar's configuration carries.
pub open spec fn spec_name_of(id: LanguageId) -> Seq<char> {
    match id {
        LanguageId::Python => "python"@,
        LanguageId::Java => "java"@,
        LanguageId::Cpp => "cpp"@,
        LanguageId::CSharp => "c#"@,
        LanguageId::Rust => "rust"@,
        LanguageId::Verilog => "verilog"@,
        LanguageId::SystemVerilog => "systemverilog"@,
    }
}

impl LanguageConfig {
    /// The configuration for a file, chosen by its name's extension.
    pub fn for_file(file_name: &str) -> (c: LanguageConfig)
        ensures
            c.grammar == spec_lang_for_ext(ext_of(file_name@)),
            c.new_scope_char == spec_scope_char_of(c.grammar),
            c.name@ == spec_name_of(c.grammar),
    {
        let len = file_name.unicode_len();
        let mut i = len;
        while i > 0
            invariant
                i <= len,
                len == file_name@.len(),
                forall|j: int| i <= j < len ==> file_name@[j] != '.',
            decreases i,
        {
            if file_name.get_char(i - 1) == '.' {
                proof {
                    lemma_ext_of_after_dot(file_name@, i - 1);
                }
                let ext = file_name.substring_char(i, len);
                return Self::for_extension(ext);
            }
            i = i - 1;
        }
        proof {
            lemma_ext_of_no_dot(file_name@);
            assert(file_name@.subrange(0, len as int) =~= file_name@);
        }
        let whole = file_name.substring_char(0, len);
        Self::for_extension(whole)
    }

    /// The configuration for a bare extension.
    fn for_extension(ext: &str) -> (c: LanguageConfig)
        ensures
            c.grammar == spec_lang_for_ext(ext@),
            c.new_scope_char == spec_scope_char_of(c.grammar),
            c.name@ == spec_name_of(c.grammar),
    {
        if str_eq(ext, "py") {
            python_config()
        } else if str_eq(ext, "java") {
            java_config()
        } else if str_eq(ext, "cpp") || str_eq(ext, "h") || str_eq(ext, "hpp") {
            cpp_config()
        } else if str_eq(ext, "cs") {
            cs_config()
        } else if str_eq(ext, "rs") {
            rust_config()
        } else if str_eq(ext, "v") || str_eq(ext, "vh") {
            verilog_config()
        } else if str_eq(ext, "sv") || str_eq(ext, "svh") {
            systemverilog_config()
        } else {
            python_config()
        }
    }

    /// The tree-sitter grammar for this configuration.
    pub fn tree_sitter(&self) -> tree_sitter::Language {
        match self.grammar {
            LanguageId::Python => ts_language_python(),
            LanguageId::Java => ts_language_java(),
            LanguageId::Cpp => ts_language_cpp(),
            LanguageId::CSharp => ts_language_c_sharp(),
            LanguageId::Rust => ts_language_rust(),
            LanguageId::Verilog => ts_language_verilog(),
            LanguageId::SystemVerilog => ts_language_systemverilog(),
        }
    }
}

/// Relies on `tree_sitter_python::LANGUAGE` and `tree_sitter::Language::new`.
#[verifier::external_body]
fn ts_language_python() -> tree_sitter::Language {
    tree_sitter::Language::new(tree_sitter_python::LANGUAGE)
}

/// Relies on `tree_sitter_java::LANGUAGE` and `tree_sitter::Language::new`.
#[verifier::external_body]
fn ts_language_java() -> tree_sitter::Language {
    tree_sitter::Language::new(tree_sitter_java::LANGUAGE)
}

/// Relies on `tree_sitter_cpp::LANGUAGE` and `tree_sitter::Language::new`.
#[verifier::external_body]
fn ts_language_cpp() -> tree_sitter::Language {
    tree_sitter::Language::new(tree_sitter_cpp::LANGUAGE)
}

/// Relies on `tree_sitter_c_sharp::LANGUAGE` and `tree_sitter::Language::new`.
#[verifier::external_body]
fn ts_language_c_sharp() -> tree_sitter::Language {
    tree_sitter::Language::new(tree_sitter_c_sharp::LANGUAGE)
}

/// Relies on `tree_sitter_rust::LANGUAGE` and `tree_sitter::Language::new`.
#[verifier::external_body]
fn ts_language_rust() -> tree_sitter::Language {
    tree_sitter::Language::new(tree_sitter_rust::LANGUAGE)
}

/// Relies on `tree_sitter_verilog::LANGUAGE` and `tree_sitter::Language::new`.
#[verifier::external_body]
fn ts_language_verilog() -> tree_sitter::Language {
    tree_sitter::Language::new(tree_sitter_verilog::LANGUAGE)
}

/// Relies on `tree_sitter_systemverilog::LANGUAGE` and `tree_sitter::Language::new`.
#[verifier::external_body]
fn ts_language_systemverilog() -> tree_sitter::Language {
    tree_sitter::Language::new(tree_sitter_systemverilog::LANGUAGE)
}

/// The Python configuration: colon scopes, indentation-based blocks.
pub fn python_config() -> (c: LanguageConfig)
    ensures
        c.grammar == LanguageId::Python,
        c.new_scope_char == NewScopeChar::Colon,
        c.name@ == "python"@,
{
    let mut t: Vec<CategorizerEntry> = Vec::new();
    t.push(entry("class_definition", CategorizeRule::Always(BlockType::Object)));
    t.push(entry("function_definition", CategorizeRule::Always(BlockType::FunctionDef)));
    t.push(entry("while_statement", CategorizeRule::Always(BlockType::While)));
    t.push(entry("if_statement", CategorizeRule::Always(BlockType::If)));
    t.push(entry("for_statement", CategorizeRule::Always(BlockType::For)));
    t.push(entry("try_statement", CategorizeRule::Always(BlockType::Try)));
    t.push(entry("import_statement", CategorizeRule::Always(BlockType::Generic)));
    t.push(entry("import_from_statement", CategorizeRule::Always(BlockType::Generic)));
    t.push(entry("expression_statement", CategorizeRule::Always(BlockType::Generic)));
    t.push(entry("continue_statement", CategorizeRule::Always(BlockType::Generic)));
    t.push(entry("break_statement", CategorizeRule::Always(BlockType::Generic)));
    t.push(entry("pass_statement", CategorizeRule::Always(BlockType::Generic)));
    t.push(entry("return_statement", CategorizeRule::Always(BlockType::Generic)));
    t.push(entry("comment", CategorizeRule::Always(BlockType::Comment)));
    t.push(entry("else_clause", CategorizeRule::Always(BlockType::Divider)));
    t.push(entry("elif_clause", CategorizeRule::Always(BlockType::Divider)));
    t.push(entry("except_clause", CategorizeRule::Always(BlockType::Divider)));
    let mut bounds: Vec<u16> = Vec::new();
    bounds.push(104);
    bounds.push(107);
    LanguageConfig {
        name: own_str("python"),
        grammar: LanguageId::Python,
        new_scope_char: NewScopeChar::Colon,
        categorizer: t,
        string_node_ids: StringNodeIDs { string: 232, string_bounds: bounds },
        palettes: Vec::new(),
    }
}

/// The Java configuration: brace scopes.
pub fn java_config() -> (c: LanguageConfig)
    ensures
        c.grammar == LanguageId::Java,
        c.new_scope_char == NewScopeChar::Brace,
        c.name@ == "java"@,
        forall|par: Option<Seq<char>>, sib: Option<Seq<char>>, sl: bool|
            #[trigger] spec_categorize(c.categorizer@, "if_statement"@, par, sib, sl) == (
            if sib == Some("else"@) {
                None
            } else {
                Some(BlockType::If)
            }),
        forall|par: Option<Seq<char>>, sib: Option<Seq<char>>, sl: bool|
            #[trigger] spec_categorize(
                c.categorizer@,
                "local_variable_declaration"@,
                par,
                sib,
                sl,
            ) == (
            if par == Some("for_statement"@) {
                None
            } else {
                Some(BlockType::Generic)
            }),
        forall|par: Option<Seq<char>>, sib: Option<Seq<char>>, sl: bool|
            #[trigger] spec_categorize(c.categorizer@, "block"@, par, sib, sl) == Some(
                BlockType::Divider,
            ),
{
    let mut t: Vec<CategorizerEntry> = Vec::new();
    t.push(entry("class_declaration", CategorizeRule::Always(BlockType::Object)));
    t.push(entry("interface_declaration", CategorizeRule::Always(BlockType::Object)));
    t.push(entry("method_declaration", CategorizeRule::Always(BlockType::FunctionDef)));
    t.push(entry("while_statement", CategorizeRule::Always(BlockType::While)));
    t.push(entry("if_statement", CategorizeRule::UnlessPrevSiblingElse(BlockType::If)));
    t.push(entry("for_statement", CategorizeRule::Always(BlockType::For)));
    t.push(entry("try_statement", CategorizeRule::Always(BlockType::Try)));
    t.push(entry("import_declaration", CategorizeRule::Always(BlockType::Generic)));
    t.push(entry("expression_statement", CategorizeRule::Always(BlockType::Generic)));
    let mut for_init: Vec<String> = Vec::new();
    for_init.push(own_str("for_statement"));
    t.push(
        entry(
            "local_variable_declaration",
            CategorizeRule::UnlessParentIn(for_init, BlockType::Generic),
        ),
    );
    t.push(entry("field_declaration", CategorizeRule::Always(BlockType::Generic)));
    t.push(entry("return_statement", CategorizeRule::Always(BlockType::Generic)));
    t.push(entry("assert_statement", CategorizeRule::Always(BlockType::Generic)));
    t.push(entry("line_comment", CategorizeRule::Always(BlockType::Comment)));
    t.push(entry("block_comment", CategorizeRule::Always(BlockType::Comment)));
    t.push(entry("block", CategorizeRule::Always(BlockType::Divider)));
    proof {
        reveal_strlit("class_declaration");
        reveal_strlit("interface_declaration");
        reveal_strlit("method_declaration");
        reveal_strlit("while_statement");
        reveal_strlit("if_statement");
        reveal_strlit("for_statement");
        reveal_strlit("try_statement");
        reveal_strlit("import_declaration");
        reveal_strlit("expression_statement");
        reveal_strlit("local_variable_declaration");
        reveal_strlit("else");
        reveal_strlit("field_declaration");
        reveal_strlit("return_statement");
        reveal_strlit("assert_statement");
        reveal_strlit("line_comment");
        reveal_strlit("block_comment");
        reveal_strlit("block");
        let tv = t@;
        assert(tv.len() == 16);
        assert(tv[0].kind@ == "class_declaration"@);
        assert(tv[1].kind@ == "interface_declaration"@);
        assert(tv[2].kind@ == "method_declaration"@);
        assert(tv[3].kind@ == "while_statement"@);
        assert(tv[4].kind@ == "if_statement"@);
        assert(tv[5].kind@ == "for_statement"@);
        assert(tv[6].kind@ == "try_statement"@);
        assert(tv[7].kind@ == "import_declaration"@);
        assert(tv[8].kind@ == "expression_statement"@);
        assert(tv[9].kind@ == "local_variable_declaration"@);
        assert(tv[10].kind@ == "field_declaration"@);
        assert(tv[11].kind@ == "return_statement"@);
        assert(tv[12].kind@ == "assert_statement"@);
        assert(tv[13].kind@ == "line_comment"@);
        assert(tv[14].kind@ == "block_comment"@);
        assert(tv[15].kind@ == "block"@);
        assert forall|par: Option<Seq<char>>, sib: Option<Seq<char>>, sl: bool|
            #[trigger] spec_categorize(tv, "if_statement"@, par, sib, sl) == (
        if sib == Some("else"@) {
            None
        } else {
            Some(BlockType::If)
        }) by {
            assert(tv[0].kind@ != "if_statement"@);
            assert(tv[1].kind@ != "if_statement"@);
            assert(tv[2].kind@ != "if_statement"@);
            assert(tv[3].kind@ != "if_statement"@);
            lemma_categorize_at(tv, 4, "if_statement"@, par, sib, sl);
        }
        assert forall|par: Option<Seq<char>>, sib: Option<Seq<char>>, sl: bool|
            #[trigger] spec_categorize(tv, "local_variable_declaration"@, par, sib, sl) == (
        if par == Some("for_statement"@) {
            None
        } else {
            Some(BlockType::Generic)
        }) by {
            assert(tv[0].kind@ != "local_variable_declaration"@);
            assert(tv[1].kind@ != "local_variable_declaration"@);
            assert(tv[2].kind@ != "local_variable_declaration"@);
            assert(tv[3].kind@ != "local_variable_declaration"@);
            assert(tv[4].kind@ != "local_variable_declaration"@);
            assert(tv[5].kind@ != "local_variable_declaration"@);
            assert(tv[6].kind@ != "local_variable_declaration"@);
            assert(tv[7].kind@ != "local_variable_declaration"@);
            assert(tv[8].kind@ != "local_variable_declaration"@);
            lemma_categorize_at(tv, 9, "local_variable_declaration"@, par, sib, sl);
            let kinds = tv[9].rule->UnlessParentIn_0;
            assert(kinds@.len() == 1 && kinds@[0]@ == "for_statement"@);
        }
        assert forall|par: Option<Seq<char>>, sib: Option<Seq<char>>, sl: bool|
            #[trigger] spec_categorize(tv, "block"@, par, sib, sl) == Some(
            BlockType::Divider,
        ) by {
            assert(tv[0].kind@ != "block"@);
            assert(tv[1].kind@ != "block"@);
            assert(tv[2].kind@ != "block"@);
            assert(tv[3].kind@ != "block"@);
            assert(tv[4].kind@ != "block"@);
            assert(tv[5].kind@ != "block"@);
            assert(tv[6].kind@ != "block"@);
            assert(tv[7].kind@ != "block"@);
            assert(tv[8].kind@ != "block"@);
            assert(tv[9].kind@ != "block"@);
            assert(tv[10].kind@ != "block"@);
            assert(tv[11].kind@ != "block"@);
            assert(tv[12].kind@ != "block"@);
            assert(tv[13].kind@ != "block"@);
            assert(tv[14].kind@ != "block"@);
            lemma_categorize_at(tv, 15, "block"@, par, sib, sl);
        }
    }
    let mut bounds: Vec<u16> = Vec::new();
    bounds.push(11);
    bounds.push(12);
    LanguageConfig {
        name: own_str("java"),
        grammar: LanguageId::Java,
        new_scope_char: NewScopeChar::Brace,
        categorizer: t,
        string_node_ids: StringNodeIDs { string: 141, string_bounds: bounds },
        palettes: Vec::new(),
    }
}

/// The C# configuration: brace scopes.
pub fn cs_config() -> (c: LanguageConfig)
    ensures
        c.grammar == LanguageId::CSharp,
        c.new_scope_char == NewScopeChar::Brace,
        c.name@ == "c#"@,
        forall|par: Option<Seq<char>>, sib: Option<Seq<char>>, sl: bool|
            #[trigger] spec_categorize(c.categorizer@, "if_statement"@, par, sib, sl) == (
            if sib == Some("else"@) {
                None
            } else {
                Some(BlockType::If)
            }),
        forall|par: Option<Seq<char>>, sib: Option<Seq<char>>, sl: bool|
            #[trigger] spec_categorize(c.categorizer@, "local_decleration_statement"@, par, sib, sl) == (
            if par == Some("for_statement"@) {
                None
            } else {
                Some(BlockType::Generic)
            }),
        forall|par: Option<Seq<char>>, sib: Option<Seq<char>>, sl: bool|
            #[trigger] spec_categorize(c.categorizer@, "switch_section"@, par, sib, sl) == Some(
                BlockType::Divider,
            ),
        forall|par: Option<Seq<char>>, sib: Option<Seq<char>>, sl: bool|
            #[trigger] spec_categorize(c.categorizer@, "block"@, par, sib, sl) == Some(
                BlockType::Divider,
            ),
{
    let mut t: Vec<CategorizerEntry> = Vec::new();
    t.push(entry("class_declaration", CategorizeRule::Always(BlockType::Object)));
    t.push(entry("method_declaration", CategorizeRule::Always(BlockType::FunctionDef)));
    t.push(entry("while_statement", CategorizeRule::Always(BlockType::While)));
    t.push(entry("if_statement", CategorizeRule::UnlessPrevSiblingElse(BlockType::If)));
    t.push(entry("for_statement", CategorizeRule::Always(BlockType::For)));
    t.push(entry("try_statement", CategorizeRule::Always(BlockType::Try)));
    t.push(entry("switch_statement", CategorizeRule::Always(BlockType::Switch)));
    t.push(entry("switch_section", CategorizeRule::Always(BlockType::Divider)));
    t.push(entry("import_declaration", CategorizeRule::Always(BlockType::Generic)));
    let mut for_init: Vec<String> = Vec::new();
    for_init.push(own_str("for_statement"));
    t.push(
        entry(
            "local_decleration_statement",
            CategorizeRule::UnlessParentIn(for_init, BlockType::Generic),
        ),
    );
    t.push(entry("field_declaration", CategorizeRule::Always(BlockType::Generic)));
    t.push(entry("break_statement", CategorizeRule::Always(BlockType::Generic)));
    t.push(entry("return_statement", CategorizeRule::Always(BlockType::Generic)));
    t.push(entry("assert_statement", CategorizeRule::Always(BlockType::Generic)));
    t.push(entry("local_function_statement", CategorizeRule::Always(BlockType::Generic)));
    t.push(entry("expression_statement", CategorizeRule::Always(BlockType::Generic)));
    t.push(entry("using_directive", CategorizeRule::Always(BlockType::Generic)));
    t.push(entry("line_comment", CategorizeRule::Always(BlockType::Comment)));
    t.push(entry("block_comment", CategorizeRule::Always(BlockType::Comment)));
    t.push(entry("block", CategorizeRule::Always(BlockType::Divider)));
    proof {
        reveal_strlit("class_declaration");
        reveal_strlit("method_declaration");
        reveal_strlit("while_statement");
        reveal_strlit("if_statement");
        reveal_strlit("for_statement");
        reveal_strlit("try_statement");
        reveal_strlit("switch_statement");
        reveal_strlit("switch_section");
        reveal_strlit("import_declaration");
        reveal_strlit("local_decleration_statement");
        reveal_strlit("field_declaration");
        reveal_strlit("break_statement");
        reveal_strlit("return_statement");
        reveal_strlit("assert_statement");
        reveal_strlit("local_function_statement");
        reveal_strlit("expression_statement");
        reveal_strlit("using_directive");
        reveal_strlit("line_comment");
        reveal_strlit("block_comment");
        reveal_strlit("block");
        reveal_strlit("else");
        let tv = t@;
        assert(tv.len() == 20);
        assert(tv[0].kind@ == "class_declaration"@);
        assert(tv[1].kind@ == "method_declaration"@);
        assert(tv[2].kind@ == "while_statement"@);
        assert(tv[3].kind@ == "if_statement"@);
        assert(tv[4].kind@ == "for_statement"@);
        assert(tv[5].kind@ == "try_statement"@);
        assert(tv[6].kind@ == "switch_statement"@);
        assert(tv[7].kind@ == "switch_section"@);
        assert(tv[8].kind@ == "import_declaration"@);
        assert(tv[9].kind@ == "local_decleration_statement"@);
        assert(tv[10].kind@ == "field_declaration"@);
        assert(tv[11].kind@ == "break_statement"@);
        assert(tv[12].kind@ == "return_statement"@);
        assert(tv[13].kind@ == "assert_statement"@);
        assert(tv[14].kind@ == "local_function_statement"@);
        assert(tv[15].kind@ == "expression_statement"@);
        assert(tv[16].kind@ == "using_directive"@);
        assert(tv[17].kind@ == "line_comment"@);
        assert(tv[18].kind@ == "block_comment"@);
        assert(tv[19].kind@ == "block"@);
        assert forall|par: Option<Seq<char>>, sib: Option<Seq<char>>, sl: bool|
            #[trigger] spec_categorize(tv, "if_statement"@, par, sib, sl) == (
        if sib == Some("else"@) {
            None
        } else {
            Some(BlockType::If)
        }) by {
            assert(tv[0].kind@ != "if_statement"@);
            assert(tv[1].kind@ != "if_statement"@);
            assert(tv[2].kind@ != "if_statement"@);
            lemma_categorize_at(tv, 3, "if_statement"@, par, sib, sl);
        }
        assert forall|par: Option<Seq<char>>, sib: Option<Seq<char>>, sl: bool|
            #[trigger] spec_categorize(tv, "local_decleration_statement"@, par, sib, sl) == (
        if par == Some("for_statement"@) {
            None
        } else {
            Some(BlockType::Generic)
        }) by {
            assert(tv[0].kind@ != "local_decleration_statement"@);
            assert(tv[1].kind@ != "local_decleration_statement"@);
            assert(tv[2].kind@ != "local_decleration_statement"@);
            assert(tv[3].kind@ != "local_decleration_statement"@);
            assert(tv[4].kind@ != "local_decleration_statement"@);
            assert(tv[5].kind@ != "local_decleration_statement"@);
            assert(tv[6].kind@ != "local_decleration_statement"@);
            assert(tv[7].kind@ != "local_decleration_statement"@);
            assert(tv[8].kind@ != "local_decleration_statement"@);
            lemma_categorize_at(tv, 9, "local_decleration_statement"@, par, sib, sl);
            let kinds = tv[9].rule->UnlessParentIn_0;
            assert(kinds@.len() == 1 && kinds@[0]@ == "for_statement"@);
        }
        assert forall|par: Option<Seq<char>>, sib: Option<Seq<char>>, sl: bool|
            #[trigger] spec_categorize(tv, "switch_section"@, par, sib, sl) == Some(
            BlockType::Divider,
        ) by {
            assert(tv[0].kind@ != "switch_section"@);
            assert(tv[1].kind@ != "switch_section"@);
            assert(tv[2].kind@ != "switch_section"@);
            assert(tv[3].kind@ != "switch_section"@);
            assert(tv[4].kind@ != "switch_section"@);
            assert(tv[5].kind@ != "switch_section"@);
            assert(tv[6].kind@ != "switch_section"@);
            lemma_categorize_at(tv, 7, "switch_section"@, par, sib, sl);
        }
        assert forall|par: Option<Seq<char>>, sib: Option<Seq<char>>, sl: bool|
            #[trigger] spec_categorize(tv, "block"@, par, sib, sl) == Some(
            BlockType::Divider,
        ) by {
            assert(tv[0].kind@ != "block"@);
            assert(tv[1].kind@ != "block"@);
            assert(tv[2].kind@ != "block"@);
            assert(tv[3].kind@ != "block"@);
            assert(tv[4].kind@ != "block"@);
            assert(tv[5].kind@ != "block"@);
            assert(tv[6].kind@ != "block"@);
            assert(tv[7].kind@ != "block"@);
            assert(tv[8].kind@ != "block"@);
            assert(tv[9].kind@ != "block"@);
            assert(tv[10].kind@ != "block"@);
            assert(tv[11].kind@ != "block"@);
            assert(tv[12].kind@ != "block"@);
            assert(tv[13].kind@ != "block"@);
            assert(tv[14].kind@ != "block"@);
            assert(tv[15].kind@ != "block"@);
            assert(tv[16].kind@ != "block"@);
            assert(tv[17].kind@ != "block"@);
            assert(tv[18].kind@ != "block"@);
            lemma_categorize_at(tv, 19, "block"@, par, sib, sl);
        }
    }
    let mut bounds: Vec<u16> = Vec::new();
    bounds.push(11);
    bounds.push(12);
    LanguageConfig {
        name: own_str("c#"),
        grammar: LanguageId::CSharp,
        new_scope_char: NewScopeChar::Brace,
        categorizer: t,
        string_node_ids: StringNodeIDs { string: 141, string_bounds: bounds },
        palettes: Vec::new(),
    }
}

/// The C++ configuration: brace scopes.
pub fn cpp_config() -> (c: LanguageConfig)
    ensures
        c.grammar == LanguageId::Cpp,
        c.new_scope_char == NewScopeChar::Brace,
        c.name@ == "cpp"@,
        forall|par: Option<Seq<char>>, sib: Option<Seq<char>>, sl: bool|
            #[trigger] spec_categorize(c.categorizer@, "function_definition"@, par, sib, sl) == (
            if par == Some("template_declaration"@) {
                None
            } else {
                Some(BlockType::FunctionDef)
            }),
        forall|par: Option<Seq<char>>, sib: Option<Seq<char>>, sl: bool|
            #[trigger] spec_categorize(c.categorizer@, "if_statement"@, par, sib, sl) == (
            if sib == Some("else"@) {
                None
            } else {
                Some(BlockType::If)
            }),
        forall|par: Option<Seq<char>>, sib: Option<Seq<char>>, sl: bool|
            #[trigger] spec_categorize(c.categorizer@, "local_variable_declaration"@, par, sib, sl) == (
            if par == Some("for_statement"@) {
                None
            } else {
                Some(BlockType::Generic)
            }),
        forall|par: Option<Seq<char>>, sib: Option<Seq<char>>, sl: bool|
            #[trigger] spec_categorize(c.categorizer@, "else_clause"@, par, sib, sl) == Some(
                BlockType::Divider,
            ),
{
    let mut t: Vec<CategorizerEntry> = Vec::new();
    t.push(entry("class_specifier", CategorizeRule::Always(BlockType::Object)));
    t.push(entry("struct_specifier", CategorizeRule::Always(BlockType::Object)));
    t.push(entry("abstract_function_declarator", CategorizeRule::Always(BlockType::Object)));
    let mut templ: Vec<String> = Vec::new();
    templ.push(own_str("template_declaration"));
    t.push(
        entry(
            "function_definition",
            CategorizeRule::UnlessParentIn(templ, BlockType::FunctionDef),
        ),
    );
    t.push(entry("while_statement", CategorizeRule::Always(BlockType::While)));
    t.push(entry("if_statement", CategorizeRule::UnlessPrevSiblingElse(BlockType::If)));
    t.push(entry("for_statement", CategorizeRule::Always(BlockType::For)));
    t.push(entry("try_statement", CategorizeRule::Always(BlockType::Try)));
    t.push(entry("template_declaration", CategorizeRule::Always(BlockType::FunctionDef)));
    t.push(entry("preproc_include", CategorizeRule::Always(BlockType::Generic)));
    t.push(entry("expression_statement", CategorizeRule::Always(BlockType::Generic)));
    t.push(entry("continue_statement", CategorizeRule::Always(BlockType::Generic)));
    t.push(entry("break_statement", CategorizeRule::Always(BlockType::Generic)));
    t.push(entry("pass_statement", CategorizeRule::Always(BlockType::Generic)));
    let mut for_init: Vec<String> = Vec::new();
    for_init.push(own_str("for_statement"));
    t.push(
        entry(
            "local_variable_declaration",
            CategorizeRule::UnlessParentIn(for_init, BlockType::Generic),
        ),
    );
    t.push(entry("comment", CategorizeRule::Always(BlockType::Comment)));
    t.push(entry("else_clause", CategorizeRule::Always(BlockType::Divider)));
    t.push(entry("except_clause", CategorizeRule::Always(BlockType::Divider)));
    proof {
        reveal_strlit("class_specifier");
        reveal_strlit("struct_specifier");
        reveal_strlit("abstract_function_declarator");
        reveal_strlit("function_definition");
        reveal_strlit("while_statement");
        reveal_strlit("if_statement");
        reveal_strlit("for_statement");
        reveal_strlit("try_statement");
        reveal_strlit("template_declaration");
        reveal_strlit("preproc_include");
        reveal_strlit("expression_statement");
        reveal_strlit("continue_statement");
        reveal_strlit("break_statement");
        reveal_strlit("pass_statement");
        reveal_strlit("local_variable_declaration");
        reveal_strlit("comment");
        reveal_strlit("else_clause");
        reveal_strlit("except_clause");
        reveal_strlit("else");
        let tv = t@;
        assert(tv.len() == 18);
        assert(tv[0].kind@ == "class_specifier"@);
        assert(tv[1].kind@ == "struct_specifier"@);
        assert(tv[2].kind@ == "abstract_function_declarator"@);
        assert(tv[3].kind@ == "function_definition"@);
        assert(tv[4].kind@ == "while_statement"@);
        assert(tv[5].kind@ == "if_statement"@);
        assert(tv[6].kind@ == "for_statement"@);
        assert(tv[7].kind@ == "try_statement"@);
        assert(tv[8].kind@ == "template_declaration"@);
        assert(tv[9].kind@ == "preproc_include"@);
        assert(tv[10].kind@ == "expression_statement"@);
        assert(tv[11].kind@ == "continue_statement"@);
        assert(tv[12].kind@ == "break_statement"@);
        assert(tv[13].kind@ == "pass_statement"@);
        assert(tv[14].kind@ == "local_variable_declaration"@);
        assert(tv[15].kind@ == "comment"@);
        assert(tv[16].kind@ == "else_clause"@);
        assert(tv[17].kind@ == "except_clause"@);
        assert forall|par: Option<Seq<char>>, sib: Option<Seq<char>>, sl: bool|
            #[trigger] spec_categorize(tv, "function_definition"@, par, sib, sl) == (
        if par == Some("template_declaration"@) {
            None
        } else {
            Some(BlockType::FunctionDef)
        }) by {
            assert(tv[0].kind@ != "function_definition"@);
            assert(tv[1].kind@ != "function_definition"@);
            assert(tv[2].kind@ != "function_definition"@);
            lemma_categorize_at(tv, 3, "function_definition"@, par, sib, sl);
            let kinds = tv[3].rule->UnlessParentIn_0;
            assert(kinds@.len() == 1 && kinds@[0]@ == "template_declaration"@);
        }
        assert forall|par: Option<Seq<char>>, sib: Option<Seq<char>>, sl: bool|
            #[trigger] spec_categorize(tv, "if_statement"@, par, sib, sl) == (
        if sib == Some("else"@) {
            None
        } else {
            Some(BlockType::If)
        }) by {
            assert(tv[0].kind@ != "if_statement"@);
            assert(tv[1].kind@ != "if_statement"@);
            assert(tv[2].kind@ != "if_statement"@);
            assert(tv[3].kind@ != "if_statement"@);
            assert(tv[4].kind@ != "if_statement"@);
            lemma_categorize_at(tv, 5, "if_statement"@, par, sib, sl);
        }
        assert forall|par: Option<Seq<char>>, sib: Option<Seq<char>>, sl: bool|
            #[trigger] spec_categorize(tv, "local_variable_declaration"@, par, sib, sl) == (
        if par == Some("for_statement"@) {
            None
        } else {
            Some(BlockType::Generic)
        }) by {
            assert(tv[0].kind@ != "local_variable_declaration"@);
            assert(tv[1].kind@ != "local_variable_declaration"@);
            assert(tv[2].kind@ != "local_variable_declaration"@);
            assert(tv[3].kind@ != "local_variable_declaration"@);
            assert(tv[4].kind@ != "local_variable_declaration"@);
            assert(tv[5].kind@ != "local_variable_declaration"@);
            assert(tv[6].kind@ != "local_variable_declaration"@);
            assert(tv[7].kind@ != "local_variable_declaration"@);
            assert(tv[8].kind@ != "local_variable_declaration"@);
            assert(tv[9].kind@ != "local_variable_declaration"@);
            assert(tv[10].kind@ != "local_variable_declaration"@);
            assert(tv[11].kind@ != "local_variable_declaration"@);
            assert(tv[12].kind@ != "local_variable_declaration"@);
            assert(tv[13].kind@ != "local_variable_declaration"@);
            lemma_categorize_at(tv, 14, "local_variable_declaration"@, par, sib, sl);
            let kinds = tv[14].rule->UnlessParentIn_0;
            assert(kinds@.len() == 1 && kinds@[0]@ == "for_statement"@);
        }
        assert forall|par: Option<Seq<char>>, sib: Option<Seq<char>>, sl: bool|
            #[trigger] spec_categorize(tv, "else_clause"@, par, sib, sl) == Some(
            BlockType::Divider,
        ) by {
            assert(tv[0].kind@ != "else_clause"@);
            assert(tv[1].kind@ != "else_clause"@);
            assert(tv[2].kind@ != "else_clause"@);
            assert(tv[3].kind@ != "else_clause"@);
            assert(tv[4].kind@ != "else_clause"@);
            assert(tv[5].kind@ != "else_clause"@);
            assert(tv[6].kind@ != "else_clause"@);
            assert(tv[7].kind@ != "else_clause"@);
            assert(tv[8].kind@ != "else_clause"@);
            assert(tv[9].kind@ != "else_clause"@);
            assert(tv[10].kind@ != "else_clause"@);
            assert(tv[11].kind@ != "else_clause"@);
            assert(tv[12].kind@ != "else_clause"@);
            assert(tv[13].kind@ != "else_clause"@);
            assert(tv[14].kind@ != "else_clause"@);
            assert(tv[15].kind@ != "else_clause"@);
            lemma_categorize_at(tv, 16, "else_clause"@, par, sib, sl);
        }
    }
    let mut bounds: Vec<u16> = Vec::new();
    bounds.push(162);
    LanguageConfig {
        name: own_str("cpp"),
        grammar: LanguageId::Cpp,
        new_scope_char: NewScopeChar::Brace,
        categorizer: t,
        string_node_ids: StringNodeIDs { string: 360, string_bounds: bounds },
        palettes: Vec::new(),
    }
}

/// The Rust configuration: brace scopes, with several context-sensitive
/// suppressions so that expression-position constructs do not open blocks.
pub fn rust_config() -> (c: LanguageConfig)
    ensures
        c.grammar == LanguageId::Rust,
        c.new_scope_char == NewScopeChar::Brace,
        c.name@ == "rust"@,
        forall|par: Option<Seq<char>>, sib: Option<Seq<char>>, sl: bool|
            #[trigger] spec_categorize(c.categorizer@, "block"@, par, sib, sl) == (
            if par == Some("function_item"@) || par == Some("if_expression"@) || par == Some(
                "else_clause"@,
            ) || par == Some("match_arm"@) || par == Some("match_block"@) {
                None
            } else {
                Some(BlockType::Object)
            }),
        forall|par: Option<Seq<char>>, sib: Option<Seq<char>>, sl: bool|
            #[trigger] spec_categorize(c.categorizer@, "let_declaration"@, par, sib, sl) == (
            if sl {
                Some(BlockType::Generic)
            } else {
                Some(BlockType::Divider)
            }),
        forall|par: Option<Seq<char>>, sib: Option<Seq<char>>, sl: bool|
            #[trigger] spec_categorize(c.categorizer@, "if_expression"@, par, sib, sl) == (
            if par == Some("else_clause"@) {
                None
            } else {
                Some(BlockType::If)
            }),
{
    let mut t: Vec<CategorizerEntry> = Vec::new();
    t.push(entry("struct_item", CategorizeRule::Always(BlockType::Object)));
    t.push(entry("union_item", CategorizeRule::Always(BlockType::Object)));
    t.push(entry("enum_item", CategorizeRule::Always(BlockType::Object)));
    t.push(entry("impl_item", CategorizeRule::Always(BlockType::Object)));
    t.push(entry("trait_item", CategorizeRule::Always(BlockType::Object)));
    t.push(entry("function_item", CategorizeRule::Always(BlockType::FunctionDef)));
    t.push(entry("type_item", CategorizeRule::Always(BlockType::Object)));
    let mut block_parents: Vec<String> = Vec::new();
    block_parents.push(own_str("function_item"));
    block_parents.push(own_str("if_expression"));
    block_parents.push(own_str("else_clause"));
    block_parents.push(own_str("match_arm"));
    block_parents.push(own_str("match_block"));
    t.push(entry("block", CategorizeRule::UnlessParentIn(block_parents, BlockType::Object)));
    t.push(entry("enum_variant", CategorizeRule::Always(BlockType::Generic)));
    t.push(entry("field_declaration", CategorizeRule::Always(BlockType::Generic)));
    let mut expr_stmt: Vec<String> = Vec::new();
    expr_stmt.push(own_str("expression_statement"));
    t.push(
        entry(
            "while_expression",
            CategorizeRule::UnlessParentIn(expr_stmt, BlockType::Generic),
        ),
    );
    t.push(entry("match_block", CategorizeRule::Always(BlockType::Switch)));
    t.push(entry("match_arm", CategorizeRule::Always(BlockType::Generic)));
    t.push(entry("let_declaration", CategorizeRule::SingleLineOrDivider(BlockType::Generic)));
    let mut else_parent: Vec<String> = Vec::new();
    else_parent.push(own_str("else_clause"));
    t.push(entry("if_expression", CategorizeRule::UnlessParentIn(else_parent, BlockType::If)));
    let mut expr_stmt2: Vec<String> = Vec::new();
    expr_stmt2.push(own_str("expression_statement"));
    t.push(
        entry("for_expression", CategorizeRule::UnlessParentIn(expr_stmt2, BlockType::For)),
    );
    t.push(entry("struct_expression", CategorizeRule::Always(BlockType::Generic)));
    t.push(entry("continue_expression", CategorizeRule::Always(BlockType::Generic)));
    let mut value_ctx: Vec<String> = Vec::new();
    value_ctx.push(own_str("let_declaration"));
    value_ctx.push(own_str("match_expression"));
    value_ctx.push(own_str("binary_expression"));
    value_ctx.push(own_str("argument_list"));
    value_ctx.push(own_str("match_arm"));
    value_ctx.push(own_str("if_expression"));
    value_ctx.push(own_str("for_expression"));
    value_ctx.push(own_str("while_expression"));
    value_ctx.push(own_str("arguments"));
    t.push(
        entry(
            "call_expression",
            CategorizeRule::UnlessParentIn(value_ctx, BlockType::Generic),
        ),
    );
    let mut value_ctx2: Vec<String> = Vec::new();
    value_ctx2.push(own_str("let_declaration"));
    value_ctx2.push(own_str("match_expression"));
    value_ctx2.push(own_str("binary_expression"));
    value_ctx2.push(own_str("argument_list"));
    value_ctx2.push(own_str("match_arm"));
    value_ctx2.push(own_str("if_expression"));
    value_ctx2.push(own_str("for_expression"));
    value_ctx2.push(own_str("while_expression"));
    t.push(
        entry(
            "macro_invocation",
            CategorizeRule::UnlessParentIn(value_ctx2, BlockType::Generic),
        ),
    );
    t.push(entry("use_item", CategorizeRule::Always(BlockType::Generic)));
    t.push(entry("else_clause", CategorizeRule::Always(BlockType::Divider)));
    t.push(entry("return_expression", CategorizeRule::Always(BlockType::Generic)));
    t.push(entry("assignment_expression", CategorizeRule::Always(BlockType::Generic)));
    t.push(entry("line_comment", CategorizeRule::Always(BlockType::Comment)));
    t.push(entry("block_comment", CategorizeRule::Always(BlockType::Comment)));
    proof {
        reveal_strlit("struct_item");
        reveal_strlit("union_item");
        reveal_strlit("enum_item");
        reveal_strlit("impl_item");
        reveal_strlit("trait_item");
        reveal_strlit("function_item");
        reveal_strlit("type_item");
        reveal_strlit("block");
        reveal_strlit("enum_variant");
        reveal_strlit("field_declaration");
        reveal_strlit("while_expression");
        reveal_strlit("match_block");
        reveal_strlit("match_arm");
        reveal_strlit("let_declaration");
        reveal_strlit("if_expression");
        reveal_strlit("for_expression");
        reveal_strlit("struct_expression");
        reveal_strlit("continue_expression");
        reveal_strlit("call_expression");
        reveal_strlit("macro_invocation");
        reveal_strlit("use_item");
        reveal_strlit("else_clause");
        reveal_strlit("return_expression");
        reveal_strlit("assignment_expression");
        reveal_strlit("line_comment");
        reveal_strlit("block_comment");
        let tv = t@;
        assert(tv.len() == 26);
        assert(tv[0].kind@ == "struct_item"@);
        assert(tv[1].kind@ == "union_item"@);
        assert(tv[2].kind@ == "enum_item"@);
        assert(tv[3].kind@ == "impl_item"@);
        assert(tv[4].kind@ == "trait_item"@);
        assert(tv[5].kind@ == "function_item"@);
        assert(tv[6].kind@ == "type_item"@);
        assert(tv[7].kind@ == "block"@);
        assert(tv[8].kind@ == "enum_variant"@);
        assert(tv[9].kind@ == "field_declaration"@);
        assert(tv[10].kind@ == "while_expression"@);
        assert(tv[11].kind@ == "match_block"@);
        assert(tv[12].kind@ == "match_arm"@);
        assert(tv[13].kind@ == "let_declaration"@);
        assert(tv[14].kind@ == "if_expression"@);
        assert(tv[15].kind@ == "for_expression"@);
        assert(tv[16].kind@ == "struct_expression"@);
        assert(tv[17].kind@ == "continue_expression"@);
        assert(tv[18].kind@ == "call_expression"@);
        assert(tv[19].kind@ == "macro_invocation"@);
        assert(tv[20].kind@ == "use_item"@);
        assert(tv[21].kind@ == "else_clause"@);
        assert(tv[22].kind@ == "return_expression"@);
        assert(tv[23].kind@ == "assignment_expression"@);
        assert(tv[24].kind@ == "line_comment"@);
        assert(tv[25].kind@ == "block_comment"@);
        assert forall|par: Option<Seq<char>>, sib: Option<Seq<char>>, sl: bool|
            #[trigger] spec_categorize(tv, "block"@, par, sib, sl) == (
        if par == Some("function_item"@) || par == Some("if_expression"@) || par == Some(
            "else_clause"@,
        ) || par == Some("match_arm"@) || par == Some("match_block"@) {
            None
        } else {
            Some(BlockType::Object)
        }) by {
            assert(tv[0].kind@ != "block"@);
            assert(tv[1].kind@ != "block"@);
            assert(tv[2].kind@ != "block"@);
            assert(tv[3].kind@ != "block"@);
            assert(tv[4].kind@ != "block"@);
            assert(tv[5].kind@ != "block"@);
            assert(tv[6].kind@ != "block"@);
            lemma_categorize_at(tv, 7, "block"@, par, sib, sl);
            let kinds = tv[7].rule->UnlessParentIn_0;
            assert(kinds@.len() == 5);
            assert(kinds@[0]@ == "function_item"@);
            assert(kinds@[1]@ == "if_expression"@);
            assert(kinds@[2]@ == "else_clause"@);
            assert(kinds@[3]@ == "match_arm"@);
            assert(kinds@[4]@ == "match_block"@);
            if par is Some {
                let pk = par.unwrap();
                if pk != "function_item"@ && pk != "if_expression"@ && pk != "else_clause"@ && pk
                    != "match_arm"@ && pk != "match_block"@ {
                    assert forall|i: int| 0 <= i < kinds@.len() implies kinds@[i]@ != pk by {
                        if i == 0 {
                        } else if i == 1 {
                        } else if i == 2 {
                        } else if i == 3 {
                        } else {
                            assert(i == 4);
                        }
                    }
                }
            }
        }
        assert forall|par: Option<Seq<char>>, sib: Option<Seq<char>>, sl: bool|
            #[trigger] spec_categorize(tv, "let_declaration"@, par, sib, sl) == (
        if sl {
            Some(BlockType::Generic)
        } else {
            Some(BlockType::Divider)
        }) by {
            assert(tv[0].kind@ != "let_declaration"@);
            assert(tv[1].kind@ != "let_declaration"@);
            assert(tv[2].kind@ != "let_declaration"@);
            assert(tv[3].kind@ != "let_declaration"@);
            assert(tv[4].kind@ != "let_declaration"@);
            assert(tv[5].kind@ != "let_declaration"@);
            assert(tv[6].kind@ != "let_declaration"@);
            assert(tv[7].kind@ != "let_declaration"@);
            assert(tv[8].kind@ != "let_declaration"@);
            assert(tv[9].kind@ != "let_declaration"@);
            assert(tv[10].kind@ != "let_declaration"@);
            assert(tv[11].kind@ != "let_declaration"@);
            assert(tv[12].kind@ != "let_declaration"@);
            lemma_categorize_at(tv, 13, "let_declaration"@, par, sib, sl);
        }
        assert forall|par: Option<Seq<char>>, sib: Option<Seq<char>>, sl: bool|
            #[trigger] spec_categorize(tv, "if_expression"@, par, sib, sl) == (
        if par == Some("else_clause"@) {
            None
        } else {
            Some(BlockType::If)
        }) by {
            assert(tv[0].kind@ != "if_expression"@);
            assert(tv[1].kind@ != "if_expression"@);
            assert(tv[2].kind@ != "if_expression"@);
            assert(tv[3].kind@ != "if_expression"@);
            assert(tv[4].kind@ != "if_expression"@);
            assert(tv[5].kind@ != "if_expression"@) by {
                assert(tv[5].kind@[0] == 'f' && "if_expression"@[0] == 'i');
            }
            assert(tv[6].kind@ != "if_expression"@);
            assert(tv[7].kind@ != "if_expression"@);
            assert(tv[8].kind@ != "if_expression"@);
            assert(tv[9].kind@ != "if_expression"@);
            assert(tv[10].kind@ != "if_expression"@);
            assert(tv[11].kind@ != "if_expression"@);
            assert(tv[12].kind@ != "if_expression"@);
            assert(tv[13].kind@ != "if_expression"@);
            lemma_categorize_at(tv, 14, "if_expression"@, par, sib, sl);
            let kinds = tv[14].rule->UnlessParentIn_0;
            assert(kinds@.len() == 1 && kinds@[0]@ == "else_clause"@);
        }
    }
    let mut bounds: Vec<u16> = Vec::new();
    bounds.push(162);
    LanguageConfig {
        name: own_str("rust"),
        grammar: LanguageId::Rust,
        new_scope_char: NewScopeChar::Brace,
        categorizer: t,
        string_node_ids: StringNodeIDs { string: 360, string_bounds: bounds },
        palettes: Vec::new(),
    }
}

/// The Verilog configuration: begin/end scopes.
pub fn verilog_config() -> (c: LanguageConfig)
    ensures
        c.grammar == LanguageId::Verilog,
        c.new_scope_char == NewScopeChar::Begin,
        c.name@ == "verilog"@,
{
    let mut t: Vec<CategorizerEntry> = Vec::new();
    t.push(entry("module_declaration", CategorizeRule::Always(BlockType::Object)));
    t.push(entry("interface_declaration", CategorizeRule::Always(BlockType::Object)));
    t.push(entry("package_declaration", CategorizeRule::Always(BlockType::Object)));
    t.push(entry("task_declaration", CategorizeRule::Always(BlockType::FunctionDef)));
    t.push(entry("function_declaration", CategorizeRule::Always(BlockType::FunctionDef)));
    t.push(entry("if_statement", CategorizeRule::Always(BlockType::If)));
    t.push(entry("case_statement", CategorizeRule::Always(BlockType::Switch)));
    t.push(entry("for_statement", CategorizeRule::Always(BlockType::For)));
    t.push(entry("while_statement", CategorizeRule::Always(BlockType::While)));
    t.push(entry("repeat_statement", CategorizeRule::Always(BlockType::For)));
    t.push(entry("forever_statement", CategorizeRule::Always(BlockType::While)));
    t.push(entry("initial_construct", CategorizeRule::Always(BlockType::Generic)));
    t.push(entry("always_construct", CategorizeRule::Always(BlockType::Generic)));
    t.push(entry("final_construct", CategorizeRule::Always(BlockType::Generic)));
    t.push(entry("data_declaration", CategorizeRule::Always(BlockType::Generic)));
    t.push(entry("net_declaration", CategorizeRule::Always(BlockType::Generic)));
    t.push(entry("parameter_declaration", CategorizeRule::Always(BlockType::Generic)));
    t.push(entry("localparam_declaration", CategorizeRule::Always(BlockType::Generic)));
    t.push(entry("module_instantiation", CategorizeRule::Always(BlockType::Generic)));
    t.push(entry("interface_instantiation", CategorizeRule::Always(BlockType::Generic)));
    t.push(entry("continuous_assign", CategorizeRule::Always(BlockType::Generic)));
    t.push(
        entry("procedural_continuous_assign", CategorizeRule::Always(BlockType::Generic)),
    );
    t.push(entry("comment", CategorizeRule::Always(BlockType::Comment)));
    t.push(entry("else_clause", CategorizeRule::Always(BlockType::Divider)));
    t.push(entry("default_clause", CategorizeRule::Always(BlockType::Divider)));
    let mut bounds: Vec<u16> = Vec::new();
    bounds.push(34);
    LanguageConfig {
        name: own_str("verilog"),
        grammar: LanguageId::Verilog,
        new_scope_char: NewScopeChar::Begin,
        categorizer: t,
        string_node_ids: StringNodeIDs { string: 200, string_bounds: bounds },
        palettes: Vec::new(),
    }
}

/// The SystemVerilog configuration: begin/end scopes.
pub fn systemverilog_config() -> (c: LanguageConfig)
    ensures
        c.grammar == LanguageId::SystemVerilog,
        c.new_scope_char == NewScopeChar::Begin,
        c.name@ == "systemverilog"@,
{
    let mut t: Vec<CategorizerEntry> = Vec::new();
    t.push(entry("module_declaration", CategorizeRule::Always(BlockType::Object)));
    t.push(entry("interface_declaration", CategorizeRule::Always(BlockType::Object)));
    t.push(entry("package_declaration", CategorizeRule::Always(BlockType::Object)));
    t.push(entry("class_declaration", CategorizeRule::Always(BlockType::Object)));
    t.push(entry("program_declaration", CategorizeRule::Always(BlockType::Object)));
    t.push(entry("task_declaration", CategorizeRule::Always(BlockType::FunctionDef)));
    t.push(entry("function_declaration", CategorizeRule::Always(BlockType::FunctionDef)));
    t.push(entry("method_declaration", CategorizeRule::Always(BlockType::FunctionDef)));
    t.push(entry("constructor_declaration", CategorizeRule::Always(BlockType::FunctionDef)));
    t.push(entry("if_statement", CategorizeRule::Always(BlockType::If)));
    t.push(entry("case_statement", CategorizeRule::Always(BlockType::Switch)));
    t.push(entry("casex_statement", CategorizeRule::Always(BlockType::Switch)));
    t.push(entry("casez_statement", CategorizeRule::Always(BlockType::Switch)));
    t.push(entry("unique_case_statement", CategorizeRule::Always(BlockType::Switch)));
    t.push(entry("for_statement", CategorizeRule::Always(BlockType::For)));
    t.push(entry("foreach_statement", CategorizeRule::Always(BlockType::For)));
    t.push(entry("while_statement", CategorizeRule::Always(BlockType::While)));
    t.push(entry("do_while_statement", CategorizeRule::Always(BlockType::While)));
    t.push(entry("repeat_statement", CategorizeRule::Always(BlockType::For)));
    t.push(entry("forever_statement", CategorizeRule::Always(BlockType::While)));
    t.push(entry("try_statement", CategorizeRule::Always(BlockType::Try)));
    t.push(entry("initial_construct", CategorizeRule::Always(BlockType::Generic)));
    t.push(entry("always_construct", CategorizeRule::Always(BlockType::Generic)));
    t.push(entry("always_comb", CategorizeRule::Always(BlockType::Generic)));
    t.push(entry("always_ff", CategorizeRule::Always(BlockType::Generic)));
    t.push(entry("always_latch", CategorizeRule::Always(BlockType::Generic)));
    t.push(entry("final_construct", CategorizeRule::Always(BlockType::Generic)));
    t.push(entry("data_declaration", CategorizeRule::Always(BlockType::Generic)));
    t.push(entry("net_declaration", CategorizeRule::Always(BlockType::Generic)));
    t.push(entry("parameter_declaration", CategorizeRule::Always(BlockType::Generic)));
    t.push(entry("localparam_declaration", CategorizeRule::Always(BlockType::Generic)));
    t.push(entry("typedef_declaration", CategorizeRule::Always(BlockType::Generic)));
    t.push(entry("property_declaration", CategorizeRule::Always(BlockType::Generic)));
    t.push(entry("sequence_declaration", CategorizeRule::Always(BlockType::Generic)));
    t.push(entry("module_instantiation", CategorizeRule::Always(BlockType::Generic)));
    t.push(entry("interface_instantiation", CategorizeRule::Always(BlockType::Generic)));
    t.push(entry("class_instantiation", CategorizeRule::Always(BlockType::Generic)));
    t.push(entry("continuous_assign", CategorizeRule::Always(BlockType::Generic)));
    t.push(
        entry("procedural_continuous_assign", CategorizeRule::Always(BlockType::Generic)),
    );
    t.push(entry("blocking_assignment", CategorizeRule::Always(BlockType::Generic)));
    t.push(entry("nonblocking_assignment", CategorizeRule::Always(BlockType::Generic)));
    t.push(entry("assertion_statement", CategorizeRule::Always(BlockType::Generic)));
    t.push(entry("assume_statement", CategorizeRule::Always(BlockType::Generic)));
    t.push(entry("cover_statement", CategorizeRule::Always(BlockType::Generic)));
    t.push(entry("expect_statement", CategorizeRule::Always(BlockType::Generic)));
    t.push(entry("comment", CategorizeRule::Always(BlockType::Comment)));
    t.push(entry("else_clause", CategorizeRule::Always(BlockType::Divider)));
    t.push(entry("default_clause", CategorizeRule::Always(BlockType::Divider)));
    t.push(entry("catch_clause", CategorizeRule::Always(BlockType::Divider)));
    let mut bounds: Vec<u16> = Vec::new();
    bounds.push(34);
    LanguageConfig {
        name: own_str("systemverilog"),
        grammar: LanguageId::SystemVerilog,
        new_scope_char: NewScopeChar::Begin,
        categorizer: t,
        string_node_ids: StringNodeIDs { string: 300, string_bounds: bounds },
        palettes: Vec::new(),
    }
}

} // verus!
