//! Block decomposition: nested visual regions derived from the syntax
//! tree.
//!
//! The opaque tree is first copied into an *arena*: a vector of plain
//! nodes, in preorder, each holding its kind, spans, and the indices of
//! its parent and previous sibling. Everything after that copy is verified
//! against the arena: which nodes the language classifies as blocks, the
//! nesting depth of each (the number of classified, non-divider
//! ancestors), and the per-line padding table used for layout. The
//! decomposition is recomputed in full from the current tree on every
//! change; nothing is diffed incrementally.

use vstd::prelude::*;

use crate::lang::{spec_categorize, BlockType, LanguageConfig};
use crate::tree_manager::{
    cursor_goto_first_child, cursor_goto_next_sibling, cursor_goto_parent, cursor_node_info,
    NodeInfo,
};

verus! {

/// One node of the arena: its data plus structural links, as indices that
/// always point backwards in the vector.
pub struct ArenaNode {
    pub info: NodeInfo,
    pub parent: Option<usize>,
    pub prev_sibling: Option<usize>,
}

/// Arena well-formedness: parents and previous siblings come earlier in
/// preorder, so walking either link always terminates.
pub open spec fn arena_wf(ar: Seq<ArenaNode>) -> bool {
    forall|i: int|
        0 <= i < ar.len() ==> {
            &&& (#[trigger] ar[i].parent is Some ==> ar[i].parent.unwrap() < i)
            &&& (ar[i].prev_sibling is Some ==> ar[i].prev_sibling.unwrap() < i)
        }
}

/// A derived, render-only block region.
#[derive(Clone, PartialEq, Eq, Structural, Debug)]
pub struct Block {
    /// The category the language assigned to the node.
    pub kind: BlockType,
    /// Byte span of the node.
    pub start_byte: usize,
    pub end_byte: usize,
    /// Line/column span of the node.
    pub start_row: usize,
    pub start_col: usize,
    pub end_row: usize,
    pub end_col: usize,
    /// Number of classified, non-divider ancestors.
    pub depth: usize,
}

/// The category of arena node `i`: its kind looked up in the language's
/// table, in the context of its parent's and previous sibling's kinds and
/// its line extent.
pub open spec fn node_category(ar: Seq<ArenaNode>, cfg: LanguageConfig, i: int) -> Option<
    BlockType,
> {
    spec_categorize(
        cfg.categorizer@,
        ar[i].info.kind@,
        match ar[i].parent {
            Some(p) => Some(ar[p as int].info.kind@),
            None => None,
        },
        match ar[i].prev_sibling {
            Some(p) => Some(ar[p as int].info.kind@),
            None => None,
        },
        ar[i].info.start_row == ar[i].info.end_row,
    )
}

/// Whether a category opens a nested region; dividers separate blocks
/// without nesting.
pub open spec fn opens_region(c: Option<BlockType>) -> bool {
    c is Some && c.unwrap() != BlockType::Divider
}

/// Nesting depth of arena node `i`: how many of its ancestors open
/// regions.
pub open spec fn depth_of(ar: Seq<ArenaNode>, cfg: LanguageConfig, i: int) -> nat
    decreases i,
    when arena_wf(ar) && 0 <= i < ar.len()
{
    match ar[i].parent {
        None => 0,
        Some(p) => depth_of(ar, cfg, p as int) + if opens_region(
            node_category(ar, cfg, p as int),
        ) {
            1nat
        } else {
            0nat
        },
    }
}

/// A node can have at most as many ancestors as there are nodes before it.
pub proof fn lemma_depth_bound(ar: Seq<ArenaNode>, cfg: LanguageConfig, i: int)
    requires
        arena_wf(ar),
        0 <= i < ar.len(),
    ensures
        depth_of(ar, cfg, i) <= i,
    decreases i,
{
    match ar[i].parent {
        None => {},
        Some(p) => {
            lemma_depth_bound(ar, cfg, p as int);
        },
    }
}

/// The block emitted for classified arena node `i`.
pub open spec fn block_of(ar: Seq<ArenaNode>, cfg: LanguageConfig, i: int, cat: BlockType) -> Block {
    Block {
        kind: cat,
        start_byte: ar[i].info.start_byte,
        end_byte: ar[i].info.end_byte,
        start_row: ar[i].info.start_row,
        start_col: ar[i].info.start_col,
        end_row: ar[i].info.end_row,
        end_col: ar[i].info.end_col,
        depth: depth_of(ar, cfg, i) as usize,
    }
}

/// The blocks of the first `n` arena nodes, in preorder: one block per
/// classified node.
pub open spec fn blocks_spec(ar: Seq<ArenaNode>, cfg: LanguageConfig, n: int) -> Seq<Block>
    decreases n,
    when 0 <= n <= ar.len()
{
    if n <= 0 {
        Seq::empty()
    } else {
        blocks_spec(ar, cfg, n - 1) + match node_category(ar, cfg, n - 1) {
            Some(cat) => seq![block_of(ar, cfg, n - 1, cat)],
            None => Seq::empty(),
        }
    }
}

/// Copies the tree under the cursor into an arena, in preorder, visiting
/// at most `max_nodes` nodes. The links of the result always point
/// backwards, whatever the cursor did.
pub fn tree_to_arena(cursor: &mut tree_sitter::TreeCursor<'_>, max_nodes: usize) -> (ar: Vec<
    ArenaNode,
>)
    ensures
        arena_wf(ar@),
{
    let mut arena: Vec<ArenaNode> = Vec::new();
    let mut stack: Vec<usize> = Vec::new();
    let mut prev_sib: Option<usize> = None;
    let mut fuel = max_nodes;
    while fuel > 0
        invariant
            arena_wf(arena@),
            forall|j: int| 0 <= j < stack@.len() ==> #[trigger] stack@[j] < arena@.len(),
            prev_sib is Some ==> prev_sib.unwrap() < arena@.len(),
        ensures
            arena_wf(arena@),
        decreases fuel,
    {
        fuel = fuel - 1;
        let idx = arena.len();
        let parent = if stack.len() > 0 {
            Some(stack[stack.len() - 1])
        } else {
            None
        };
        arena.push(ArenaNode { info: cursor_node_info(cursor), parent, prev_sibling: prev_sib });
        if cursor_goto_first_child(cursor) {
            stack.push(idx);
            prev_sib = None;
        } else {
            let mut cur_idx = idx;
            let mut moved = false;
            while stack.len() > 0
                invariant
                    arena_wf(arena@),
                    forall|j: int| 0 <= j < stack@.len() ==> #[trigger] stack@[j] < arena@.len(),
                    cur_idx < arena@.len(),
                    prev_sib is Some ==> prev_sib.unwrap() < arena@.len(),
                ensures
                    arena_wf(arena@),
                    forall|j: int| 0 <= j < stack@.len() ==> #[trigger] stack@[j] < arena@.len(),
                    prev_sib is Some ==> prev_sib.unwrap() < arena@.len(),
                decreases stack@.len() + 1,
            {
                if cursor_goto_next_sibling(cursor) {
                    prev_sib = Some(cur_idx);
                    moved = true;
                    break;
                }
                if !cursor_goto_parent(cursor) {
                    return arena;
                }
                match stack.pop() {
                    Some(p) => {
                        cur_idx = p;
                    },
                    None => {
                        return arena;
                    },
                }
            }
            if !moved {
                // back at the root with no siblings left
                if cursor_goto_next_sibling(cursor) {
                    prev_sib = Some(cur_idx);
                } else {
                    return arena;
                }
            }
        }
    }
    arena
}

/// Derives the ordered block sequence of an arena: exactly one block per
/// classified node, in preorder, each carrying its span and nesting depth.
pub fn blocks_for_arena(arena: &Vec<ArenaNode>, config: &LanguageConfig) -> (r: Vec<Block>)
    requires
        arena_wf(arena@),
    ensures
        r@ == blocks_spec(arena@, *config, arena@.len() as int),
{
    let n = arena.len();
    let mut depths: Vec<usize> = Vec::new();
    let mut out: Vec<Block> = Vec::new();
    let mut i: usize = 0;
    while i < n
        invariant
            i <= n,
            n == arena@.len(),
            arena_wf(arena@),
            depths@.len() == i,
            forall|j: int|
                0 <= j < i ==> #[trigger] depths@[j] == depth_of(arena@, *config, j) && depths@[j]
                    <= j,
            out@ == blocks_spec(arena@, *config, i as int),
        decreases n - i,
    {
        let node = &arena[i];
        let cat = config.categorize_node(
            node.info.kind.as_str(),
            match node.parent {
                Some(p) => Some(arena[p].info.kind.as_str()),
                None => None,
            },
            match node.prev_sibling {
                Some(p) => Some(arena[p].info.kind.as_str()),
                None => None,
            },
            node.info.start_row == node.info.end_row,
        );
        proof {
            assert(cat == node_category(arena@, *config, i as int));
        }
        let depth: usize = match node.parent {
            Some(p) => {
                let pcat = config.categorize_node(
                    arena[p].info.kind.as_str(),
                    match arena[p].parent {
                        Some(q) => Some(arena[q].info.kind.as_str()),
                        None => None,
                    },
                    match arena[p].prev_sibling {
                        Some(q) => Some(arena[q].info.kind.as_str()),
                        None => None,
                    },
                    arena[p].info.start_row == arena[p].info.end_row,
                );
                let open_one = match pcat {
                    Some(c) => !matches!(c, BlockType::Divider),
                    None => false,
                };
                proof {
                    assert(pcat == node_category(arena@, *config, p as int));
                }
                if open_one {
                    depths[p] + 1
                } else {
                    depths[p]
                }
            },
            None => 0,
        };
        depths.push(depth);
        match cat {
            Some(c) => {
                out.push(
                    Block {
                        kind: c,
                        start_byte: node.info.start_byte,
                        end_byte: node.info.end_byte,
                        start_row: node.info.start_row,
                        start_col: node.info.start_col,
                        end_row: node.info.end_row,
                        end_col: node.info.end_col,
                        depth,
                    },
                );
                proof {
                    assert(out@ =~= blocks_spec(arena@, *config, i + 1));
                }
            },
            None => {
                proof {
                    assert(out@ =~= blocks_spec(arena@, *config, i + 1));
                }
            },
        }
        i = i + 1;
    }
    out
}

/// Walks the current tree and derives its blocks: the arena copy followed
/// by the verified decomposition, visiting at most `max_nodes` nodes.
pub fn blocks_for_tree(
    cursor: &mut tree_sitter::TreeCursor<'_>,
    config: &LanguageConfig,
    max_nodes: usize,
) -> (r: Vec<Block>)
    ensures
        exists|ar: Seq<ArenaNode>|
            arena_wf(ar) && r@ == #[trigger] blocks_spec(ar, *config, ar.len() as int),
{
    let arena = tree_to_arena(cursor, max_nodes);
    let r = blocks_for_arena(&arena, config);
    proof {
        assert(arena_wf(arena@) && r@ == blocks_spec(arena@, *config, arena@.len() as int));
    }
    r
}

/// How many of the given blocks start on line `line`.
pub open spec fn blocks_starting_at(blocks: Seq<Block>, line: int) -> nat
    decreases blocks.len(),
{
    if blocks.len() == 0 {
        0
    } else {
        blocks_starting_at(blocks.drop_last(), line) + if blocks.last().start_row == line {
            1nat
        } else {
            0nat
        }
    }
}

/// The per-line padding table: for every source line, the number of block
/// regions opening there. Layout scales these counts into extra vertical
/// spacing; they carry no semantic weight.
pub fn make_padding(blocks: &Vec<Block>, line_count: usize) -> (p: Vec<u32>)
    ensures
        p@.len() == line_count,
        forall|l: int|
            0 <= l < line_count ==> #[trigger] p@[l] == spec_padding_at(blocks@, l),
{
    let n = blocks.len();
    let mut p: Vec<u32> = Vec::new();
    let mut l: usize = 0;
    while l < line_count
        invariant
            l <= line_count,
            n == blocks@.len(),
            p@.len() == l,
            forall|k: int| 0 <= k < l ==> #[trigger] p@[k] == spec_padding_at(blocks@, k),
        decreases line_count - l,
    {
        let mut c: u32 = 0;
        let mut i: usize = 0;
        proof {
            assert(blocks@.take(0) =~= Seq::<Block>::empty());
        }
        while i < n
            invariant
                i <= n,
                n == blocks@.len(),
                c == capped_count(blocks_starting_at(blocks@.take(i as int), l as int)),
            decreases n - i,
        {
            proof {
                assert(blocks@.take(i + 1).drop_last() =~= blocks@.take(i as int));
                assert(blocks@.take(i + 1).last() == blocks@[i as int]);
            }
            if blocks[i].start_row == l && c < u32::MAX {
                c = c + 1;
            } else {
                proof {
                    if blocks@[i as int].start_row == l {
                        assert(c == u32::MAX);
                    }
                }
            }
            i = i + 1;
        }
        proof {
            assert(blocks@.take(n as int) =~= blocks@);
        }
        p.push(c);
        l = l + 1;
    }
    p
}

/// The count of blocks opening on a line, capped at what a `u32` holds.
pub open spec fn capped_count(n: nat) -> u32 {
    if n > u32::MAX {
        u32::MAX as u32
    } else {
        n as u32
    }
}

/// The padding entry of one line.
pub open spec fn spec_padding_at(blocks: Seq<Block>, line: int) -> u32 {
    capped_count(blocks_starting_at(blocks, line))
}

} // verus!
