use unsafe_metrics::metrics::{analyse_ast, Metrics};
use unsafe_metrics::report::total_unsafe;
use unsafe_metrics::resolve::{Resolver, SourceFile};
use unsafe_metrics::tree::{Node, NodeKind, SourceExtent, Unsafety};

fn node(kind: NodeKind, lo: usize, hi: usize, children: Vec<Node>) -> Node {
    Node {
        kind,
        extent: SourceExtent { lo, hi },
        children,
    }
}

/// A unit of one file named `main.rs` with `lines` lines of ten bytes each.
fn unit_resolver(lines: usize) -> Resolver {
    Resolver {
        files: vec![SourceFile {
            name: "main.rs".to_string(),
            line_starts: (0..lines).map(|i| i * 10).collect(),
            end: lines * 10,
        }],
    }
}

fn analyse(root: &Node, lines: usize) -> Metrics {
    analyse_ast(root, &unit_resolver(lines))
}

#[test]
fn empty_unit_has_no_rows() {
    let root = node(NodeKind::Other, 0, 100, vec![]);
    let m = analyse(&root, 10);
    assert_eq!(m.spans.len(), 0);
    assert_eq!(m.total_lines, 10);
}

#[test]
fn safe_constructs_are_not_counted() {
    let root = node(
        NodeKind::Other,
        0,
        100,
        vec![
            node(NodeKind::Fn(Unsafety::Normal), 0, 25, vec![]),
            node(NodeKind::Trait(Unsafety::Normal), 30, 45, vec![]),
            node(NodeKind::Impl(Unsafety::Normal), 50, 95, vec![]),
        ],
    );
    let m = analyse(&root, 10);
    assert_eq!(m.spans.len(), 0);
}

#[test]
fn each_unsafe_kind_is_counted() {
    let root = node(
        NodeKind::Other,
        0,
        500,
        vec![
            node(NodeKind::Fn(Unsafety::Unsafe), 0, 15, vec![]),
            node(NodeKind::Trait(Unsafety::Unsafe), 20, 35, vec![]),
            node(NodeKind::DefaultImpl(Unsafety::Unsafe), 40, 55, vec![]),
            node(NodeKind::Impl(Unsafety::Unsafe), 60, 75, vec![]),
            node(NodeKind::Block(Unsafety::Unsafe), 80, 95, vec![]),
        ],
    );
    let m = analyse(&root, 50);
    assert_eq!(m.spans.len(), 5);
}

#[test]
fn determinism_same_tree_same_metrics() {
    let root = node(
        NodeKind::Other,
        0,
        300,
        vec![
            node(NodeKind::Fn(Unsafety::Unsafe), 0, 95, vec![]),
            node(NodeKind::Block(Unsafety::Unsafe), 100, 205, vec![]),
        ],
    );
    let resolver = unit_resolver(40);
    let m1 = analyse_ast(&root, &resolver);
    let m2 = analyse_ast(&root, &resolver);
    assert_eq!(m1, m2);
}

#[test]
fn floor_single_line_region_counts_one_line() {
    // starts and ends on line 1: still one line, never zero
    let root = node(NodeKind::Block(Unsafety::Unsafe), 2, 7, vec![]);
    let m = analyse(&root, 10);
    assert_eq!(m.spans.len(), 1);
    assert_eq!(m.spans[0].start.line, 1);
    assert_eq!(m.spans[0].end.line, 1);
    assert_eq!(m.spans[0].num_lines, 1);
}

#[test]
fn rows_follow_preorder_traversal() {
    // unsafe fn on line 1, inside it an unsafe block on line 2,
    // then a sibling unsafe impl on line 4
    let block = node(NodeKind::Block(Unsafety::Unsafe), 10, 15, vec![]);
    let f = node(NodeKind::Fn(Unsafety::Unsafe), 0, 25, vec![block]);
    let imp = node(NodeKind::Impl(Unsafety::Unsafe), 30, 45, vec![]);
    let root = node(NodeKind::Other, 0, 100, vec![f, imp]);
    let m = analyse(&root, 10);
    let start_offsets: Vec<usize> = m.spans.iter().map(|r| (r.start.line - 1) * 10 + r.start.col).collect();
    assert_eq!(start_offsets, vec![0, 10, 30]);
}

#[test]
fn macro_bodies_are_opaque() {
    // an unsafe block and an unsafe fn that stand only inside a macro
    // invocation produce no rows at all
    let hidden_block = node(NodeKind::Block(Unsafety::Unsafe), 10, 15, vec![]);
    let hidden_fn = node(NodeKind::Fn(Unsafety::Unsafe), 20, 45, vec![]);
    let mac = node(NodeKind::MacCall, 0, 50, vec![hidden_block, hidden_fn]);
    let root = node(NodeKind::Other, 0, 100, vec![mac]);
    let m = analyse(&root, 10);
    assert_eq!(m.spans.len(), 0);
    assert_eq!(total_unsafe(&m), 0);
}

#[test]
fn nested_unsafe_block_counts_independently() {
    // an unsafe block inside an unsafe function: two rows, parent first
    let block = node(NodeKind::Block(Unsafety::Unsafe), 12, 18, vec![]);
    let f = node(NodeKind::Fn(Unsafety::Unsafe), 0, 35, vec![block]);
    let root = node(NodeKind::Other, 0, 100, vec![f]);
    let m = analyse(&root, 10);
    assert_eq!(m.spans.len(), 2);
    assert_eq!(m.spans[0].start.line, 1);
    assert_eq!(m.spans[0].end.line, 4);
    assert_eq!(m.spans[1].start.line, 2);
    assert_eq!(m.spans[1].end.line, 2);
}

#[test]
fn resolver_finds_file_line_and_column() {
    let resolver = Resolver {
        files: vec![
            SourceFile {
                name: "lib.rs".to_string(),
                line_starts: vec![0, 12, 30],
                end: 41,
            },
            SourceFile {
                name: "util.rs".to_string(),
                line_starts: vec![50, 61],
                end: 80,
            },
        ],
    };
    let a = resolver.resolve(0);
    assert_eq!(a.filename, "lib.rs");
    assert_eq!(a.line, 1);
    assert_eq!(a.col, 0);
    let b = resolver.resolve(35);
    assert_eq!(b.filename, "lib.rs");
    assert_eq!(b.line, 3);
    assert_eq!(b.col, 5);
    let c = resolver.resolve(64);
    assert_eq!(c.filename, "util.rs");
    assert_eq!(c.line, 2);
    assert_eq!(c.col, 3);
    assert_eq!(resolver.total_line_count(), 5);
}

#[test]
fn repeated_lookups_are_identical() {
    let resolver = unit_resolver(10);
    assert_eq!(resolver.resolve(37), resolver.resolve(37));
}

#[test]
fn multi_line_region_counts_line_difference() {
    // spans lines 2 through 5: difference of 3
    let root = node(NodeKind::Impl(Unsafety::Unsafe), 10, 47, vec![]);
    let m = analyse(&root, 10);
    assert_eq!(m.spans[0].num_lines, 3);
}
