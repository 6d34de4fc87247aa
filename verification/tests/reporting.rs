use unsafe_metrics::metrics::analyse_ast;
use unsafe_metrics::report::{format_report, report_line, total_unsafe};
use unsafe_metrics::resolve::{Resolver, SourceFile};
use unsafe_metrics::tree::{Node, NodeKind, SourceExtent, Unsafety};

fn node(kind: NodeKind, lo: usize, hi: usize, children: Vec<Node>) -> Node {
    Node {
        kind,
        extent: SourceExtent { lo, hi },
        children,
    }
}

fn unit_resolver(lines: usize) -> Resolver {
    Resolver {
        files: vec![SourceFile {
            name: "main.rs".to_string(),
            line_starts: (0..lines).map(|i| i * 10).collect(),
            end: lines * 10,
        }],
    }
}

#[test]
fn percentage_formula_example() {
    assert_eq!(format_report(12, Some(483)), "Unsafe lines: 12/483 (2.48%)");
}

#[test]
fn count_only_shape() {
    assert_eq!(format_report(7, None), "Unsafe lines: 7");
    assert_eq!(format_report(0, None), "Unsafe lines: 0");
}

#[test]
fn percentage_rounds_half_away_from_zero() {
    // 100 * 1 / 32 = 3.125: the half rounds away from zero, to 3.13
    assert_eq!(format_report(1, Some(32)), "Unsafe lines: 1/32 (3.13%)");
    // 100 * 1 / 3 = 33.333...: rounds down to 33.33
    assert_eq!(format_report(1, Some(3)), "Unsafe lines: 1/3 (33.33%)");
    // 100 * 2 / 3 = 66.666...: rounds up to 66.67
    assert_eq!(format_report(2, Some(3)), "Unsafe lines: 2/3 (66.67%)");
}

#[test]
fn percentage_can_exceed_one_hundred() {
    // overlapping regions double-count: the formula is applied as is
    assert_eq!(format_report(15, Some(10)), "Unsafe lines: 15/10 (150.00%)");
}

#[test]
fn scenario_no_unsafe_in_one_hundred_lines() {
    let root = node(
        NodeKind::Other,
        0,
        990,
        vec![node(NodeKind::Fn(Unsafety::Normal), 0, 500, vec![])],
    );
    let m = analyse_ast(&root, &unit_resolver(100));
    assert_eq!(report_line(&m, true), "Unsafe lines: 0/100 (0.00%)");
}

#[test]
fn scenario_one_single_line_block_in_ten_lines() {
    let block = node(NodeKind::Block(Unsafety::Unsafe), 21, 27, vec![]);
    let root = node(NodeKind::Other, 0, 90, vec![block]);
    let m = analyse_ast(&root, &unit_resolver(10));
    assert_eq!(total_unsafe(&m), 1);
    assert_eq!(report_line(&m, true), "Unsafe lines: 1/10 (10.00%)");
}

#[test]
fn scenario_unsafe_fn_spanning_lines_five_to_nine() {
    // starts on line 5, ends on line 9: a four-line difference
    let f = node(NodeKind::Fn(Unsafety::Unsafe), 42, 85, vec![]);
    let root = node(NodeKind::Other, 0, 490, vec![f]);
    let m = analyse_ast(&root, &unit_resolver(50));
    assert_eq!(total_unsafe(&m), 4);
    assert_eq!(report_line(&m, true), "Unsafe lines: 4/50 (8.00%)");
}

#[test]
fn nested_regions_sum_both_line_counts() {
    // unsafe fn over lines 1-4 (3 lines) with an unsafe block on line 2
    // inside it (1 line): the sum double-counts, 4 in all
    let block = node(NodeKind::Block(Unsafety::Unsafe), 12, 18, vec![]);
    let f = node(NodeKind::Fn(Unsafety::Unsafe), 0, 35, vec![block]);
    let root = node(NodeKind::Other, 0, 90, vec![f]);
    let m = analyse_ast(&root, &unit_resolver(10));
    assert_eq!(total_unsafe(&m), 4);
    assert_eq!(report_line(&m, true), "Unsafe lines: 4/10 (40.00%)");
}

#[test]
fn count_only_fallback_without_total() {
    let block = node(NodeKind::Block(Unsafety::Unsafe), 0, 5, vec![]);
    let root = node(NodeKind::Other, 0, 90, vec![block]);
    let m = analyse_ast(&root, &unit_resolver(10));
    assert_eq!(report_line(&m, false), "Unsafe lines: 1");
}

#[test]
fn large_counts_format_exactly() {
    assert_eq!(
        format_report(123456, Some(1000000)),
        "Unsafe lines: 123456/1000000 (12.35%)"
    );
}
