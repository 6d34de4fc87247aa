//! The properties the analysis is held to, stated and proved over the
//! models the public contracts speak of.
use vstd::prelude::*;

use crate::metrics::{extent_valid, lemma_lines_ordered, metrics_model, row_model, Metrics};
use crate::report::{pct_scaled, spec_total_unsafe};
use crate::resolve::Resolver;
use crate::tree::{unsafe_extents, Node, NodeKind, SourceExtent, Unsafety};

verus! {

/// Determinism: the analysis is a function of the tree and the resolver
/// alone, so any two metrics produced over the same tree and resolver are
/// identical.
pub proof fn lemma_analysis_deterministic(m1: Metrics, m2: Metrics, ast: Node, r: Resolver)
    requires
        m1@ == metrics_model(r, unsafe_extents(ast)),
        m2@ == metrics_model(r, unsafe_extents(ast)),
    ensures
        m1@ == m2@,
{
}

/// Floor invariant: every produced row is charged at least one line, even
/// when its extent starts and ends on the same line.
pub proof fn lemma_num_lines_floor(r: Resolver, es: Seq<SourceExtent>, k: int)
    requires
        r.wf(),
        forall|i: int| 0 <= i < es.len() ==> extent_valid(r, #[trigger] es[i]),
        0 <= k < es.len(),
    ensures
        metrics_model(r, es).spans[k].num_lines >= 1,
{
    lemma_lines_ordered(r, es[k]);
}

/// Order preservation: the rows stand in one-to-one correspondence, in
/// order, with the pre-order, depth-first sequence of unsafe regions of
/// the tree; the k-th row resolves the k-th region's extent.
pub proof fn lemma_order_preserved(r: Resolver, ast: Node, k: int)
    requires
        0 <= k < unsafe_extents(ast).len(),
    ensures
        metrics_model(r, unsafe_extents(ast)).spans.len() == unsafe_extents(ast).len(),
        metrics_model(r, unsafe_extents(ast)).spans[k] == row_model(r, unsafe_extents(ast)[k]),
{
}

/// Macro opacity: a macro invocation contributes no region and hides its
/// whole body, whatever stands beneath it, so it adds nothing to the
/// unsafe-line count.
pub proof fn lemma_macro_opaque(r: Resolver, n: Node)
    requires
        n.kind is MacCall,
    ensures
        unsafe_extents(n) == Seq::<SourceExtent>::empty(),
        spec_total_unsafe(metrics_model(r, unsafe_extents(n)).spans) == 0,
{
    assert(unsafe_extents(n) =~= Seq::<SourceExtent>::empty());
    assert(metrics_model(r, unsafe_extents(n)).spans =~= Seq::<crate::metrics::RowModel>::empty());
}

/// Independent nesting: an unsafe block standing alone inside an unsafe
/// function yields two entries, the function's then the block's — nesting
/// inside an already-unsafe region does not short-circuit.
pub proof fn lemma_independent_nesting(f: Node, b: Node)
    requires
        f.kind == NodeKind::Fn(Unsafety::Unsafe),
        f.children@ == seq![b],
        b.kind == NodeKind::Block(Unsafety::Unsafe),
        b.children@.len() == 0,
    ensures
        unsafe_extents(f) == seq![f.extent, b.extent],
{
    reveal_with_fuel(crate::tree::unsafe_extents_of_seq, 3);
    reveal_with_fuel(crate::tree::unsafe_extents, 2);
    assert(f.children@[0] == b);
    assert(f.children@.subrange(1, 1) =~= Seq::<Node>::empty());
    assert(b.children@ =~= Seq::<Node>::empty());
    assert(unsafe_extents(b) =~= seq![b.extent]);
    assert(crate::tree::unsafe_extents_of_seq(f.children@) =~= seq![b.extent]);
    assert(unsafe_extents(f) =~= seq![f.extent, b.extent]);
}

/// Percentage rounding: the scaled percentage is the integer number of
/// hundredths of a percent nearest to `100 * total_unsafe / total_lines`,
/// with a half rounded away from zero — `20000 * total_unsafe` lies within
/// `total_lines` of `2 * total_lines * pct`, inclusive on the lower side.
pub proof fn lemma_pct_rounds_half_away(total_unsafe: int, total_lines: int)
    requires
        total_lines >= 1,
        total_unsafe >= 0,
    ensures
        2 * total_lines * pct_scaled(total_unsafe, total_lines) - total_lines <= 20000
            * total_unsafe,
        20000 * total_unsafe < 2 * total_lines * pct_scaled(total_unsafe, total_lines)
            + total_lines,
{
    let x = 20000 * total_unsafe + total_lines;
    let d = 2 * total_lines;
    vstd::arithmetic::div_mod::lemma_fundamental_div_mod(x, d);
    vstd::arithmetic::div_mod::lemma_mod_division_less_than_divisor(x, d);
    assert(x == d * (x / d) + (x % d));
    assert(0 <= x % d < d);
}

} // verus!
