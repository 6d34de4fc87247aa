//! The syntax-tree model and the unsafe-region visitor.
//!
//! A `Node` carries the explicit safety marking of the construct it stands
//! for, its source extent (a half-open byte range into the unit's combined
//! source map), and its children in source order. The visitor walks the
//! tree once, depth-first and left-to-right, and emits the extent of every
//! node that is itself explicitly marked unsafe. Macro invocations are
//! opaque: they are never descended into and never classified.
use vstd::prelude::*;

verus! {

/// The explicit safety marking a construct carries in the source.
#[derive(Clone, Copy, PartialEq, Eq, Structural, Debug)]
pub enum Unsafety {
    Normal,
    Unsafe,
}

/// A half-open byte range `[lo, hi)` within the unit's combined source map.
#[derive(Clone, Copy, PartialEq, Eq, Structural, Debug)]
pub struct SourceExtent {
    pub lo: usize,
    pub hi: usize,
}

/// The kind of a syntax node, as far as this metric cares: the constructs
/// that can carry an explicit `unsafe` marking, macro invocations (which
/// are opaque to the analysis), and everything else.
#[derive(Clone, Copy, PartialEq, Eq, Structural, Debug)]
pub enum NodeKind {
    /// A function-like declaration with its safety marking.
    Fn(Unsafety),
    /// A trait declaration with its safety marking.
    Trait(Unsafety),
    /// A default (blanket) implementation with its safety marking.
    DefaultImpl(Unsafety),
    /// A concrete implementation block with its safety marking.
    Impl(Unsafety),
    /// A block of statements with its check mode.
    Block(Unsafety),
    /// A macro invocation: never descended into, never classified.
    MacCall,
    /// Any other node: traversed, never classified.
    Other,
}

/// One node of the parsed syntax tree: its kind, its source extent, and
/// its children in the order they appear in the source.
pub struct Node {
    pub kind: NodeKind,
    pub extent: SourceExtent,
    pub children: Vec<Node>,
}

/// The classification rule: a node qualifies as an unsafe region exactly
/// when it is a function, trait, default impl, impl or block explicitly
/// marked unsafe. Only the node's own marking matters.
pub open spec fn is_unsafe_region(kind: NodeKind) -> bool {
    match kind {
        NodeKind::Fn(u) => u is Unsafe,
        NodeKind::Trait(u) => u is Unsafe,
        NodeKind::DefaultImpl(u) => u is Unsafe,
        NodeKind::Impl(u) => u is Unsafe,
        NodeKind::Block(u) => u is Unsafe,
        NodeKind::MacCall => false,
        NodeKind::Other => false,
    }
}

/// The extents the visitor emits for a subtree: pre-order and depth-first,
/// the node's own extent first if it qualifies, then its children's
/// contributions left to right. A macro invocation contributes nothing and
/// its children are not visited.
pub open spec fn unsafe_extents(n: Node) -> Seq<SourceExtent>
    decreases n,
{
    if n.kind is MacCall {
        seq![]
    } else if is_unsafe_region(n.kind) {
        seq![n.extent] + unsafe_extents_of_seq(n.children@)
    } else {
        unsafe_extents_of_seq(n.children@)
    }
}

/// The concatenation, in order, of what each node of `s` contributes.
pub open spec fn unsafe_extents_of_seq(s: Seq<Node>) -> Seq<SourceExtent>
    decreases s,
{
    if s.len() == 0 {
        seq![]
    } else {
        unsafe_extents(s[0]) + unsafe_extents_of_seq(s.subrange(1, s.len() as int))
    }
}

/// Extending a child list by one node appends exactly that node's
/// contribution to the sequence's contribution.
proof fn lemma_unsafe_extents_of_seq_push(s: Seq<Node>, x: Node)
    ensures
        unsafe_extents_of_seq(s.push(x)) == unsafe_extents_of_seq(s) + unsafe_extents(x),
    decreases s,
{
    if s.len() == 0 {
        reveal_with_fuel(unsafe_extents_of_seq, 2);
        assert(s.push(x).subrange(1, s.push(x).len() as int) =~= Seq::<Node>::empty());
        assert(unsafe_extents_of_seq(s.push(x)) =~= unsafe_extents_of_seq(s) + unsafe_extents(x));
    } else {
        let rest = s.subrange(1, s.len() as int);
        lemma_unsafe_extents_of_seq_push(rest, x);
        assert(s.push(x).subrange(1, s.push(x).len() as int) =~= rest.push(x));
        assert(s.push(x)[0] == s[0]);
        assert(unsafe_extents_of_seq(s.push(x)) =~= unsafe_extents_of_seq(s) + unsafe_extents(x));
    }
}

/// The executable classification rule.
pub fn classify(kind: NodeKind) -> (r: bool)
    ensures
        r == is_unsafe_region(kind),
{
    match kind {
        NodeKind::Fn(u) => matches!(u, Unsafety::Unsafe),
        NodeKind::Trait(u) => matches!(u, Unsafety::Unsafe),
        NodeKind::DefaultImpl(u) => matches!(u, Unsafety::Unsafe),
        NodeKind::Impl(u) => matches!(u, Unsafety::Unsafe),
        NodeKind::Block(u) => matches!(u, Unsafety::Unsafe),
        NodeKind::MacCall => false,
        NodeKind::Other => false,
    }
}

/// One step of the walk: appends to `out` the extents of every unsafe
/// region in the subtree rooted at `n`, in pre-order.
pub fn collect_unsafe_extents(n: &Node, out: &mut Vec<SourceExtent>)
    ensures
        final(out)@ == old(out)@ + unsafe_extents(*n),
    decreases *n,
{
    if matches!(n.kind, NodeKind::MacCall) {
        assert(out@ =~= old(out)@ + unsafe_extents(*n));
        return ;
    }
    let ghost own: Seq<SourceExtent> = if is_unsafe_region(n.kind) {
        seq![n.extent]
    } else {
        seq![]
    };
    if classify(n.kind) {
        out.push(n.extent);
    }
    let mut i: usize = 0;
    while i < n.children.len()
        invariant
            i <= n.children.len(),
            out@ == old(out)@ + own + unsafe_extents_of_seq(n.children@.subrange(0, i as int)),
        decreases n.children.len() - i,
    {
        proof {
            assert(n.children@.subrange(0, i + 1) =~= n.children@.subrange(0, i as int).push(
                n.children@[i as int],
            ));
            lemma_unsafe_extents_of_seq_push(n.children@.subrange(0, i as int), n.children@[i as int]);
        }
        collect_unsafe_extents(&n.children[i], out);
        i = i + 1;
    }
    proof {
        assert(n.children@.subrange(0, n.children@.len() as int) =~= n.children@);
        assert(out@ =~= old(out)@ + unsafe_extents(*n));
    }
}

/// The unsafe-region visitor: walks the tree once, depth-first and
/// left-to-right, and returns the extent of every node classified as an
/// unsafe region, in traversal order.
pub fn visit_unit(root: &Node) -> (r: Vec<SourceExtent>)
    ensures
        r@ == unsafe_extents(*root),
{
    let mut out: Vec<SourceExtent> = Vec::new();
    collect_unsafe_extents(root, &mut out);
    out
}

} // verus!
