use vstd::prelude::*;

use crate::length::{Length, Sizing, Viewport};
use crate::numeric::MAX_SIZING;
use crate::style::{Color, Display};

verus! {

/// The declared style of an input node, as far as box-tree construction reads it.
#[derive(Debug, Clone, Copy, PartialEq, Eq, Structural)]
pub struct NodeStyle {
    /// The declared display type.
    pub display: Display,
    /// The declared font size, if any.
    pub font_size: Option<Length>,
    /// The declared text colour, if any.
    pub color: Option<Color>,
}

/// What a node draws.
#[derive(Debug, PartialEq, Eq)]
pub enum NodeKind {
    /// A container that draws nothing itself.
    Container,
    /// A run of text.
    Text(String),
    /// An image, by source.
    Image(String),
}

/// A node of the input document tree.
pub struct Node {
    /// What the node draws.
    pub kind: NodeKind,
    /// Its declared style.
    pub style: NodeStyle,
    /// Its children, for a node that can have them.
    pub children: Option<Vec<Node>>,
}

/// The resolved context of a box: its display type, computed font size (millionths of a
/// device pixel), the colour `currentColor` stands for, and the viewport.
#[derive(Debug, Clone, Copy, PartialEq, Eq, Structural)]
pub struct RenderContext {
    /// The computed display type.
    pub display: Display,
    /// The computed font size.
    pub font_size: i64,
    /// What `currentColor` resolves to.
    pub color: Color,
    /// The viewport of the render.
    pub viewport: Viewport,
}

/// A box of the box tree; anonymous wrapper boxes have no node.
pub struct NodeTree {
    /// The resolved context.
    pub context: RenderContext,
    /// The node the box was made from.
    pub node: Option<NodeKind>,
    /// The child boxes.
    pub children: Option<Vec<NodeTree>>,
}

impl RenderContext {
    /// The sizing the context resolves lengths with.
    pub open spec fn sizing(self) -> Sizing {
        Sizing { viewport: self.viewport, font_size: self.font_size }
    }

    /// The context can resolve lengths.
    pub open spec fn wf(self) -> bool {
        self.sizing().wf()
    }

    /// The root context of a render.
    pub fn new(viewport: Viewport) -> (r: Self)
        ensures
            r == (RenderContext {
                display: Display::Block,
                font_size: viewport.font_size,
                color: Color { r: 0, g: 0, b: 0, a: 255 },
                viewport,
            }),
    {
        RenderContext { display: Display::Block, font_size: viewport.font_size, color: Color::black(), viewport }
    }
}

/// `v` clamped into `[0, MAX_SIZING]`.
pub open spec fn clamp_font_size(v: int) -> i64 {
    if v < 0 {
        0
    } else if v > MAX_SIZING {
        MAX_SIZING
    } else {
        v as i64
    }
}

/// The computed font size of a node under `parent`: the declared size resolved against the
/// parent's (kept within `[0, MAX_SIZING]`), or the parent's when none is declared.
pub open spec fn resolved_font_size(parent: RenderContext, declared: Option<Length>) -> i64 {
    match declared {
        Some(l) => if l.wf() {
            clamp_font_size(l.px_value(parent.sizing(), parent.font_size as int))
        } else {
            parent.font_size
        },
        None => parent.font_size,
    }
}

/// The context of a node with style `style` under `parent`.
pub open spec fn context_for(parent: RenderContext, style: NodeStyle) -> RenderContext {
    RenderContext {
        display: style.display,
        font_size: resolved_font_size(parent, style.font_size),
        color: match style.color {
            Some(c) => c,
            None => parent.color,
        },
        viewport: parent.viewport,
    }
}

/// The context of an anonymous block box inside a container with context `ctx`.
pub open spec fn anonymous_context(ctx: RenderContext) -> RenderContext {
    RenderContext { display: Display::Block, ..ctx }
}

/// Whether a box is inline-level.
pub open spec fn is_inline_box(t: NodeTree) -> bool {
    t.context.display == Display::Inline
}

/// Whether some box of `s` is inline-level.
pub open spec fn has_inline(s: Seq<NodeTree>) -> bool {
    exists|i: int| 0 <= i < s.len() && is_inline_box(#[trigger] s[i])
}

/// Whether some box of `s` is not inline-level.
pub open spec fn has_block(s: Seq<NodeTree>) -> bool {
    exists|i: int| 0 <= i < s.len() && !is_inline_box(#[trigger] s[i])
}

/// The boxes that `t` contributes in document order: an anonymous box its children, any
/// other box itself.
pub open spec fn contributed(t: NodeTree) -> Seq<NodeTree> {
    if t.node is None && t.children is Some {
        t.children.unwrap()@
    } else {
        seq![t]
    }
}

/// The boxes of `s` with every anonymous box replaced by its children.
pub open spec fn flatten(s: Seq<NodeTree>) -> Seq<NodeTree>
    decreases s.len(),
{
    if s.len() == 0 {
        Seq::empty()
    } else {
        flatten(s.drop_last()) + contributed(s.last())
    }
}

/// Whether `t` is an anonymous block box of a container with context `ctx`, holding a
/// non-empty run of inline-level boxes.
pub open spec fn is_inline_wrapper(ctx: RenderContext, t: NodeTree) -> bool {
    &&& t.node is None
    &&& t.context == anonymous_context(ctx)
    &&& t.children is Some
    &&& t.children.unwrap()@.len() > 0
    &&& forall|j: int|
        0 <= j < t.children.unwrap()@.len() ==> is_inline_box(#[trigger] t.children.unwrap()@[j])
}

/// Whether `out` is `kids` with every maximal run of inline-level boxes wrapped in one
/// anonymous block box, order kept.
pub open spec fn wrapped_in_runs(ctx: RenderContext, kids: Seq<NodeTree>, out: Seq<NodeTree>) -> bool {
    &&& flatten(out) == kids
    &&& forall|i: int|
        0 <= i < out.len() ==> (if (#[trigger] out[i]).node is None {
            is_inline_wrapper(ctx, out[i])
        } else {
            !is_inline_box(out[i])
        })
    &&& forall|i: int| 0 < i < out.len() ==> !((#[trigger] out[i - 1]).node is None && out[i].node is None)
}

/// `t` with its display type blockified.
pub open spec fn blockified_box(t: NodeTree) -> NodeTree {
    NodeTree {
        context: RenderContext { display: t.context.display.blockified(), ..t.context },
        node: t.node,
        children: t.children,
    }
}

/// Whether `out` are the child boxes of a container with context `ctx` whose children built
/// into `kids`: all blockified under flex and grid; wrapped in runs where a block container
/// mixes inline-level and block-level children; otherwise kept as they are.
pub open spec fn arranged(ctx: RenderContext, kids: Seq<NodeTree>, out: Seq<NodeTree>) -> bool {
    if ctx.display.blockifies_children() {
        &&& out.len() == kids.len()
        &&& forall|i: int| 0 <= i < kids.len() ==> #[trigger] out[i] == blockified_box(kids[i])
    } else if ctx.display == Display::Block && has_inline(kids) && has_block(kids) {
        wrapped_in_runs(ctx, kids, out)
    } else {
        out == kids
    }
}

/// `t` with display type `d`.
pub open spec fn with_display(t: NodeTree, d: Display) -> NodeTree {
    NodeTree { context: RenderContext { display: d, ..t.context }, node: t.node, children: t.children }
}

/// The child boxes, as built before arranging, that a container with context `ctx` and
/// children `cs` must have had to end up with the boxes `out`.
pub open spec fn kids_before_arranging(ctx: RenderContext, cs: Seq<Node>, out: Seq<NodeTree>) -> Seq<NodeTree> {
    if ctx.display.blockifies_children() {
        Seq::new(out.len(), |i: int| with_display(out[i], context_for(ctx, cs[i].style).display))
    } else {
        flatten(out)
    }
}

/// `node` with its declared style replaced by `style`.
pub open spec fn with_style(node: Node, style: NodeStyle) -> Node {
    Node { kind: node.kind, style, children: node.children }
}

/// The style the document root is built with: its declared one, blockified.
pub open spec fn root_style(style: NodeStyle) -> NodeStyle {
    NodeStyle { display: style.display.blockified(), ..style }
}

/// Whether `t` is the box tree built from `node` under the context `parent`.
pub open spec fn built_from(parent: RenderContext, node: Node, t: NodeTree) -> bool
    decreases node, 1int,
    via built_from_decreases
{
    let ctx = context_for(parent, node.style);
    &&& t.node == Some(node.kind)
    &&& t.context == ctx
    &&& match node.children {
        None => t.children is None,
        Some(cs) => t.children is Some && {
            let kids = kids_before_arranging(ctx, cs@, t.children.unwrap()@);
            &&& kids.len() == cs@.len()
            &&& all_built_from(ctx, cs@, kids)
            &&& arranged(ctx, kids, t.children.unwrap()@)
        },
    }
}

/// Whether each box of `kids` is the box tree built from the node of `cs` at its index.
pub open spec fn all_built_from(ctx: RenderContext, cs: Seq<Node>, kids: Seq<NodeTree>) -> bool
    decreases cs, 0int,
{
    if cs.len() == 0 || kids.len() != cs.len() {
        kids.len() == cs.len()
    } else {
        &&& all_built_from(ctx, cs.drop_last(), kids.drop_last())
        &&& built_from(ctx, cs.last(), kids.last())
    }
}

#[via_fn]
proof fn built_from_decreases(parent: RenderContext, node: Node, t: NodeTree) {
    if let Some(cs) = node.children {
        assert(decreases_to!(node => node.children));
        assert(decreases_to!(node.children => node.children->0));
        assert(decreases_to!(cs => cs@));
    }
}

} // verus!

verus! {

/// A copy of a node kind.
fn copy_kind(k: &NodeKind) -> (r: NodeKind)
    ensures
        r == *k,
{
    match k {
        NodeKind::Container => NodeKind::Container,
        NodeKind::Text(t) => NodeKind::Text(t.clone()),
        NodeKind::Image(src) => NodeKind::Image(src.clone()),
    }
}

/// Computes `context_for`.
fn context_for_exec(parent: &RenderContext, style: &NodeStyle) -> (r: RenderContext)
    requires
        parent.wf(),
    ensures
        r == context_for(*parent, *style),
        r.wf(),
{
    let font_size = match style.font_size {
        Some(l) => {
            if l.is_wf() {
                let sizing = Sizing { viewport: parent.viewport, font_size: parent.font_size };
                let v = l.to_px(&sizing, parent.font_size);
                if v < 0 {
                    0
                } else if v > MAX_SIZING {
                    MAX_SIZING
                } else {
                    v
                }
            } else {
                parent.font_size
            }
        },
        None => parent.font_size,
    };
    let color = match style.color {
        Some(c) => c,
        None => parent.color,
    };
    RenderContext { display: style.display, font_size, color, viewport: parent.viewport }
}

impl NodeTree {
    /// Whether the box is inline-level.
    pub fn is_inline(&self) -> (r: bool)
        ensures
            r == is_inline_box(*self),
    {
        self.context.display == Display::Inline
    }

    /// Whether the box lays out its content as an inline flow: a block box with at least one
    /// inline-level child.
    pub fn should_construct_inline_layout(&self) -> (r: bool)
        ensures
            r == (self.context.display == Display::Block && self.children is Some && has_inline(
                self.children.unwrap()@,
            )),
    {
        if self.context.display != Display::Block {
            return false;
        }
        match &self.children {
            None => false,
            Some(children) => {
                let mut i: usize = 0;
                while i < children.len()
                    invariant
                        i <= children@.len(),
                        self.context.display == Display::Block,
                        self.children == Some(*children),
                        forall|j: int| 0 <= j < i ==> !is_inline_box(#[trigger] children@[j]),
                    decreases children@.len() - i,
                {
                    if children[i].is_inline() {
                        proof {
                            assert(is_inline_box(children@[i as int]));
                        }
                        return true;
                    }
                    i = i + 1;
                }
                false
            },
        }
    }
}

/// Every box of `kids` is built from the node of `cs` at its index.
proof fn lemma_all_built_index(ctx: RenderContext, cs: Seq<Node>, kids: Seq<NodeTree>)
    requires
        all_built_from(ctx, cs, kids),
    ensures
        kids.len() == cs.len(),
        forall|i: int| 0 <= i < cs.len() ==> #[trigger] built_from(ctx, cs[i], kids[i]),
    decreases cs.len(),
{
    if cs.len() > 0 {
        lemma_all_built_index(ctx, cs.drop_last(), kids.drop_last());
        assert forall|i: int| 0 <= i < cs.len() implies #[trigger] built_from(ctx, cs[i], kids[i]) by {
            if i < cs.len() - 1 {
                assert(cs.drop_last()[i] == cs[i]);
                assert(kids.drop_last()[i] == kids[i]);
            }
        }
    }
}

/// A sequence without anonymous boxes flattens to itself.
proof fn lemma_flatten_plain(s: Seq<NodeTree>)
    requires
        forall|i: int| 0 <= i < s.len() ==> (#[trigger] s[i]).node is Some,
    ensures
        flatten(s) == s,
    decreases s.len(),
{
    if s.len() > 0 {
        lemma_flatten_plain(s.drop_last());
        assert(contributed(s.last()) =~= seq![s.last()]);
        assert(s.drop_last() + seq![s.last()] =~= s);
    }
}

/// Flattening distributes over appending one box.
proof fn lemma_flatten_push(s: Seq<NodeTree>, t: NodeTree)
    ensures
        flatten(s.push(t)) == flatten(s) + contributed(t),
{
    assert(s.push(t).drop_last() =~= s);
}

/// Wraps every maximal run of inline-level boxes of `kids` in an anonymous block box.
pub fn wrap_inline_runs(ctx: &RenderContext, kids: Vec<NodeTree>) -> (out: Vec<NodeTree>)
    requires
        forall|i: int| 0 <= i < kids@.len() ==> (#[trigger] kids@[i]).node is Some,
    ensures
        wrapped_in_runs(*ctx, kids@, out@),
{
    let ghost input = kids@;
    let mut rest = kids;
    let mut done: Vec<NodeTree> = Vec::new();
    let mut group: Vec<NodeTree> = Vec::new();
    proof {
        assert(flatten(done@) =~= Seq::<NodeTree>::empty());
        assert(flatten(done@) + group@ + rest@ =~= input);
    }
    while rest.len() > 0
        invariant
            flatten(done@) + group@ + rest@ == input,
            forall|i: int| 0 <= i < rest@.len() ==> (#[trigger] rest@[i]).node is Some,
            forall|i: int| 0 <= i < group@.len() ==> is_inline_box(#[trigger] group@[i]) && group@[i].node is Some,
            forall|i: int|
                0 <= i < done@.len() ==> (if (#[trigger] done@[i]).node is None {
                    is_inline_wrapper(*ctx, done@[i])
                } else {
                    !is_inline_box(done@[i])
                }),
            forall|i: int| 0 < i < done@.len() ==> !((#[trigger] done@[i - 1]).node is None && done@[i].node is None),
            done@.len() > 0 ==> done@.last().node is Some,
        decreases rest@.len(),
    {
        let ghost before_rest = rest@;
        let item = rest.remove(0);
        proof {
            assert(before_rest =~= seq![item] + rest@);
            assert(item.node is Some) by {
                assert(before_rest[0] == item);
            }
        }
        if !item.is_inline() {
            if group.len() > 0 {
                let ghost g = group@;
                let run = group;
                group = Vec::new();
                let anon = NodeTree {
                    context: RenderContext { display: Display::Block, ..*ctx },
                    node: None,
                    children: Some(run),
                };
                proof {
                    lemma_flatten_push(done@, anon);
                    assert(contributed(anon) == g);
                }
                done.push(anon);
            }
            proof {
                lemma_flatten_push(done@, item);
                assert(contributed(item) =~= seq![item]);
            }
            done.push(item);
            proof {
                assert(flatten(done@) + group@ + rest@ =~= input);
            }
        } else {
            group.push(item);
            proof {
                assert(flatten(done@) + group@ + rest@ =~= input);
            }
        }
    }
    if group.len() > 0 {
        let ghost g = group@;
        let anon = NodeTree {
            context: RenderContext { display: Display::Block, ..*ctx },
            node: None,
            children: Some(group),
        };
        proof {
            lemma_flatten_push(done@, anon);
            assert(contributed(anon) == g);
        }
        done.push(anon);
        proof {
            assert(flatten(done@) =~= input);
        }
    } else {
        proof {
            assert(flatten(done@) =~= input);
        }
    }
    done
}

} // verus!

verus! {

/// Blockifies the display type of every box of `kids`.
fn blockify_all(kids: Vec<NodeTree>) -> (out: Vec<NodeTree>)
    ensures
        out@.len() == kids@.len(),
        forall|i: int| 0 <= i < kids@.len() ==> #[trigger] out@[i] == blockified_box(kids@[i]),
{
    let ghost input = kids@;
    let mut rest = kids;
    let mut out: Vec<NodeTree> = Vec::new();
    while rest.len() > 0
        invariant
            out@.len() + rest@.len() == input.len(),
            forall|i: int| 0 <= i < out@.len() ==> #[trigger] out@[i] == blockified_box(input[i]),
            forall|i: int| 0 <= i < rest@.len() ==> #[trigger] rest@[i] == input[out@.len() + i],
        decreases rest@.len(),
    {
        let ghost before = rest@;
        let mut item = rest.remove(0);
        proof {
            assert(item == before[0]);
            assert forall|i: int| 0 <= i < rest@.len() implies #[trigger] rest@[i] == input[out@.len() + 1 + i] by {
                assert(rest@[i] == before[i + 1]);
            }
        }
        item.context.display.to_block();
        out.push(item);
    }
    out
}

/// Arranges the built children of a container with context `ctx`.
fn arrange_children(ctx: &RenderContext, kids: Vec<NodeTree>) -> (out: Vec<NodeTree>)
    requires
        forall|i: int| 0 <= i < kids@.len() ==> (#[trigger] kids@[i]).node is Some,
    ensures
        arranged(*ctx, kids@, out@),
{
    if ctx.display.should_blockify_children() {
        return blockify_all(kids);
    }
    let mut has_inline_child = false;
    let mut has_block_child = false;
    let mut i: usize = 0;
    while i < kids.len()
        invariant
            i <= kids@.len(),
            has_inline_child == exists|j: int| 0 <= j < i && is_inline_box(#[trigger] kids@[j]),
            has_block_child == exists|j: int| 0 <= j < i && !is_inline_box(#[trigger] kids@[j]),
        decreases kids@.len() - i,
    {
        if kids[i].is_inline() {
            has_inline_child = true;
        } else {
            has_block_child = true;
        }
        i = i + 1;
    }
    if ctx.display == Display::Block && has_inline_child && has_block_child {
        wrap_inline_runs(ctx, kids)
    } else {
        kids
    }
}

impl NodeTree {
    /// Builds the box tree of `node` under `parent`: resolves each node's context top-down,
    /// then arranges the children of every container.
    fn from_node_impl(parent: &RenderContext, node: &Node, style: NodeStyle) -> (r: NodeTree)
        requires
            parent.wf(),
        ensures
            built_from(*parent, with_style(*node, style), r),
        decreases node,
    {
        let ctx = context_for_exec(parent, &style);
        match &node.children {
            None => NodeTree { context: ctx, node: Some(copy_kind(&node.kind)), children: None },
            Some(cs) => {
                let mut kids: Vec<NodeTree> = Vec::new();
                let mut i: usize = 0;
                while i < cs.len()
                    invariant
                        i <= cs@.len(),
                        kids@.len() == i,
                        ctx.wf(),
                        ctx == context_for(*parent, style),
                        node.children == Some(*cs),
                        all_built_from(ctx, cs@.take(i as int), kids@),
                    decreases cs@.len() - i,
                {
                    proof {
                        assert(decreases_to!(*node => node.children));
                        assert(decreases_to!(node.children => node.children->0));
                        assert(decreases_to!(*cs => cs@));
                        assert(decreases_to!(cs@ => cs@[i as int]));
                        assert(decreases_to!(*node => cs@[i as int]));
                    }
                    let kid = NodeTree::from_node_impl(&ctx, &cs[i], cs[i].style);
                    proof {
                        assert(with_style(cs@[i as int], cs@[i as int].style) == cs@[i as int]);
                    }
                    let ghost before = kids@;
                    kids.push(kid);
                    proof {
                        assert(cs@.take(i + 1).drop_last() =~= cs@.take(i as int));
                        assert(kids@.drop_last() =~= before);
                        assert(cs@.take(i + 1).last() == cs@[i as int]);
                    }
                    i = i + 1;
                }
                let ghost built = kids@;
                proof {
                    assert(cs@.take(cs@.len() as int) =~= cs@);
                    lemma_all_built_index(ctx, cs@, built);
                    assert forall|j: int| 0 <= j < kids@.len() implies (#[trigger] kids@[j]).node is Some by {
                        assert(built_from(ctx, cs@[j], kids@[j]));
                    }
                }
                let children = arrange_children(&ctx, kids);
                let r = NodeTree { context: ctx, node: Some(copy_kind(&node.kind)), children: Some(children) };
                proof {
                    assert(with_style(*node, style).children == Some(*cs));
                }
                proof {
                    let out = children@;
                    if ctx.display.blockifies_children() {
                        assert forall|j: int| 0 <= j < out.len() implies #[trigger] with_display(out[j], context_for(ctx, cs@[j].style).display) == built[j] by {
                            assert(built_from(ctx, cs@[j], built[j]));
                        }
                        assert(kids_before_arranging(ctx, cs@, out) =~= built);
                    } else if ctx.display == Display::Block && has_inline(built) && has_block(built) {
                    } else {
                        lemma_flatten_plain(built);
                    }
                    assert(kids_before_arranging(ctx, cs@, out) == built);
                }
                r
            },
        }
    }

    /// Builds the box tree of the document root `node`. The root is always blockified, and
    /// that before anything else: its children are arranged as those of a block container.
    pub fn from_node(parent: &RenderContext, node: &Node) -> (r: NodeTree)
        requires
            parent.wf(),
        ensures
            built_from(*parent, with_style(*node, root_style(node.style)), r),
            r.context.display != Display::Inline,
    {
        let style = NodeStyle { display: node.style.display.as_block(), ..node.style };
        NodeTree::from_node_impl(parent, node, style)
    }
}

} // verus!


verus! {

/// What a node of kind `k` contributes to an inline flow: text its text, an image an atomic
/// box, a container nothing of its own.
pub open spec fn inline_content_of(k: NodeKind) -> Option<crate::style::InlineContentKind> {
    match k {
        NodeKind::Text(t) => Some(crate::style::InlineContentKind::Text(t)),
        NodeKind::Image(_) => Some(crate::style::InlineContentKind::Box),
        NodeKind::Container => None,
    }
}

/// An item of an inline flow with the context of the box it comes from.
pub struct InlineEntry {
    /// The text or atomic box.
    pub item: crate::style::InlineContentKind,
    /// The context of its box.
    pub context: RenderContext,
}

/// The content that box `t` contributes itself, without its children.
pub open spec fn own_items(t: NodeTree) -> Seq<(crate::style::InlineContentKind, RenderContext)> {
    match t.node {
        Some(k) => match inline_content_of(k) {
            Some(c) => seq![(c, t.context)],
            None => Seq::empty(),
        },
        None => Seq::empty(),
    }
}

/// The inline items of `t` in document order: its own content, then its children's.
pub open spec fn items_of(t: NodeTree) -> Seq<(crate::style::InlineContentKind, RenderContext)>
    decreases t, 1int,
    via items_of_decreases
{
    own_items(t) + match t.children {
        Some(cs) => items_of_list(cs@),
        None => Seq::empty(),
    }
}

/// The inline items of the boxes `s`, one after another.
pub open spec fn items_of_list(s: Seq<NodeTree>) -> Seq<(crate::style::InlineContentKind, RenderContext)>
    decreases s, 0int,
{
    if s.len() == 0 {
        Seq::empty()
    } else {
        items_of(s[0]) + items_of_list(s.skip(1))
    }
}

#[via_fn]
proof fn items_of_decreases(t: NodeTree) {
    if let Some(cs) = t.children {
        assert(decreases_to!(t => t.children));
        assert(decreases_to!(t.children => t.children->0));
        assert(decreases_to!(cs => cs@));
    }
}

/// Whether every box below `t` is inline-level.
pub open spec fn inline_below(t: NodeTree) -> bool
    decreases t, 1int,
    via inline_below_decreases
{
    match t.children {
        Some(cs) => all_inline(cs@),
        None => true,
    }
}

/// Whether every box of `s`, and every box below them, is inline-level.
pub open spec fn all_inline(s: Seq<NodeTree>) -> bool
    decreases s, 0int,
{
    s.len() == 0 || (is_inline_box(s[0]) && inline_below(s[0]) && all_inline(s.skip(1)))
}

#[via_fn]
proof fn inline_below_decreases(t: NodeTree) {
    if let Some(cs) = t.children {
        assert(decreases_to!(t => t.children));
        assert(decreases_to!(t.children => t.children->0));
        assert(decreases_to!(cs => cs@));
    }
}

/// The items still to come from a stack of pending boxes, the top one first.
pub open spec fn pending_items(stack: Seq<&NodeTree>) -> Seq<(crate::style::InlineContentKind, RenderContext)>
    decreases stack.len(),
{
    if stack.len() == 0 {
        Seq::empty()
    } else {
        items_of(*stack.last()) + pending_items(stack.drop_last())
    }
}

/// Number of boxes in `t`.
pub open spec fn box_count(t: NodeTree) -> nat
    decreases t, 1int,
    via box_count_decreases
{
    1 + match t.children {
        Some(cs) => box_count_list(cs@),
        None => 0,
    }
}

/// Number of boxes in the trees `s`.
pub open spec fn box_count_list(s: Seq<NodeTree>) -> nat
    decreases s, 0int,
{
    if s.len() == 0 {
        0
    } else {
        box_count(s[0]) + box_count_list(s.skip(1))
    }
}

#[via_fn]
proof fn box_count_decreases(t: NodeTree) {
    if let Some(cs) = t.children {
        assert(decreases_to!(t => t.children));
        assert(decreases_to!(t.children => t.children->0));
        assert(decreases_to!(cs => cs@));
    }
}

/// Number of boxes in a stack of pending trees.
pub open spec fn pending_count(stack: Seq<&NodeTree>) -> nat
    decreases stack.len(),
{
    if stack.len() == 0 {
        0
    } else {
        box_count(*stack.last()) + pending_count(stack.drop_last())
    }
}

/// Pushing the boxes `cs[i..]` last one first puts their items in order ahead of the rest.
proof fn lemma_push_children(base: Seq<&NodeTree>, cs: Seq<NodeTree>, pushed: Seq<&NodeTree>, i: int)
    requires
        0 <= i <= cs.len(),
        pushed.len() == base.len() + (cs.len() - i),
        forall|j: int| 0 <= j < base.len() ==> pushed[j] == base[j],
        forall|j: int| base.len() <= j < pushed.len() ==> *pushed[j] == cs[cs.len() - 1 - (j - base.len())],
    ensures
        pending_items(pushed) == items_of_list(cs.skip(i)) + pending_items(base),
        pending_count(pushed) == box_count_list(cs.skip(i)) + pending_count(base),
    decreases cs.len() - i,
{
    if i == cs.len() {
        assert(pushed =~= base);
        assert(cs.skip(i) =~= Seq::<NodeTree>::empty());
    } else {
        let shorter = pushed.drop_last();
        lemma_push_children(base, cs, shorter, i + 1);
        assert(*pushed.last() == cs[i]);
        assert(cs.skip(i)[0] == cs[i]);
        assert(cs.skip(i).skip(1) =~= cs.skip(i + 1));
    }
}

impl NodeTree {
    /// The inline items of this block box and the inline boxes below it, in document order,
    /// found depth first with an explicit stack of pending boxes.
    pub fn inline_items(&self) -> (r: Vec<InlineEntry>)
        requires
            self.context.display == Display::Block,
            inline_below(*self),
        ensures
            r@.map_values(|e: InlineEntry| (e.item, e.context)) == items_of(*self),
    {
        let mut stack: Vec<&NodeTree> = Vec::new();
        stack.push(self);
        let mut out: Vec<InlineEntry> = Vec::new();
        proof {
            assert(stack@.drop_last() =~= Seq::<&NodeTree>::empty());
            assert(pending_items(stack@.drop_last()) =~= Seq::empty());
            assert(pending_items(stack@) =~= items_of(*self));
            assert(out@.map_values(|e: InlineEntry| (e.item, e.context)) =~= Seq::empty());
        }
        while stack.len() > 0
            invariant
                out@.map_values(|e: InlineEntry| (e.item, e.context)) + pending_items(stack@) == items_of(*self),
            decreases pending_count(stack@),
        {
            let ghost before = stack@;
            let node = stack.pop().unwrap();
            proof {
                assert(before.drop_last() =~= stack@);
            }
            let ghost base = stack@;
            let ghost out_before = out@.map_values(|e: InlineEntry| (e.item, e.context));
            match &node.node {
                Some(kind) => match kind {
                    NodeKind::Text(t) => {
                        out.push(InlineEntry { item: crate::style::InlineContentKind::Text(t.clone()), context: node.context });
                    },
                    NodeKind::Image(_) => {
                        out.push(InlineEntry { item: crate::style::InlineContentKind::Box, context: node.context });
                    },
                    NodeKind::Container => {},
                },
                None => {},
            }
            proof {
                assert(out@.map_values(|e: InlineEntry| (e.item, e.context)) =~= out_before + own_items(*node));
            }
            match &node.children {
                Some(children) => {
                    let mut i: usize = children.len();
                    proof {
                        lemma_push_children(base, children@, stack@, i as int);
                    }
                    while i > 0
                        invariant
                            i <= children@.len(),
                            stack@.len() == base.len() + (children@.len() - i),
                            forall|j: int| 0 <= j < base.len() ==> stack@[j] == base[j],
                            forall|j: int| base.len() <= j < stack@.len() ==> *stack@[j] == children@[children@.len() - 1 - (j - base.len())],
                        decreases i,
                    {
                        i = i - 1;
                        stack.push(&children[i]);
                    }
                    proof {
                        lemma_push_children(base, children@, stack@, 0);
                        assert(children@.skip(0) =~= children@);
                        assert(out@.map_values(|e: InlineEntry| (e.item, e.context)) + pending_items(stack@) =~= out_before + items_of(*node) + pending_items(base));
                    }
                },
                None => {
                    proof {
                        assert(out@.map_values(|e: InlineEntry| (e.item, e.context)) + pending_items(stack@) =~= out_before + items_of(*node) + pending_items(base));
                    }
                },
            }
        }
        out
    }
}

} // verus!

verus! {

/// Anonymous boxes appear only where inline-level and block-level children mix: when the
/// children of a container built into boxes that are all inline-level, or all block-level,
/// every child box of the result is one of them, with its node.
pub proof fn lemma_uniform_children_get_no_wrapper(parent: RenderContext, node: Node, t: NodeTree)
    requires
        built_from(parent, node, t),
        node.children is Some,
        ({
            let kids = kids_before_arranging(
                context_for(parent, node.style),
                node.children.unwrap()@,
                t.children.unwrap()@,
            );
            (forall|i: int| 0 <= i < kids.len() ==> is_inline_box(#[trigger] kids[i])) || (forall|i: int|
                0 <= i < kids.len() ==> !is_inline_box(#[trigger] kids[i]))
        }),
    ensures
        t.children is Some,
        t.children.unwrap()@.len() == node.children.unwrap()@.len(),
        forall|i: int| 0 <= i < t.children.unwrap()@.len() ==> (#[trigger] t.children.unwrap()@[i]).node is Some,
{
    let ctx = context_for(parent, node.style);
    let cs = node.children.unwrap()@;
    let out = t.children.unwrap()@;
    let kids = kids_before_arranging(ctx, cs, out);
    lemma_all_built_index(ctx, cs, kids);
    assert forall|i: int| 0 <= i < kids.len() implies (#[trigger] kids[i]).node is Some by {
        assert(built_from(ctx, cs[i], kids[i]));
    }
    if !ctx.display.blockifies_children() {
        assert(!(has_inline(kids) && has_block(kids)));
        assert(out == kids);
    }
}

} // verus!

verus! {

/// Whether `t` is inline-level with only inline-level boxes below it.
pub open spec fn inline_subtree(t: NodeTree) -> bool {
    is_inline_box(t) && inline_below(t)
}

/// `all_inline` says that each box of the sequence is an inline subtree.
proof fn lemma_all_inline_index(s: Seq<NodeTree>)
    ensures
        all_inline(s) <==> forall|i: int| 0 <= i < s.len() ==> #[trigger] inline_subtree(s[i]),
    decreases s.len(),
{
    if s.len() > 0 {
        let rest = s.skip(1);
        lemma_all_inline_index(rest);
        assert forall|i: int| 0 <= i < rest.len() implies #[trigger] rest[i] == s[i + 1] by {}
        if all_inline(s) {
            assert forall|i: int| 0 <= i < s.len() implies #[trigger] inline_subtree(s[i]) by {
                if i > 0 {
                    assert(rest[i - 1] == s[i]);
                }
            }
        }
        if forall|i: int| 0 <= i < s.len() ==> #[trigger] inline_subtree(s[i]) {
            assert(inline_subtree(s[0]));
            assert forall|i: int| 0 <= i < rest.len() implies #[trigger] inline_subtree(rest[i]) by {
                assert(inline_subtree(s[i + 1]));
            }
        }
    }
}

impl NodeTree {
    /// Whether every box below this one is inline-level, as `inline_items` asks.
    pub fn is_inline_below(&self) -> (r: bool)
        ensures
            r == inline_below(*self),
        decreases self,
    {
        match &self.children {
            None => true,
            Some(cs) => {
                let mut i: usize = 0;
                while i < cs.len()
                    invariant
                        i <= cs@.len(),
                        self.children == Some(*cs),
                        forall|j: int| 0 <= j < i ==> #[trigger] inline_subtree(cs@[j]),
                    decreases cs@.len() - i,
                {
                    proof {
                        assert(decreases_to!(*self => self.children));
                        assert(decreases_to!(self.children => self.children->0));
                        assert(decreases_to!(*cs => cs@));
                        assert(decreases_to!(cs@ => cs@[i as int]));
                        assert(decreases_to!(*self => cs@[i as int]));
                    }
                    if !cs[i].is_inline() || !cs[i].is_inline_below() {
                        proof {
                            lemma_all_inline_index(cs@);
                            assert(!inline_subtree(cs@[i as int]));
                        }
                        return false;
                    }
                    i = i + 1;
                }
                proof {
                    lemma_all_inline_index(cs@);
                }
                true
            },
        }
    }
}

} // verus!
