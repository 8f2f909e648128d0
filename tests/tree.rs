use takumi::length::{Length, Viewport};
use takumi::numeric::UNIT;
use takumi::style::{Display, InlineContentKind};
use takumi::tree::{RenderContext, Node, NodeKind, NodeStyle, NodeTree};

fn style(display: Display) -> NodeStyle {
    NodeStyle { display, font_size: None, color: None }
}

fn block(children: Vec<Node>) -> Node {
    Node { kind: NodeKind::Container, style: style(Display::Block), children: Some(children) }
}

fn text(t: &str) -> Node {
    Node { kind: NodeKind::Text(t.to_string()), style: style(Display::Inline), children: None }
}

fn root_context() -> RenderContext {
    RenderContext::new(Viewport::new(Some(800), Some(600)))
}

#[test]
fn inline_child_between_blocks_is_wrapped() {
    let root = block(vec![block(vec![]), text("middle"), block(vec![])]);
    let tree = NodeTree::from_node(&root_context(), &root);
    let children = tree.children.as_ref().unwrap();
    assert_eq!(children.len(), 3);
    assert!(children[0].node.is_some());
    assert!(children[1].node.is_none());
    assert_eq!(children[1].context.display, Display::Block);
    let wrapped = children[1].children.as_ref().unwrap();
    assert_eq!(wrapped.len(), 1);
    assert_eq!(wrapped[0].node, Some(NodeKind::Text("middle".to_string())));
    assert!(children[2].node.is_some());
}

#[test]
fn uniform_children_get_no_anonymous_box() {
    let root = block(vec![text("a"), text("b"), text("c")]);
    let tree = NodeTree::from_node(&root_context(), &root);
    let children = tree.children.as_ref().unwrap();
    assert_eq!(children.len(), 3);
    assert!(children.iter().all(|c| c.node.is_some() && c.is_inline()));
    assert!(tree.should_construct_inline_layout());

    let blocks = block(vec![block(vec![]), block(vec![])]);
    let tree = NodeTree::from_node(&root_context(), &blocks);
    assert_eq!(tree.children.as_ref().unwrap().len(), 2);
    assert!(!tree.should_construct_inline_layout());
}

#[test]
fn adjacent_inline_children_share_one_wrapper() {
    let root = block(vec![text("a"), text("b"), block(vec![]), text("c")]);
    let tree = NodeTree::from_node(&root_context(), &root);
    let children = tree.children.as_ref().unwrap();
    assert_eq!(children.len(), 3);
    assert_eq!(children[0].children.as_ref().unwrap().len(), 2);
    assert!(children[0].node.is_none());
    assert!(children[1].node.is_some());
    assert_eq!(children[2].children.as_ref().unwrap().len(), 1);
}

#[test]
fn root_declared_inline_is_blockified() {
    let root = Node {
        kind: NodeKind::Container,
        style: style(Display::Inline),
        children: Some(vec![text("x")]),
    };
    let tree = NodeTree::from_node(&root_context(), &root);
    assert_eq!(tree.context.display, Display::Block);
    assert!(!tree.is_inline());
}

#[test]
fn flex_container_blockifies_children() {
    let root = Node {
        kind: NodeKind::Container,
        style: style(Display::Flex),
        children: Some(vec![text("a"), block(vec![])]),
    };
    let tree = NodeTree::from_node(&root_context(), &root);
    let children = tree.children.as_ref().unwrap();
    assert_eq!(children.len(), 2);
    assert!(children.iter().all(|c| c.context.display == Display::Block && c.node.is_some()));
}

#[test]
fn font_size_resolves_against_parent() {
    let child = Node {
        kind: NodeKind::Text("big".to_string()),
        style: NodeStyle { display: Display::Block, font_size: Some(Length::Em(2 * UNIT)), color: None },
        children: None,
    };
    let root = block(vec![child]);
    let tree = NodeTree::from_node(&root_context(), &root);
    assert_eq!(tree.context.font_size, 16 * UNIT);
    assert_eq!(tree.children.as_ref().unwrap()[0].context.font_size, 32 * UNIT);
}

#[test]
fn inline_items_come_in_document_order() {
    let span = Node {
        kind: NodeKind::Container,
        style: style(Display::Inline),
        children: Some(vec![text("b"), text("c")]),
    };
    let image = Node { kind: NodeKind::Image("logo.png".to_string()), style: style(Display::Inline), children: None };
    let root = block(vec![text("a"), span, image]);
    let tree = NodeTree::from_node(&root_context(), &root);
    let items: Vec<InlineContentKind> = tree.inline_items().into_iter().map(|e| e.item).collect();
    assert_eq!(
        items,
        vec![
            InlineContentKind::Text("a".to_string()),
            InlineContentKind::Text("b".to_string()),
            InlineContentKind::Text("c".to_string()),
            InlineContentKind::Box,
        ]
    );
}

#[test]
fn inline_root_with_mixed_children_is_wrapped_as_a_block() {
    let root = Node {
        kind: NodeKind::Container,
        style: style(Display::Inline),
        children: Some(vec![text("a"), block(vec![]), text("b")]),
    };
    let tree = NodeTree::from_node(&root_context(), &root);
    assert_eq!(tree.context.display, Display::Block);
    let children = tree.children.as_ref().unwrap();
    assert_eq!(children.len(), 3);
    assert!(children[0].node.is_none() && children[2].node.is_none());
    assert!(children[1].node.is_some());
}

#[test]
fn inline_below_is_checked() {
    let flow = NodeTree::from_node(&root_context(), &block(vec![text("a"), text("b")]));
    assert!(flow.is_inline_below());
    let mixed = NodeTree::from_node(&root_context(), &block(vec![text("a"), block(vec![])]));
    assert!(!mixed.is_inline_below());
}
