use flexbox_layout::LayoutNode;
use flexbox_layout::LayoutNodeResult;
use flexbox_layout::LayoutStyle;
use flexbox_layout::LayoutError;
use flexbox_layout::compute_layout;
use flexbox_layout::create_layout_node;

fn st() -> LayoutStyle {
    LayoutStyle::unset()
}

fn node(id: u32, style: LayoutStyle, children: Vec<LayoutNode>) -> LayoutNode {
    LayoutNode { id, style, children }
}

fn sized(id: u32, w: i64, h: i64) -> LayoutNode {
    let mut s = st();
    s.width = Some(w);
    s.height = Some(h);
    node(id, s, vec![])
}

fn ok(root: &LayoutNode, aw: i64, ah: i64) -> LayoutNodeResult {
    compute_layout(root, aw, ah).expect("layout should succeed")
}

#[test]
fn single_child_fills_container() {
    // A 200 x 100 row with one growing, unsized child: the child fills the
    // main axis by flex-grow and the cross axis by default stretch.
    let mut rs = st();
    rs.width = Some(200);
    rs.height = Some(100);
    rs.flex_direction = Some("row".to_string());
    let mut cs = st();
    cs.flex_grow = Some(1);
    let root = node(1, rs, vec![node(2, cs, vec![])]);
    let r = ok(&root, 500, 500);
    assert_eq!(r.layout.width, 200);
    assert_eq!(r.layout.height, 100);
    assert_eq!(r.children.len(), 1);
    let c = &r.children[0];
    assert_eq!(c.layout.x, 0);
    assert_eq!(c.layout.y, 0);
    assert_eq!(c.layout.width, 200);
    assert_eq!(c.layout.height, 100);
}

#[test]
fn equal_grow_split() {
    let mut rs = st();
    rs.width = Some(300);
    rs.height = Some(50);
    rs.flex_direction = Some("row".to_string());
    let grow = || {
        let mut s = st();
        s.flex_grow = Some(1);
        s
    };
    let root = node(
        0,
        rs,
        vec![node(1, grow(), vec![]), node(2, grow(), vec![]), node(3, grow(), vec![])],
    );
    let r = ok(&root, 300, 50);
    let xs: Vec<i64> = r.children.iter().map(|c| c.layout.x).collect();
    let ws: Vec<i64> = r.children.iter().map(|c| c.layout.width).collect();
    assert_eq!(ws, vec![100, 100, 100]);
    assert_eq!(xs, vec![0, 100, 200]);
}

#[test]
fn wrap_forms_two_lines() {
    let mut rs = st();
    rs.width = Some(100);
    rs.flex_direction = Some("row".to_string());
    rs.flex_wrap = Some("wrap".to_string());
    let root = node(0, rs, vec![sized(1, 60, 20), sized(2, 60, 20)]);
    let r = ok(&root, 100, 500);
    let a = &r.children[0];
    let b = &r.children[1];
    assert_eq!(a.layout.x, 0);
    assert_eq!(a.layout.y, 0);
    assert_eq!(b.layout.x, 0);
    // The second line starts where the first line's cross extent ends.
    assert_eq!(b.layout.y, a.layout.height);
    assert_eq!(r.layout.height, 40);
}

#[test]
fn justify_space_between() {
    let mut rs = st();
    rs.width = Some(300);
    rs.height = Some(50);
    rs.flex_direction = Some("row".to_string());
    rs.justify_content = Some("space-between".to_string());
    let root = node(0, rs, vec![sized(1, 50, 50), sized(2, 50, 50)]);
    let r = ok(&root, 300, 50);
    assert_eq!(r.children[0].layout.x, 0);
    assert_eq!(r.children[1].layout.x, 250);
}

#[test]
fn justify_center_and_end() {
    let mut rs = st();
    rs.width = Some(300);
    rs.height = Some(50);
    rs.flex_direction = Some("row".to_string());
    rs.justify_content = Some("center".to_string());
    let root = node(0, rs.clone(), vec![sized(1, 50, 50), sized(2, 50, 50)]);
    let r = ok(&root, 300, 50);
    assert_eq!(r.children[0].layout.x, 100);
    assert_eq!(r.children[1].layout.x, 150);
    rs.justify_content = Some("flex-end".to_string());
    let root = node(0, rs, vec![sized(1, 50, 50), sized(2, 50, 50)]);
    let r = ok(&root, 300, 50);
    assert_eq!(r.children[0].layout.x, 200);
    assert_eq!(r.children[1].layout.x, 250);
}

#[test]
fn justify_space_around_and_evenly() {
    let mut rs = st();
    rs.width = Some(300);
    rs.height = Some(50);
    rs.flex_direction = Some("row".to_string());
    rs.justify_content = Some("space-around".to_string());
    let root = node(0, rs.clone(), vec![sized(1, 50, 50), sized(2, 50, 50)]);
    let r = ok(&root, 300, 50);
    assert_eq!(r.children[0].layout.x, 50);
    assert_eq!(r.children[1].layout.x, 200);
    rs.justify_content = Some("space-evenly".to_string());
    let root = node(0, rs, vec![sized(1, 50, 50), sized(2, 50, 50)]);
    let r = ok(&root, 300, 50);
    assert_eq!(r.children[0].layout.x, 66);
    assert_eq!(r.children[1].layout.x, 183);
}

#[test]
fn absolute_child_excluded_from_flow() {
    let mut rs = st();
    rs.width = Some(300);
    rs.height = Some(100);
    rs.flex_direction = Some("row".to_string());
    let mut abs = st();
    abs.position = Some("absolute".to_string());
    abs.top = Some(10);
    abs.left = Some(20);
    abs.width = Some(30);
    abs.height = Some(30);
    let root = node(
        0,
        rs,
        vec![sized(1, 50, 50), node(2, abs, vec![]), sized(3, 50, 50)],
    );
    let r = ok(&root, 300, 100);
    // The in-flow siblings are not shifted by the absolute child.
    assert_eq!(r.children[0].layout.x, 0);
    assert_eq!(r.children[2].layout.x, 50);
    // The absolute child sits exactly at its inset offsets.
    assert_eq!(r.children[1].layout.x, 20);
    assert_eq!(r.children[1].layout.y, 10);
    assert_eq!(r.children[1].layout.width, 30);
    assert_eq!(r.children[1].layout.height, 30);
}

#[test]
fn clamp_to_min_when_too_small() {
    // The algorithm would shrink the child to 30; the declared minimum wins.
    let mut rs = st();
    rs.width = Some(30);
    rs.height = Some(50);
    rs.flex_direction = Some("row".to_string());
    let mut cs = st();
    cs.flex_grow = Some(1);
    cs.min_width = Some(50);
    cs.max_width = Some(100);
    let root = node(0, rs, vec![node(1, cs, vec![])]);
    let r = ok(&root, 30, 50);
    assert_eq!(r.children[0].layout.width, 50);
}

#[test]
fn clamp_to_max_when_too_large() {
    // The algorithm would grow the child to 300; the declared maximum wins.
    let mut rs = st();
    rs.width = Some(300);
    rs.height = Some(50);
    rs.flex_direction = Some("row".to_string());
    let mut cs = st();
    cs.flex_grow = Some(1);
    cs.min_width = Some(50);
    cs.max_width = Some(100);
    let root = node(0, rs, vec![node(1, cs, vec![])]);
    let r = ok(&root, 300, 50);
    assert_eq!(r.children[0].layout.width, 100);
}

#[test]
fn min_wins_over_max() {
    let mut cs = st();
    cs.width = Some(30);
    cs.min_width = Some(80);
    cs.max_width = Some(50);
    cs.height = Some(10);
    let mut rs = st();
    rs.width = Some(300);
    rs.height = Some(50);
    rs.flex_direction = Some("row".to_string());
    let root = node(0, rs, vec![node(1, cs, vec![])]);
    let r = ok(&root, 300, 50);
    assert_eq!(r.children[0].layout.width, 80);
}

#[test]
fn shrink_proportionally() {
    let mut rs = st();
    rs.width = Some(300);
    rs.height = Some(50);
    rs.flex_direction = Some("row".to_string());
    let root = node(0, rs, vec![sized(1, 200, 50), sized(2, 200, 50)]);
    let r = ok(&root, 300, 50);
    assert_eq!(r.children[0].layout.width, 150);
    assert_eq!(r.children[1].layout.width, 150);
    assert_eq!(r.children[1].layout.x, 150);
}

#[test]
fn grow_zero_receives_nothing() {
    let mut rs = st();
    rs.width = Some(300);
    rs.height = Some(50);
    rs.flex_direction = Some("row".to_string());
    let mut fixed = st();
    fixed.width = Some(40);
    fixed.height = Some(10);
    let mut growing = st();
    growing.flex_grow = Some(1);
    let root = node(0, rs, vec![node(1, fixed, vec![]), node(2, growing, vec![])]);
    let r = ok(&root, 300, 50);
    assert_eq!(r.children[0].layout.width, 40);
    assert_eq!(r.children[1].layout.width, 260);
}

#[test]
fn row_reverse_reverses_placement_only() {
    let mut rs = st();
    rs.width = Some(300);
    rs.height = Some(100);
    rs.flex_direction = Some("row-reverse".to_string());
    let root = node(0, rs, vec![sized(1, 50, 50), sized(2, 80, 50)]);
    let r = ok(&root, 300, 100);
    // The tree order is unchanged; only the positions are mirrored.
    assert_eq!(r.children[0].id, 1);
    assert_eq!(r.children[1].id, 2);
    assert_eq!(r.children[0].layout.x, 80);
    assert_eq!(r.children[1].layout.x, 0);
}

#[test]
fn wrap_reverse_reverses_lines() {
    let mut rs = st();
    rs.width = Some(100);
    rs.flex_direction = Some("row".to_string());
    rs.flex_wrap = Some("wrap-reverse".to_string());
    let root = node(0, rs, vec![sized(1, 60, 20), sized(2, 60, 20)]);
    let r = ok(&root, 100, 500);
    assert_eq!(r.children[0].layout.y, 20);
    assert_eq!(r.children[1].layout.y, 0);
}

#[test]
fn align_items_center() {
    let mut rs = st();
    rs.width = Some(300);
    rs.height = Some(100);
    rs.flex_direction = Some("row".to_string());
    rs.align_items = Some("center".to_string());
    let root = node(0, rs, vec![sized(1, 50, 40)]);
    let r = ok(&root, 300, 100);
    assert_eq!(r.children[0].layout.y, 30);
}

#[test]
fn column_is_the_default_direction() {
    let mut rs = st();
    rs.width = Some(100);
    rs.height = Some(100);
    let mut ch = st();
    ch.height = Some(30);
    let root = node(0, rs, vec![node(1, ch.clone(), vec![]), node(2, ch, vec![])]);
    let r = ok(&root, 100, 100);
    assert_eq!(r.children[0].layout.y, 0);
    assert_eq!(r.children[1].layout.y, 30);
    assert_eq!(r.children[0].layout.x, 0);
    // Default stretch fills the cross axis.
    assert_eq!(r.children[0].layout.width, 100);
}

#[test]
fn unknown_enum_string_falls_back_to_default() {
    let mut rs = st();
    rs.width = Some(100);
    rs.height = Some(100);
    rs.flex_direction = Some("diagonal".to_string());
    let mut ch = st();
    ch.height = Some(30);
    let root = node(0, rs, vec![node(1, ch.clone(), vec![]), node(2, ch, vec![])]);
    let r = ok(&root, 100, 100);
    // An unknown direction behaves as the default column.
    assert_eq!(r.children[1].layout.y, 30);
}

#[test]
fn column_gap_overrides_uniform_gap_on_its_axis() {
    let mut rs = st();
    rs.width = Some(300);
    rs.height = Some(50);
    rs.flex_direction = Some("row".to_string());
    rs.gap = Some(10);
    rs.column_gap = Some(4);
    let root = node(0, rs, vec![sized(1, 50, 10), sized(2, 50, 10), sized(3, 50, 10)]);
    let r = ok(&root, 300, 50);
    let xs: Vec<i64> = r.children.iter().map(|c| c.layout.x).collect();
    assert_eq!(xs, vec![0, 54, 108]);
}

#[test]
fn uniform_gap_applies_when_axis_gap_unset() {
    let mut rs = st();
    rs.width = Some(300);
    rs.height = Some(50);
    rs.flex_direction = Some("row".to_string());
    rs.gap = Some(10);
    let root = node(0, rs, vec![sized(1, 50, 10), sized(2, 50, 10), sized(3, 50, 10)]);
    let r = ok(&root, 300, 50);
    let xs: Vec<i64> = r.children.iter().map(|c| c.layout.x).collect();
    assert_eq!(xs, vec![0, 60, 120]);
}

#[test]
fn padding_shrinks_the_content_box() {
    let mut rs = st();
    rs.width = Some(200);
    rs.height = Some(100);
    rs.flex_direction = Some("row".to_string());
    rs.padding_left = Some(10);
    let mut cs = st();
    cs.flex_grow = Some(1);
    let root = node(0, rs, vec![node(1, cs, vec![])]);
    let r = ok(&root, 200, 100);
    // Coordinates are relative to the content box, whose width excludes the
    // padding.
    assert_eq!(r.children[0].layout.x, 0);
    assert_eq!(r.children[0].layout.width, 190);
}

#[test]
fn margins_offset_the_child() {
    let mut rs = st();
    rs.width = Some(300);
    rs.height = Some(100);
    rs.flex_direction = Some("row".to_string());
    let mut cs = st();
    cs.width = Some(50);
    cs.height = Some(50);
    cs.margin_left = Some(7);
    cs.margin_top = Some(5);
    let root = node(0, rs, vec![node(1, cs, vec![]), sized(2, 50, 50)]);
    let r = ok(&root, 300, 100);
    assert_eq!(r.children[0].layout.x, 7);
    assert_eq!(r.children[0].layout.y, 5);
    // The sibling starts after the first child's outer size.
    assert_eq!(r.children[1].layout.x, 57);
}

#[test]
fn shape_and_tokens_preserved() {
    let mut rs = st();
    rs.width = Some(100);
    rs.height = Some(100);
    let inner = node(42, st(), vec![sized(7, 10, 10), sized(9, 10, 10)]);
    let root = node(99, rs, vec![inner, sized(3, 10, 10)]);
    let r = ok(&root, 100, 100);
    assert_eq!(r.id, 99);
    assert_eq!(r.children.len(), 2);
    assert_eq!(r.children[0].id, 42);
    assert_eq!(r.children[0].children.len(), 2);
    assert_eq!(r.children[0].children[0].id, 7);
    assert_eq!(r.children[0].children[1].id, 9);
    assert_eq!(r.children[1].id, 3);
}

#[test]
fn duplicate_tokens_stay_distinct_nodes() {
    let mut rs = st();
    rs.width = Some(100);
    rs.height = Some(100);
    let root = node(5, rs, vec![sized(5, 10, 10), sized(5, 20, 20)]);
    let r = ok(&root, 100, 100);
    assert_eq!(r.children.len(), 2);
    assert_eq!(r.children[0].id, 5);
    assert_eq!(r.children[1].id, 5);
    assert_eq!(r.children[0].layout.width, 10);
    assert_eq!(r.children[1].layout.width, 20);
}

#[test]
fn sizes_never_negative() {
    let mut rs = st();
    rs.width = Some(-50);
    rs.height = Some(-50);
    let mut cs = st();
    cs.width = Some(-10);
    cs.height = Some(-10);
    let root = node(0, rs, vec![node(1, cs, vec![])]);
    let r = ok(&root, -100, -100);
    assert!(r.layout.width >= 0);
    assert!(r.layout.height >= 0);
    assert!(r.children[0].layout.width >= 0);
    assert!(r.children[0].layout.height >= 0);
}

#[test]
fn identical_input_gives_identical_output() {
    let build = || {
        let mut rs = st();
        rs.width = Some(300);
        rs.height = Some(100);
        rs.flex_direction = Some("row".to_string());
        rs.justify_content = Some("space-between".to_string());
        let mut g = st();
        g.flex_grow = Some(1);
        node(0, rs, vec![sized(1, 50, 50), node(2, g, vec![]), sized(3, 50, 50)])
    };
    let a = compute_layout(&build(), 300, 100).unwrap();
    let b = compute_layout(&build(), 300, 100).unwrap();
    assert_eq!(a, b);
}

#[test]
fn too_deep_tree_is_rejected_whole() {
    let mut n = sized(0, 10, 10);
    for i in 1..40u32 {
        n = node(i, st(), vec![n]);
    }
    let r = compute_layout(&n, 100, 100);
    assert_eq!(r, Err(LayoutError::InvalidTree));
}

#[test]
fn tree_at_the_depth_bound_is_accepted() {
    let mut n = sized(0, 10, 10);
    for i in 1..32u32 {
        let mut s = st();
        s.width = Some(10);
        s.height = Some(10);
        n = node(i, s, vec![n]);
    }
    assert!(compute_layout(&n, 100, 100).is_ok());
}

#[test]
fn create_layout_node_is_childless_with_the_given_token() {
    let n = create_layout_node(LayoutStyle::unset(), 7);
    assert_eq!(n.id, 7);
    assert!(n.children.is_empty());
    assert!(n.style.width.is_none());
}

#[test]
fn flex_basis_beats_explicit_size() {
    let mut rs = st();
    rs.width = Some(300);
    rs.height = Some(50);
    rs.flex_direction = Some("row".to_string());
    let mut cs = st();
    cs.width = Some(40);
    cs.flex_basis = Some(70);
    cs.height = Some(10);
    let root = node(0, rs, vec![node(1, cs, vec![])]);
    let r = ok(&root, 300, 50);
    assert_eq!(r.children[0].layout.width, 70);
}

#[test]
fn nested_layout_uses_the_child_content_box() {
    // A growing child is laid out, then its own children are placed within
    // its resolved size.
    let mut rs = st();
    rs.width = Some(200);
    rs.height = Some(100);
    rs.flex_direction = Some("row".to_string());
    let mut mid = st();
    mid.flex_grow = Some(1);
    mid.flex_direction = Some("row".to_string());
    let mut leaf = st();
    leaf.flex_grow = Some(1);
    let root = node(0, rs, vec![node(1, mid, vec![node(2, leaf, vec![])])]);
    let r = ok(&root, 200, 100);
    assert_eq!(r.children[0].layout.width, 200);
    assert_eq!(r.children[0].children[0].layout.width, 200);
    assert_eq!(r.children[0].children[0].layout.height, 100);
}

#[test]
fn align_self_overrides_align_items() {
    let mut rs = st();
    rs.width = Some(300);
    rs.height = Some(100);
    rs.flex_direction = Some("row".to_string());
    rs.align_items = Some("flex-start".to_string());
    let mut cs = st();
    cs.width = Some(50);
    cs.height = Some(40);
    cs.align_self = Some("flex-end".to_string());
    let root = node(0, rs, vec![node(1, cs, vec![]), sized(2, 50, 40)]);
    let r = ok(&root, 300, 100);
    assert_eq!(r.children[0].layout.y, 60);
    assert_eq!(r.children[1].layout.y, 0);
}

#[test]
fn align_content_centers_the_lines() {
    let mut rs = st();
    rs.width = Some(100);
    rs.height = Some(100);
    rs.flex_direction = Some("row".to_string());
    rs.flex_wrap = Some("wrap".to_string());
    rs.align_content = Some("center".to_string());
    let root = node(0, rs, vec![sized(1, 60, 20), sized(2, 60, 20)]);
    let r = ok(&root, 100, 100);
    assert_eq!(r.children[0].layout.y, 30);
    assert_eq!(r.children[1].layout.y, 50);
}

#[test]
fn align_content_stretch_spreads_leftover_cross_space() {
    let mut rs = st();
    rs.width = Some(100);
    rs.height = Some(100);
    rs.flex_direction = Some("row".to_string());
    rs.flex_wrap = Some("wrap".to_string());
    let root = node(0, rs, vec![sized(1, 60, 20), sized(2, 60, 20)]);
    let r = ok(&root, 100, 100);
    // Each line grows from 20 to 50; the second line starts at the
    // stretched first line's end.
    assert_eq!(r.children[0].layout.y, 0);
    assert_eq!(r.children[1].layout.y, 50);
    // Explicitly sized children keep their own height.
    assert_eq!(r.children[0].layout.height, 20);
}

#[test]
fn inexact_grow_split_hands_out_every_unit() {
    let mut rs = st();
    rs.width = Some(100);
    rs.height = Some(50);
    rs.flex_direction = Some("row".to_string());
    let grow = || {
        let mut s = st();
        s.flex_grow = Some(1);
        s
    };
    let root = node(
        0,
        rs,
        vec![node(1, grow(), vec![]), node(2, grow(), vec![]), node(3, grow(), vec![])],
    );
    let r = ok(&root, 100, 50);
    let ws: Vec<i64> = r.children.iter().map(|c| c.layout.width).collect();
    // Sequential apportionment in declaration order: floors first, the
    // remainder reaches the last item.
    assert_eq!(ws, vec![33, 33, 34]);
    assert_eq!(ws.iter().sum::<i64>(), 100);
}
