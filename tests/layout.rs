use taffy::prelude::{AlignItems, AvailableSpace, Dimension, Display, FlexDirection, JustifyContent, LengthPercentage, NodeId, Size, Style, TaffyTree};
use taffy::{Overflow, Point};
use termgrid::frame::{CellBuffer, Glyph};
use termgrid::layout::{build_layout_tree, BoxKind, LayoutPlan};
use termgrid::node::Node;
use termgrid::render::{absolute_positions, render_plan, Placement};
use termgrid::style::{rgb, BoxStyle};
use termgrid::widgets::{container, scroll_view, text, IntoNode};
use termgrid::widgets as w;

fn solver_style(kind: BoxKind) -> Style {
    match kind {
        BoxKind::Text { width, height } => Style {
            flex_grow: 0.0,
            flex_shrink: 0.0,
            size: Size { width: Dimension::Length(width as f32), height: Dimension::Length(height as f32) },
            ..Default::default()
        },
        BoxKind::Flex { column, gap, justify_center, items_center } => Style {
            display: Display::Flex,
            flex_grow: 0.0,
            flex_shrink: 0.0,
            flex_direction: if column { FlexDirection::Column } else { FlexDirection::Row },
            justify_content: if justify_center { Some(JustifyContent::Center) } else { None },
            align_items: if items_center { Some(AlignItems::Center) } else { None },
            gap: Size { width: LengthPercentage::Length(gap as f32), height: LengthPercentage::Length(gap as f32) },
            ..Default::default()
        },
        BoxKind::Scroll { viewport_lines, .. } => Style {
            flex_grow: 0.0,
            flex_shrink: 0.0,
            overflow: Point { x: Overflow::Hidden, y: Overflow::Hidden },
            size: Size {
                width: Dimension::Auto,
                height: viewport_lines.map(|h| Dimension::Length(h as f32)).unwrap_or(Dimension::Auto),
            },
            ..Default::default()
        },
        BoxKind::Empty => Style::default(),
    }
}

fn place(plan: &LayoutPlan, width: u16, height: u16) -> Vec<Placement> {
    let mut tree: TaffyTree<()> = TaffyTree::new();
    let n = plan.boxes.len();
    let mut ids: Vec<Option<NodeId>> = vec![None; n];
    for i in (0..n).rev() {
        let b = &plan.boxes[i];
        let mut style = solver_style(b.kind);
        if i == 0 {
            style.size = Size { width: Dimension::Length(width as f32), height: Dimension::Length(height as f32) };
        }
        let kids: Vec<NodeId> = b.children.iter().map(|c| ids[*c].unwrap()).collect();
        ids[i] = Some(tree.new_with_children(style, &kids).unwrap());
    }
    let root = ids[0].unwrap();
    tree.compute_layout(
        root,
        Size { width: AvailableSpace::Definite(width as f32), height: AvailableSpace::Definite(height as f32) },
    )
    .unwrap();
    ids.iter()
        .map(|id| {
            let l = tree.layout(id.unwrap()).unwrap();
            Placement {
                x: l.location.x.floor() as i32,
                y: l.location.y.floor() as i32,
                width: l.size.width.ceil() as i32,
                height: l.size.height.ceil() as i32,
            }
        })
        .collect()
}

fn leaf_rows(node: &Node, width: u16, height: u16) -> Vec<(String, i32)> {
    let plan = build_layout_tree(node, width as usize);
    let geo = place(&plan, width, height);
    let abs = absolute_positions(&plan, &geo).unwrap();
    plan.leaves
        .iter()
        .map(|l| (l.text.runs.iter().map(|r| r.text.as_str()).collect::<String>(), abs[l.node].1))
        .collect()
}

fn row_of(rows: &[(String, i32)], s: &str) -> i32 {
    rows.iter().find(|(t, _)| t == s).unwrap().1
}

fn row_text(b: &CellBuffer, y: u16) -> String {
    let mut s = String::new();
    for x in 0..b.width() {
        if let Glyph::Char(c) = b.get(x, y).glyph {
            s.push(c);
        }
    }
    s.trim_end().to_string()
}

#[test]
fn nested_children_use_absolute_positions() {
    let tree = w::column()
        .child(text("header"))
        .child(w::column().child(text("inner-1")).child(w::column().child(text("deep-1")).child(text("deep-2"))))
        .into_node();
    let pos = leaf_rows(&tree, 80, 24);
    let header_y = row_of(&pos, "header");
    let inner_1_y = row_of(&pos, "inner-1");
    let deep_1_y = row_of(&pos, "deep-1");
    let deep_2_y = row_of(&pos, "deep-2");
    assert!(inner_1_y > header_y);
    assert!(deep_1_y > inner_1_y);
    assert!(deep_2_y > deep_1_y);
}

#[test]
fn multiline_text_reserves_height_for_following_rows() {
    let tree = w::column().child(text("row-a\nrow-a-detail")).child(text("row-b-single")).into_node();
    let pos = leaf_rows(&tree, 80, 24);
    let first_y = row_of(&pos, "row-a\nrow-a-detail");
    let second_y = row_of(&pos, "row-b-single");
    assert!(second_y >= first_y + 2);
}

#[test]
fn column_gap_offsets_second_leaf() {
    let tree = w::column().gap(1).child(text("a")).child(text("bb")).into_node();
    let pos = leaf_rows(&tree, 10, 5);
    assert_eq!(row_of(&pos, "a"), 0);
    assert_eq!(row_of(&pos, "bb"), 2);
    let plan = build_layout_tree(&tree, 10);
    let geo = place(&plan, 10, 5);
    let buf = render_plan(&plan, &geo, 10, 5).unwrap();
    assert_eq!(row_text(&buf, 0), "a");
    assert_eq!(row_text(&buf, 1), "");
    assert_eq!(row_text(&buf, 2), "bb");
}

#[test]
fn layout_is_deterministic() {
    let tree = w::column().gap(2).child(text("one")).child(text("two\nlines")).child(text("three")).into_node();
    let plan = build_layout_tree(&tree, 20);
    let a = place(&plan, 20, 10);
    let b = place(&plan, 20, 10);
    assert_eq!(a, b);
    let r1 = render_plan(&plan, &a, 20, 10).unwrap();
    let r2 = render_plan(&plan, &b, 20, 10).unwrap();
    assert!(r1.diff_runs(&r2).is_empty());
}

fn ten_lines() -> Node {
    let mut c = w::column();
    for i in 0..10 {
        c = c.child(text(&format!("line{}", i)));
    }
    c.into_node()
}

#[test]
fn scroll_view_shows_only_offset_rows() {
    let tree = w::column().child(scroll_view(ten_lines()).viewport_lines(2).offset_lines(3)).into_node();
    let plan = build_layout_tree(&tree, 20);
    let geo = place(&plan, 20, 12);
    let buf = render_plan(&plan, &geo, 20, 12).unwrap();
    assert_eq!(row_text(&buf, 0), "line3");
    assert_eq!(row_text(&buf, 1), "line4");
    for y in 2..12 {
        assert_eq!(row_text(&buf, y), "");
    }
}

#[test]
fn scroll_view_with_hand_placements() {
    let tree = scroll_view(ten_lines()).viewport_lines(2).offset_lines(3).into_node();
    let plan = build_layout_tree(&tree, 20);
    assert_eq!(plan.boxes.len(), 12);
    let mut geo = vec![
        Placement { x: 0, y: 0, width: 20, height: 2 },
        Placement { x: 0, y: 0, width: 20, height: 10 },
    ];
    for i in 0..10 {
        geo.push(Placement { x: 0, y: i, width: 5, height: 1 });
    }
    let buf = render_plan(&plan, &geo, 20, 12).unwrap();
    assert_eq!(row_text(&buf, 0), "line3");
    assert_eq!(row_text(&buf, 1), "line4");
    assert_eq!(row_text(&buf, 2), "");
}

#[test]
fn mismatched_placements_fail_the_frame() {
    let tree = w::column().child(text("a")).into_node();
    let plan = build_layout_tree(&tree, 10);
    assert!(render_plan(&plan, &Vec::new(), 10, 2).is_err());
}

#[test]
fn nested_scroll_views_never_widen_the_clip() {
    let one = w::column().child(scroll_view(ten_lines()).viewport_lines(4).offset_lines(0)).into_node();
    let two = w::column()
        .child(scroll_view(scroll_view(ten_lines()).viewport_lines(4).offset_lines(0)).viewport_lines(2).offset_lines(0))
        .into_node();
    let visible = |tree: &Node| {
        let plan = build_layout_tree(tree, 20);
        let geo = place(&plan, 20, 12);
        let buf = render_plan(&plan, &geo, 20, 12).unwrap();
        (0..12).filter(|y| !row_text(&buf, *y).is_empty()).count()
    };
    assert_eq!(visible(&one), 4);
    assert_eq!(visible(&two), 2);
}

#[test]
fn container_fills_background_and_colors_text() {
    let tree = w::column()
        .child(container(text("hi")).style(BoxStyle::new().bg(rgb(0x112233)).text_color(rgb(0x445566))))
        .into_node();
    let plan = build_layout_tree(&tree, 10);
    let geo = place(&plan, 10, 3);
    let buf = render_plan(&plan, &geo, 10, 3).unwrap();
    let cell = buf.get(0, 0);
    assert_eq!(cell.glyph, Glyph::Char('h'));
    let bg = cell.style.bg.unwrap();
    assert_eq!((bg.r, bg.g, bg.b), (0x11, 0x22, 0x33));
    let fg = cell.style.fg.unwrap();
    assert_eq!((fg.r, fg.g, fg.b), (0x44, 0x55, 0x66));
}
