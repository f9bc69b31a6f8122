use vstd::prelude::*;
use crate::chars::push_char;
use crate::color::{rgb, rgba_of, Rgba};
use crate::input_view::input_runs;
use crate::node::{Axis, Icon, IconName, Node, RichText, Stack};
use crate::style;
use crate::text::{runs_chars, wrapped_height, wrapped_width, StyledText, TextRun, TextStyle};

verus! {

/// How the constraint solver is to treat a box.
#[derive(Clone, Copy, Debug, PartialEq, Eq, Structural)]
pub enum BoxKind {
    /// A text leaf of a fixed size in cells.
    Text { width: usize, height: usize },
    /// A flex box: row or column, the gap in cells, and alignment flags.
    Flex { column: bool, gap: u16, justify_center: bool, items_center: bool },
    /// A box that hides overflow: a fixed height or its content's, and the
    /// rows its content is scrolled by.
    Scroll { viewport_lines: Option<u16>, offset_lines: u16 },
    /// A box with default style and no content.
    Empty,
}

/// One box of the constraint tree; a parent comes before its children.
#[derive(Clone, Debug)]
pub struct LayoutBox {
    pub kind: BoxKind,
    pub parent: Option<usize>,
    pub children: Vec<usize>,
}

/// Text drawn into box `node`; `color` is the text color inherited from
/// the nearest container that sets one.
#[derive(Clone, Debug)]
pub struct TextLeaf {
    pub node: usize,
    pub text: StyledText,
    pub color: Option<Rgba>,
}

/// A background fill of box `node`.
#[derive(Clone, Copy, Debug, PartialEq, Eq, Structural)]
pub struct BgLeaf {
    pub node: usize,
    pub bg: Rgba,
}

/// The constraint tree of a frame, box 0 its root, with the leaves to draw
/// and the backgrounds to fill.
#[derive(Clone, Debug)]
pub struct LayoutPlan {
    pub boxes: Vec<LayoutBox>,
    pub leaves: Vec<TextLeaf>,
    pub backgrounds: Vec<BgLeaf>,
}

pub type RunV = (Seq<char>, TextStyle);

pub struct BoxView {
    pub kind: BoxKind,
    pub parent: Option<int>,
    pub children: Seq<int>,
}

pub struct LeafView {
    pub node: int,
    pub runs: Seq<RunV>,
    pub color: Option<Rgba>,
}

pub struct PlanView {
    pub boxes: Seq<BoxView>,
    pub leaves: Seq<LeafView>,
    pub bgs: Seq<(int, Rgba)>,
}

pub open spec fn opt_idx(o: Option<usize>) -> Option<int> {
    match o {
        Some(i) => Some(i as int),
        None => None,
    }
}

pub open spec fn run_views(runs: Seq<TextRun>) -> Seq<RunV> {
    runs.map_values(|r: TextRun| (r.text@, r.style))
}

pub open spec fn flat_chars(v: Seq<RunV>) -> Seq<char>
    decreases v.len(),
{
    if v.len() == 0 {
        Seq::empty()
    } else {
        flat_chars(v.drop_last()) + v.last().0
    }
}

pub proof fn lemma_flat_chars(runs: Seq<TextRun>)
    ensures
        runs_chars(runs) == flat_chars(run_views(runs)),
    decreases runs.len(),
{
    if runs.len() > 0 {
        lemma_flat_chars(runs.drop_last());
        assert(run_views(runs).drop_last() =~= run_views(runs.drop_last()));
    }
}

impl View for LayoutBox {
    type V = BoxView;

    open spec fn view(&self) -> BoxView {
        BoxView { kind: self.kind, parent: opt_idx(self.parent), children: self.children@.map_values(|c: usize| c as int) }
    }
}

impl View for TextLeaf {
    type V = LeafView;

    open spec fn view(&self) -> LeafView {
        LeafView { node: self.node as int, runs: run_views(self.text.runs@), color: self.color }
    }
}

impl View for LayoutPlan {
    type V = PlanView;

    open spec fn view(&self) -> PlanView {
        PlanView {
            boxes: self.boxes@.map_values(|b: LayoutBox| b@),
            leaves: self.leaves@.map_values(|l: TextLeaf| l@),
            bgs: self.backgrounds@.map_values(|b: BgLeaf| (b.node as int, b.bg)),
        }
    }
}

impl PlanView {
    /// Every parent comes before its child, and leaves and fills name boxes.
    pub open spec fn wf(self) -> bool {
        &&& forall|i: int| #![trigger self.boxes[i]] 0 <= i < self.boxes.len() ==> match self.boxes[i].parent {
            Some(p) => 0 <= p < i,
            None => true,
        }
        &&& forall|i: int| #![trigger self.leaves[i]] 0 <= i < self.leaves.len() ==> 0 <= self.leaves[i].node < self.boxes.len()
        &&& forall|i: int| #![trigger self.bgs[i]] 0 <= i < self.bgs.len() ==> 0 <= self.bgs[i].0 < self.boxes.len()
    }
}

pub open spec fn cpui_color(c: style::Rgb) -> Rgba {
    rgba_of(c.0)
}

pub open spec fn cpui_color_opt(c: Option<style::Rgb>) -> Option<Rgba> {
    match c {
        Some(x) => Some(cpui_color(x)),
        None => None,
    }
}

/// The renderer's style for a node text style.
pub open spec fn cpui_style(s: style::TextStyle) -> TextStyle {
    TextStyle {
        bold: s.bold,
        italic: s.italic,
        underline: s.underline,
        strikethrough: s.strikethrough,
        color: cpui_color_opt(s.color),
        bg: cpui_color_opt(s.bg),
        cursor_anchor: s.cursor_anchor,
        cursor_after: s.cursor_after,
    }
}

pub fn to_cpui_color(c: style::Rgb) -> (r: Rgba)
    ensures
        r == cpui_color(c),
{
    rgb(c.0)
}

fn to_cpui_color_opt(c: Option<style::Rgb>) -> (r: Option<Rgba>)
    ensures
        r == cpui_color_opt(c),
{
    match c {
        Some(x) => Some(to_cpui_color(x)),
        None => None,
    }
}

pub fn to_cpui_text_style(s: style::TextStyle) -> (r: TextStyle)
    ensures
        r == cpui_style(s),
{
    TextStyle {
        bold: s.bold,
        italic: s.italic,
        underline: s.underline,
        strikethrough: s.strikethrough,
        color: to_cpui_color_opt(s.color),
        bg: to_cpui_color_opt(s.bg),
        cursor_anchor: s.cursor_anchor,
        cursor_after: s.cursor_after,
    }
}

pub open spec fn node_run_views(runs: Seq<crate::node::TextRun>) -> Seq<(Seq<char>, style::TextStyle)> {
    runs.map_values(|r: crate::node::TextRun| (r.text@, r.style))
}

/// The runs that node text draws: its runs converted, or one empty plain
/// run where it has none.
pub open spec fn rich_runs_v(v: Seq<(Seq<char>, style::TextStyle)>) -> Seq<RunV> {
    if v.len() == 0 {
        seq![(Seq::<char>::empty(), crate::text::plain_text_style())]
    } else {
        v.map_values(|r: (Seq<char>, style::TextStyle)| (r.0, cpui_style(r.1)))
    }
}

pub open spec fn rich_runs(t: RichText) -> Seq<RunV> {
    rich_runs_v(node_run_views(t.runs@))
}

pub fn text_to_cpui(t: &RichText) -> (r: StyledText)
    ensures
        run_views(r.runs@) == rich_runs(*t),
{
    if t.runs.len() == 0 {
        let r = StyledText::new("");
        proof {
            reveal_strlit("");
            assert(""@ =~= Seq::<char>::empty());
            assert(run_views(r.runs@)[0] == rich_runs(*t)[0]);
        }
        assert(run_views(r.runs@) =~= rich_runs(*t));
        return r;
    }
    let mut runs: Vec<TextRun> = Vec::new();
    let mut i: usize = 0;
    while i < t.runs.len()
        invariant
            i <= t.runs@.len(),
            run_views(runs@) == node_run_views(t.runs@.take(i as int)).map_values(|r: (Seq<char>, style::TextStyle)| (r.0, cpui_style(r.1))),
        decreases t.runs@.len() - i,
    {
        let run = &t.runs[i];
        let ghost before = runs@;
        let tr = TextRun { text: run.text.clone(), style: to_cpui_text_style(run.style) };
        runs.push(tr);
        assert(run_views(runs@) =~= run_views(before).push((tr.text@, tr.style)));
        assert(t.runs@.take(i as int + 1) =~= t.runs@.take(i as int).push(t.runs@[i as int]));
        i = i + 1;
        assert(run_views(runs@) =~= node_run_views(t.runs@.take(i as int)).map_values(|r: (Seq<char>, style::TextStyle)| (r.0, cpui_style(r.1))));
    }
    assert(t.runs@.take(i as int) =~= t.runs@);
    assert(run_views(runs@) =~= rich_runs(*t));
    StyledText { runs }
}

/// The character that stands for an icon.
pub open spec fn glyph_of(name: IconName) -> char {
    match name {
        IconName::Search => '\u{2315}',
        IconName::Send => '\u{27a4}',
        IconName::Robot => '\u{263a}',
        IconName::Info => '\u{2139}',
        IconName::Warning => '\u{26a0}',
        IconName::Error => '\u{2716}',
        IconName::Check => '\u{2714}',
        IconName::ChevronRight => '\u{203a}',
        IconName::ChevronDown => '\u{2304}',
    }
}

pub fn icon_glyph(name: IconName) -> (c: char)
    ensures
        c == glyph_of(name),
{
    match name {
        IconName::Search => '\u{2315}',
        IconName::Send => '\u{27a4}',
        IconName::Robot => '\u{263a}',
        IconName::Info => '\u{2139}',
        IconName::Warning => '\u{26a0}',
        IconName::Error => '\u{2716}',
        IconName::Check => '\u{2714}',
        IconName::ChevronRight => '\u{203a}',
        IconName::ChevronDown => '\u{2304}',
    }
}

/// An icon draws its glyph in its own color.
pub open spec fn icon_runs(i: Icon) -> Seq<RunV> {
    seq![(seq![glyph_of(i.name)], TextStyle { color: cpui_color_opt(i.color), ..crate::text::plain_text_style() })]
}

pub fn icon_to_cpui(i: &Icon) -> (r: StyledText)
    ensures
        run_views(r.runs@) == icon_runs(*i),
{
    let style = TextStyle { color: to_cpui_color_opt(i.color), ..TextStyle::new() };
    let mut runs: Vec<TextRun> = Vec::new();
    let mut text = String::new();
    push_char(&mut text, icon_glyph(i.name));
    assert(text@ =~= seq![glyph_of(i.name)]);
    runs.push(TextRun { text, style });
    assert(run_views(runs@) =~= icon_runs(*i));
    StyledText { runs }
}


pub open spec fn push_box(p: PlanView, kind: BoxKind, parent: Option<int>) -> PlanView {
    PlanView { boxes: p.boxes.push(BoxView { kind, parent, children: Seq::empty() }), ..p }
}

pub open spec fn set_children(p: PlanView, idx: int, kids: Seq<int>) -> PlanView {
    PlanView { boxes: p.boxes.update(idx, BoxView { children: kids, ..p.boxes[idx] }), ..p }
}

/// A text leaf is sized by its wrapped width and height.
pub open spec fn text_kind(runs: Seq<RunV>, wrap: usize) -> BoxKind {
    BoxKind::Text {
        width: wrapped_width(flat_chars(runs), wrap as nat) as usize,
        height: wrapped_height(flat_chars(runs), wrap as nat) as usize,
    }
}

pub open spec fn text_leaf(p: PlanView, runs: Seq<RunV>, wrap: usize, color: Option<Rgba>, parent: Option<int>) -> PlanView {
    let q = push_box(p, text_kind(runs, wrap), parent);
    PlanView { leaves: q.leaves.push(LeafView { node: p.boxes.len() as int, runs, color }), ..q }
}

/// A stack's gap of 0, 1 to 2, or more cells becomes 0, 1 or 2.
pub open spec fn stack_kind(s: Stack) -> BoxKind {
    BoxKind::Flex {
        column: s.axis == Axis::Column,
        gap: if s.gap == 0 { 0 } else if s.gap <= 2 { 1 } else { 2 },
        justify_center: s.justify_center,
        items_center: s.items_center,
    }
}

pub open spec fn container_kind() -> BoxKind {
    BoxKind::Flex { column: false, gap: 0, justify_center: false, items_center: false }
}

pub open spec fn scroll_kind(viewport: Option<u16>, offset: u16) -> BoxKind {
    BoxKind::Scroll {
        viewport_lines: match viewport {
            Some(v) => Some(if v == 0 { 1u16 } else { v }),
            None => None,
        },
        offset_lines: offset,
    }
}

/// The plan `p` extended, depth first, with the boxes of `n` (its own box
/// first), the leaves it draws and the fills it makes; a container's fill
/// comes after those of its descendants.
pub open spec fn build_spec(n: Node, wrap: usize, color: Option<Rgba>, parent: Option<int>, p: PlanView) -> PlanView
    decreases n, 0int,
{
    let idx = p.boxes.len() as int;
    match n {
        Node::Empty => push_box(p, BoxKind::Empty, parent),
        Node::RichText(t) => text_leaf(p, rich_runs(t), wrap, color, parent),
        Node::Icon(i) => text_leaf(p, icon_runs(i), wrap, color, parent),
        Node::TextInput(t) => text_leaf(p, rich_runs_v(input_runs(t, wrap as nat)), wrap, color, parent),
        Node::Container(c) => {
            let cc = match cpui_color_opt(c.style.text_color) {
                Some(x) => Some(x),
                None => color,
            };
            let stage1 = push_box(p, container_kind(), parent);
            let stage2 = build_spec(*c.child, wrap, cc, Some(idx), stage1);
            let stage3 = set_children(stage2, idx, seq![stage1.boxes.len() as int]);
            match c.style.bg {
                Some(b) => PlanView { bgs: stage3.bgs.push((idx, cpui_color(b))), ..stage3 },
                None => stage3,
            }
        },
        Node::ScrollView(v) => {
            let stage1 = push_box(p, scroll_kind(v.viewport_lines, v.offset_lines), parent);
            let stage2 = build_spec(*v.child, wrap, color, Some(idx), stage1);
            set_children(stage2, idx, seq![stage1.boxes.len() as int])
        },
        Node::Stack(st) => {
            let stage1 = push_box(p, stack_kind(st), parent);
            let r = build_children(st.children@, wrap, color, idx, stage1, st.children@.len() as int);
            set_children(r.0, idx, r.1)
        },
    }
}

/// The plan extended with the first k children of a stack at box `idx`,
/// and the boxes of those children.
pub open spec fn build_children(cs: Seq<Node>, wrap: usize, color: Option<Rgba>, idx: int, p: PlanView, k: int) -> (PlanView, Seq<int>)
    decreases cs, k,
{
    if k <= 0 || k > cs.len() {
        (p, Seq::empty())
    } else {
        let r = build_children(cs, wrap, color, idx, p, k - 1);
        (build_spec(cs[k - 1], wrap, color, Some(idx), r.0), r.1.push(r.0.boxes.len() as int))
    }
}

proof fn lemma_build_grows(n: Node, wrap: usize, color: Option<Rgba>, parent: Option<int>, p: PlanView)
    ensures
        build_spec(n, wrap, color, parent, p).boxes.len() > p.boxes.len(),
        build_spec(n, wrap, color, parent, p).boxes[p.boxes.len() as int].parent == parent,
        forall|i: int| 0 <= i < p.boxes.len() ==> #[trigger] build_spec(n, wrap, color, parent, p).boxes[i] == p.boxes[i],
    decreases n, 0int,
{
    let idx = p.boxes.len() as int;
    match n {
        Node::Container(c) => {
            let cc = match cpui_color_opt(c.style.text_color) {
                Some(x) => Some(x),
                None => color,
            };
            let stage1 = push_box(p, container_kind(), parent);
            lemma_build_grows(*c.child, wrap, cc, Some(idx), stage1);
        },
        Node::ScrollView(v) => {
            let stage1 = push_box(p, scroll_kind(v.viewport_lines, v.offset_lines), parent);
            lemma_build_grows(*v.child, wrap, color, Some(idx), stage1);
        },
        Node::Stack(st) => {
            let stage1 = push_box(p, stack_kind(st), parent);
            lemma_children_grow(st.children@, wrap, color, idx, stage1, st.children@.len() as int);
        },
        _ => {},
    }
}

proof fn lemma_children_grow(cs: Seq<Node>, wrap: usize, color: Option<Rgba>, idx: int, p: PlanView, k: int)
    ensures
        build_children(cs, wrap, color, idx, p, k).0.boxes.len() >= p.boxes.len(),
        forall|i: int| 0 <= i < p.boxes.len() ==> #[trigger] build_children(cs, wrap, color, idx, p, k).0.boxes[i] == p.boxes[i],
    decreases cs, k,
{
    if 0 < k <= cs.len() {
        lemma_children_grow(cs, wrap, color, idx, p, k - 1);
        let r = build_children(cs, wrap, color, idx, p, k - 1);
        lemma_build_grows(cs[k - 1], wrap, color, Some(idx), r.0);
    }
}

fn push_box_exec(plan: &mut LayoutPlan, kind: BoxKind, parent: Option<usize>) -> (idx: usize)
    ensures
        final(plan)@ == push_box(old(plan)@, kind, opt_idx(parent)),
        idx == old(plan)@.boxes.len(),
{
    let idx = plan.boxes.len();
    let ghost before = plan@;
    let b = LayoutBox { kind, parent, children: Vec::new() };
    assert(b@.children =~= Seq::<int>::empty());
    plan.boxes.push(b);
    assert(plan@.boxes =~= push_box(before, kind, opt_idx(parent)).boxes);
    idx
}

fn set_children_exec(plan: &mut LayoutPlan, idx: usize, kids: Vec<usize>)
    requires
        idx < old(plan)@.boxes.len(),
    ensures
        final(plan)@ == set_children(old(plan)@, idx as int, kids@.map_values(|c: usize| c as int)),
{
    let ghost before = plan@;
    let kind = plan.boxes[idx].kind;
    let parent = plan.boxes[idx].parent;
    plan.boxes.set(idx, LayoutBox { kind, parent, children: kids });
    assert(plan@.boxes =~= set_children(before, idx as int, kids@.map_values(|c: usize| c as int)).boxes);
}

fn push_text_leaf(plan: &mut LayoutPlan, text: StyledText, wrap: usize, color: Option<Rgba>, parent: Option<usize>)
    ensures
        final(plan)@ == text_leaf(old(plan)@, run_views(text.runs@), wrap, color, opt_idx(parent)),
{
    let width = text.wrapped_width_chars(wrap);
    let height = text.wrapped_height_lines(wrap);
    proof {
        lemma_flat_chars(text.runs@);
    }
    let idx = push_box_exec(plan, BoxKind::Text { width, height }, parent);
    let ghost before = plan@;
    let leaf = TextLeaf { node: idx, text, color };
    plan.leaves.push(leaf);
    assert(plan@.leaves =~= before.leaves.push(leaf@));
}

impl LayoutPlan {
    pub fn new() -> (p: LayoutPlan)
        ensures
            p@.boxes.len() == 0,
            p@.leaves.len() == 0,
            p@.bgs.len() == 0,
    {
        LayoutPlan { boxes: Vec::new(), leaves: Vec::new(), backgrounds: Vec::new() }
    }
}

/// The constraint tree of `node`, text wrapped at `wrap_width` columns.
pub fn build_layout_tree(node: &Node, wrap_width: usize) -> (plan: LayoutPlan)
    ensures
        plan@ == build_spec(*node, wrap_width, None, None, PlanView { boxes: Seq::empty(), leaves: Seq::empty(), bgs: Seq::empty() }),
{
    let mut plan = LayoutPlan::new();
    assert(plan@.boxes =~= Seq::empty());
    assert(plan@.leaves =~= Seq::empty());
    assert(plan@.bgs =~= Seq::empty());
    build_into(node, wrap_width, None, None, &mut plan);
    plan
}

fn build_into(n: &Node, wrap: usize, color: Option<Rgba>, parent: Option<usize>, plan: &mut LayoutPlan)
    ensures
        final(plan)@ == build_spec(*n, wrap, color, opt_idx(parent), old(plan)@),
    decreases *n,
{
    match n {
        Node::Empty => {
            push_box_exec(plan, BoxKind::Empty, parent);
        },
        Node::RichText(t) => {
            push_text_leaf(plan, text_to_cpui(t), wrap, color, parent);
        },
        Node::Icon(i) => {
            push_text_leaf(plan, icon_to_cpui(i), wrap, color, parent);
        },
        Node::TextInput(t) => {
            let rich = t.to_wrapped_rich_text(wrap);
            push_text_leaf(plan, text_to_cpui(&rich), wrap, color, parent);
        },
        Node::Container(c) => {
            let cc = match to_cpui_color_opt(c.style.text_color) {
                Some(x) => Some(x),
                None => color,
            };
            let idx = push_box_exec(plan, BoxKind::Flex { column: false, gap: 0, justify_center: false, items_center: false }, parent);
            let child_idx = plan.boxes.len();
            let ghost stage1 = plan@;
            build_into(&c.child, wrap, cc, Some(idx), plan);
            proof {
                lemma_build_grows(*c.child, wrap, cc, Some(idx as int), stage1);
            }
            let mut kids: Vec<usize> = Vec::new();
            kids.push(child_idx);
            assert(kids@.map_values(|c: usize| c as int) =~= seq![child_idx as int]);
            set_children_exec(plan, idx, kids);
            if let Some(b) = c.style.bg {
                let ghost before = plan@;
                plan.backgrounds.push(BgLeaf { node: idx, bg: to_cpui_color(b) });
                assert(plan@.bgs =~= before.bgs.push((idx as int, cpui_color(b))));
            }
        },
        Node::ScrollView(v) => {
            let vp = match v.viewport_lines {
                Some(l) => Some(if l == 0 { 1u16 } else { l }),
                None => None,
            };
            let idx = push_box_exec(plan, BoxKind::Scroll { viewport_lines: vp, offset_lines: v.offset_lines }, parent);
            let child_idx = plan.boxes.len();
            let ghost stage1 = plan@;
            build_into(&v.child, wrap, color, Some(idx), plan);
            proof {
                lemma_build_grows(*v.child, wrap, color, Some(idx as int), stage1);
            }
            let mut kids: Vec<usize> = Vec::new();
            kids.push(child_idx);
            assert(kids@.map_values(|c: usize| c as int) =~= seq![child_idx as int]);
            set_children_exec(plan, idx, kids);
        },
        Node::Stack(st) => {
            let gap: u16 = if st.gap == 0 { 0 } else if st.gap <= 2 { 1 } else { 2 };
            let kind = BoxKind::Flex {
                column: st.axis == Axis::Column,
                gap,
                justify_center: st.justify_center,
                items_center: st.items_center,
            };
            let idx = push_box_exec(plan, kind, parent);
            let ghost stage1 = plan@;
            let mut kids: Vec<usize> = Vec::new();
            let mut i: usize = 0;
            while i < st.children.len()
                invariant
                    *n == Node::Stack(*st),
                    i <= st.children@.len(),
                    idx < stage1.boxes.len(),
                    (plan@, kids@.map_values(|c: usize| c as int)) == build_children(st.children@, wrap, color, idx as int, stage1, i as int),
                decreases st.children@.len() - i,
            {
                proof {
                    vstd::std_specs::vec::axiom_vec_index_decreases(st.children, i as int);
                    assert(decreases_to!(*n => (*n)->Stack_0));
                    assert(decreases_to!((*n)->Stack_0 => (*n)->Stack_0.children));
                    assert(decreases_to!(st.children => st.children[i as int]));
                }
                let ghost kb = kids@;
                kids.push(plan.boxes.len());
                assert(kids@.map_values(|c: usize| c as int) =~= kb.map_values(|c: usize| c as int).push(plan@.boxes.len() as int));
                build_into(&st.children[i], wrap, color, Some(idx), plan);
                i = i + 1;
            }
            proof {
                lemma_children_grow(st.children@, wrap, color, idx as int, stage1, i as int);
            }
            set_children_exec(plan, idx, kids);
        },
    }
}

} // verus!
