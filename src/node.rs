use vstd::prelude::*;
use crate::focus::{copy_path, entries_view, EntryView, FocusEntry, FocusId, FocusKind, FocusPath};
use crate::style::{BoxStyle, Rgb, TextStyle};

verus! {

#[derive(Clone, Copy, Debug, PartialEq, Eq, Structural)]
pub enum Axis {
    Row,
    Column,
}

/// Children laid out along an axis with a gap between them.
#[derive(Debug)]
pub struct Stack {
    pub axis: Axis,
    pub gap: u8,
    pub justify_center: bool,
    pub items_center: bool,
    pub children: Vec<Node>,
}

impl Stack {
    pub fn new(axis: Axis) -> (s: Stack)
        ensures
            s.axis == axis,
            s.gap == 0,
            !s.justify_center,
            !s.items_center,
            s.children@.len() == 0,
    {
        Stack { axis, gap: 0, justify_center: false, items_center: false, children: Vec::new() }
    }
}

/// A single child with a fill and an inherited text color.
#[derive(Debug)]
pub struct Container {
    pub style: BoxStyle,
    pub focus_id: Option<FocusId>,
    pub child: Box<Node>,
}

/// A single child seen through a window of `viewport_lines` rows, scrolled
/// down by `offset_lines`.
#[derive(Debug)]
pub struct ScrollView {
    pub focus_id: Option<FocusId>,
    pub viewport_lines: Option<u16>,
    pub offset_lines: u16,
    pub child: Box<Node>,
}

#[derive(Clone, Debug)]
pub struct TextRun {
    pub text: String,
    pub style: TextStyle,
}

#[derive(Clone, Debug)]
pub struct RichText {
    pub runs: Vec<TextRun>,
}

impl RichText {
    pub fn plain(text: &str) -> (r: RichText)
        ensures
            r.runs@.len() == 1,
            r.runs@[0].text@ == text@,
            r.runs@[0].style == crate::style::plain_style(),
    {
        let mut runs: Vec<TextRun> = Vec::new();
        runs.push(TextRun { text: text.to_owned(), style: TextStyle::new() });
        RichText { runs }
    }
}

#[derive(Clone, Copy, Debug, PartialEq, Eq, Hash, Structural)]
pub enum IconName {
    Search,
    Send,
    Robot,
    Info,
    Warning,
    Error,
    Check,
    ChevronRight,
    ChevronDown,
}

#[derive(Clone, Debug)]
pub struct Icon {
    pub name: IconName,
    pub color: Option<Rgb>,
    pub asset_path: Option<String>,
}

/// An editable text field as the frame shows it.
#[derive(Clone, Debug)]
pub struct TextInput {
    pub focus_id: Option<FocusId>,
    pub value: String,
    pub placeholder: Option<String>,
    pub cursor: usize,
    pub focused: bool,
    pub gutter_highlighted: bool,
    pub visible_offset_lines: u16,
}

/// The declarative tree that the application builds for one frame.
#[derive(Debug)]
pub enum Node {
    Stack(Stack),
    Container(Container),
    ScrollView(ScrollView),
    RichText(RichText),
    Icon(Icon),
    TextInput(TextInput),
    Empty,
}

pub open spec fn entry(id: FocusId, path: Seq<usize>, kind: FocusKind) -> EntryView {
    EntryView { id, path, kind }
}

/// The focusable nodes of a tree in depth-first order, a node before its
/// descendants; `path` is the position of `n`. A stack's child i is at slot
/// i, the child of a container or scroll view at slot 0.
pub open spec fn node_entries(n: Node, path: Seq<usize>) -> Seq<EntryView>
    decreases n, 0int,
{
    match n {
        Node::Stack(s) => children_entries(s.children@, path, s.children@.len() as int),
        Node::Container(c) => {
            let own = match c.focus_id {
                Some(id) => seq![entry(id, path, FocusKind::Generic)],
                None => Seq::empty(),
            };
            own + node_entries(*c.child, path.push(0))
        },
        Node::ScrollView(s) => {
            let own = match s.focus_id {
                Some(id) => seq![entry(id, path, FocusKind::ScrollRegion)],
                None => Seq::empty(),
            };
            own + node_entries(*s.child, path.push(0))
        },
        Node::TextInput(t) => match t.focus_id {
            Some(id) => seq![entry(id, path, FocusKind::TextInput)],
            None => Seq::empty(),
        },
        _ => Seq::empty(),
    }
}

/// The entries of the first k children of a stack at `path`.
pub open spec fn children_entries(cs: Seq<Node>, path: Seq<usize>, k: int) -> Seq<EntryView>
    decreases cs, k,
{
    if k <= 0 || k > cs.len() {
        Seq::empty()
    } else {
        children_entries(cs, path, k - 1) + node_entries(cs[k - 1], path.push((k - 1) as usize))
    }
}

impl Node {
    /// The focusable nodes of the tree, in tab order.
    pub fn collect_focus_entries(&self, out: &mut Vec<FocusEntry>)
        ensures
            entries_view(final(out)@) == entries_view(old(out)@) + node_entries(*self, Seq::empty()),
    {
        let mut path: Vec<usize> = Vec::new();
        self.collect_focus_entries_inner(out, &mut path);
    }

    /// The ids of the focusable nodes, in tab order.
    pub fn collect_focus_ids(&self, out: &mut Vec<FocusId>)
        ensures
            final(out)@ == old(out)@ + node_entries(*self, Seq::empty()).map_values(|e: EntryView| e.id),
    {
        let mut entries: Vec<FocusEntry> = Vec::new();
        self.collect_focus_entries(&mut entries);
        let ghost es = node_entries(*self, Seq::empty());
        assert(entries_view(entries@) =~= es);
        let mut i: usize = 0;
        while i < entries.len()
            invariant
                i <= entries@.len(),
                entries_view(entries@) == es,
                out@ == old(out)@ + es.take(i as int).map_values(|e: EntryView| e.id),
            decreases entries@.len() - i,
        {
            assert(entries_view(entries@)[i as int] == entries@[i as int]@);
            out.push(entries[i].id);
            i = i + 1;
            assert(es.take(i as int).map_values(|e: EntryView| e.id) =~= es.take(i as int - 1).map_values(|e: EntryView| e.id).push(es[i as int - 1].id));
        }
        assert(es.take(i as int) =~= es);
    }

    fn collect_focus_entries_inner(&self, out: &mut Vec<FocusEntry>, path: &mut Vec<usize>)
        ensures
            entries_view(final(out)@) == entries_view(old(out)@) + node_entries(*self, old(path)@),
            final(path)@ == old(path)@,
        decreases *self,
    {
        let ghost stage0 = path@;
        let ghost o0 = entries_view(out@);
        match self {
            Node::Stack(stack) => {
                let mut i: usize = 0;
                while i < stack.children.len()
                    invariant
                        *self == Node::Stack(*stack),
                        path@ == stage0,
                        i <= stack.children@.len(),
                        entries_view(out@) == o0 + children_entries(stack.children@, stage0, i as int),
                    decreases stack.children@.len() - i,
                {
                    path.push(i);
                    let ghost before = entries_view(out@);
                    proof {
                        vstd::std_specs::vec::axiom_vec_index_decreases(stack.children, i as int);
                        assert(decreases_to!(*self => (*self)->Stack_0));
                        assert(decreases_to!((*self)->Stack_0 => (*self)->Stack_0.children));
                        assert(decreases_to!(stack.children => stack.children[i as int]));
                    }
                    stack.children[i].collect_focus_entries_inner(out, path);
                    path.pop();
                    assert(path@ =~= stage0);
                    assert(children_entries(stack.children@, stage0, i as int + 1) == children_entries(stack.children@, stage0, i as int) + node_entries(stack.children@[i as int], stage0.push(i)));
                    assert(entries_view(out@) =~= o0 + children_entries(stack.children@, stage0, i as int + 1));
                    i = i + 1;
                }
            },
            Node::Container(container) => {
                if let Some(id) = container.focus_id {
                    let ghost before = out@;
                    out.push(FocusEntry { id, path: FocusPath(copy_path(path)), kind: FocusKind::Generic });
                    assert(entries_view(out@) =~= entries_view(before).push(entry(id, stage0, FocusKind::Generic)));
                }
                let ghost mid = entries_view(out@);
                path.push(0);
                container.child.collect_focus_entries_inner(out, path);
                path.pop();
                assert(path@ =~= stage0);
                assert(entries_view(out@) =~= o0 + node_entries(*self, stage0));
            },
            Node::ScrollView(scroll) => {
                if let Some(id) = scroll.focus_id {
                    let ghost before = out@;
                    out.push(FocusEntry { id, path: FocusPath(copy_path(path)), kind: FocusKind::ScrollRegion });
                    assert(entries_view(out@) =~= entries_view(before).push(entry(id, stage0, FocusKind::ScrollRegion)));
                }
                path.push(0);
                scroll.child.collect_focus_entries_inner(out, path);
                path.pop();
                assert(path@ =~= stage0);
                assert(entries_view(out@) =~= o0 + node_entries(*self, stage0));
            },
            Node::TextInput(input) => {
                if let Some(id) = input.focus_id {
                    let ghost before = out@;
                    out.push(FocusEntry { id, path: FocusPath(copy_path(path)), kind: FocusKind::TextInput });
                    assert(entries_view(out@) =~= entries_view(before).push(entry(id, stage0, FocusKind::TextInput)));
                }
                assert(entries_view(out@) =~= o0 + node_entries(*self, stage0));
            },
            _ => {
                assert(entries_view(out@) =~= o0 + node_entries(*self, stage0));
            },
        }
    }
}

} // verus!
