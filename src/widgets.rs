use vstd::prelude::*;
use crate::focus::FocusId;
use crate::node::{Axis, Container, Icon, IconName, Node, RichText, ScrollView, Stack, TextInput, TextRun};
use crate::style::{BoxStyle, Rgb, TextStyle};
use crate::text_input::TextInputState;

verus! {

/// What a builder turns into.
pub trait IntoNode: Sized {
    fn into_node(self) -> Node;
}

impl IntoNode for Node {
    fn into_node(self) -> Node {
        self
    }
}

pub struct TextWidget {
    inner: RichText,
}

impl TextWidget {
    pub closed spec fn runs(&self) -> Seq<TextRun> {
        self.inner.runs@
    }

    pub fn new(text: &str) -> (w: TextWidget)
        ensures
            w.runs().len() == 1,
            w.runs()[0].text@ == text@,
            w.runs()[0].style == crate::style::plain_style(),
    {
        TextWidget { inner: RichText::plain(text) }
    }

    pub fn run(self, text: &str, style: TextStyle) -> (w: TextWidget)
        ensures
            w.runs().len() == self.runs().len() + 1,
            w.runs().drop_last() == self.runs(),
            w.runs().last().text@ == text@,
            w.runs().last().style == style,
    {
        let mut inner = self.inner;
        inner.runs.push(TextRun { text: text.to_owned(), style });
        assert(inner.runs@.drop_last() =~= self.runs());
        TextWidget { inner }
    }

    pub fn build(self) -> (n: Node)
        ensures
            n matches Node::RichText(t) && t.runs@ == self.runs(),
    {
        Node::RichText(self.inner)
    }
}

impl IntoNode for TextWidget {
    fn into_node(self) -> Node {
        self.build()
    }
}

pub fn text(content: &str) -> (w: TextWidget)
    ensures
        w.runs().len() == 1,
        w.runs()[0].text@ == content@,
        w.runs()[0].style == crate::style::plain_style(),
{
    TextWidget::new(content)
}

pub struct IconWidget {
    inner: Icon,
}

impl IconWidget {
    pub closed spec fn icon(&self) -> Icon {
        self.inner
    }

    pub fn new(name: IconName) -> (w: IconWidget)
        ensures
            w.icon().name == name,
            w.icon().color is None,
            w.icon().asset_path is None,
    {
        IconWidget { inner: Icon { name, color: None, asset_path: None } }
    }

    pub fn color(self, color: Rgb) -> (w: IconWidget)
        ensures
            w.icon() == (Icon { color: Some(color), ..self.icon() }),
    {
        IconWidget { inner: Icon { color: Some(color), ..self.inner } }
    }

    pub fn asset_path(self, path: &str) -> (w: IconWidget)
        ensures
            w.icon().name == self.icon().name,
            w.icon().color == self.icon().color,
            w.icon().asset_path matches Some(p) && p@ == path@,
    {
        IconWidget { inner: Icon { asset_path: Some(path.to_owned()), ..self.inner } }
    }

    pub fn build(self) -> (n: Node)
        ensures
            n == Node::Icon(self.icon()),
    {
        Node::Icon(self.inner)
    }
}

impl IntoNode for IconWidget {
    fn into_node(self) -> Node {
        self.build()
    }
}

pub fn icon(name: IconName) -> (w: IconWidget)
    ensures
        w.icon().name == name,
        w.icon().color is None,
        w.icon().asset_path is None,
{
    IconWidget::new(name)
}

pub struct StackWidget {
    inner: Stack,
}

impl StackWidget {
    pub closed spec fn stack(&self) -> Stack {
        self.inner
    }

    pub fn row() -> (w: StackWidget)
        ensures
            w.stack().axis == Axis::Row,
            w.stack().gap == 0,
            !w.stack().justify_center,
            !w.stack().items_center,
            w.stack().children@.len() == 0,
    {
        StackWidget { inner: Stack::new(Axis::Row) }
    }

    pub fn column() -> (w: StackWidget)
        ensures
            w.stack().axis == Axis::Column,
            w.stack().gap == 0,
            !w.stack().justify_center,
            !w.stack().items_center,
            w.stack().children@.len() == 0,
    {
        StackWidget { inner: Stack::new(Axis::Column) }
    }

    pub fn gap(self, gap: u8) -> (w: StackWidget)
        ensures
            w.stack() == (Stack { gap, ..self.stack() }),
    {
        StackWidget { inner: Stack { gap, ..self.inner } }
    }

    pub fn justify_center(self) -> (w: StackWidget)
        ensures
            w.stack() == (Stack { justify_center: true, ..self.stack() }),
    {
        StackWidget { inner: Stack { justify_center: true, ..self.inner } }
    }

    pub fn items_center(self) -> (w: StackWidget)
        ensures
            w.stack() == (Stack { items_center: true, ..self.stack() }),
    {
        StackWidget { inner: Stack { items_center: true, ..self.inner } }
    }

    /// Appends a child node.
    pub fn child_node(self, child: Node) -> (w: StackWidget)
        ensures
            w.stack().axis == self.stack().axis,
            w.stack().gap == self.stack().gap,
            w.stack().justify_center == self.stack().justify_center,
            w.stack().items_center == self.stack().items_center,
            w.stack().children@ == self.stack().children@.push(child),
    {
        let mut inner = self.inner;
        inner.children.push(child);
        StackWidget { inner }
    }

    pub fn child<T: IntoNode>(self, child: T) -> (w: StackWidget)
        ensures
            w.stack().children@.len() == self.stack().children@.len() + 1,
            w.stack().children@.drop_last() == self.stack().children@,
    {
        let w = self.child_node(child.into_node());
        assert(w.stack().children@.drop_last() =~= self.stack().children@);
        w
    }

    pub fn build(self) -> (n: Node)
        ensures
            n == Node::Stack(self.stack()),
    {
        Node::Stack(self.inner)
    }
}

impl IntoNode for StackWidget {
    fn into_node(self) -> Node {
        self.build()
    }
}

pub fn row() -> (w: StackWidget)
    ensures
        w.stack().axis == Axis::Row,
        w.stack().children@.len() == 0,
{
    StackWidget::row()
}

pub fn column() -> (w: StackWidget)
    ensures
        w.stack().axis == Axis::Column,
        w.stack().children@.len() == 0,
{
    StackWidget::column()
}

pub struct ContainerWidget {
    style: BoxStyle,
    focus_id: Option<FocusId>,
    child: Node,
}

impl ContainerWidget {
    pub closed spec fn parts(&self) -> (BoxStyle, Option<FocusId>, Node) {
        (self.style, self.focus_id, self.child)
    }

    pub fn new_node(child: Node) -> (w: ContainerWidget)
        ensures
            w.parts() == (BoxStyle { bg: None, text_color: None }, None::<FocusId>, child),
    {
        ContainerWidget { style: BoxStyle::new(), focus_id: None, child }
    }

    pub fn new<T: IntoNode>(child: T) -> (w: ContainerWidget)
        ensures
            w.parts().0 == (BoxStyle { bg: None, text_color: None }),
            w.parts().1 is None,
    {
        ContainerWidget::new_node(child.into_node())
    }

    pub fn style(self, style: BoxStyle) -> (w: ContainerWidget)
        ensures
            w.parts() == (style, self.parts().1, self.parts().2),
    {
        ContainerWidget { style, ..self }
    }

    pub fn focus(self, focus_id: FocusId) -> (w: ContainerWidget)
        ensures
            w.parts() == (self.parts().0, Some(focus_id), self.parts().2),
    {
        ContainerWidget { focus_id: Some(focus_id), ..self }
    }

    pub fn build(self) -> (n: Node)
        ensures
            n matches Node::Container(c) && c.style == self.parts().0 && c.focus_id == self.parts().1 && *c.child == self.parts().2,
    {
        Node::Container(Container { style: self.style, focus_id: self.focus_id, child: Box::new(self.child) })
    }
}

impl IntoNode for ContainerWidget {
    fn into_node(self) -> Node {
        self.build()
    }
}

pub fn container<T: IntoNode>(child: T) -> (w: ContainerWidget)
    ensures
        w.parts().0 == (BoxStyle { bg: None, text_color: None }),
        w.parts().1 is None,
{
    ContainerWidget::new(child)
}

pub struct ScrollViewWidget {
    inner: ScrollView,
}

impl ScrollViewWidget {
    pub closed spec fn view(&self) -> ScrollView {
        self.inner
    }

    pub fn new_node(child: Node) -> (w: ScrollViewWidget)
        ensures
            w.view().focus_id is None,
            w.view().viewport_lines is None,
            w.view().offset_lines == 0,
            *w.view().child == child,
    {
        ScrollViewWidget { inner: ScrollView { focus_id: None, viewport_lines: None, offset_lines: 0, child: Box::new(child) } }
    }

    pub fn new<T: IntoNode>(child: T) -> (w: ScrollViewWidget)
        ensures
            w.view().focus_id is None,
            w.view().viewport_lines is None,
            w.view().offset_lines == 0,
    {
        ScrollViewWidget::new_node(child.into_node())
    }

    /// A window of `lines` rows, at least one.
    pub fn viewport_lines(self, lines: u16) -> (w: ScrollViewWidget)
        ensures
            w.view() == (ScrollView { viewport_lines: Some(if lines >= 1 { lines } else { 1 }), ..self.view() }),
    {
        ScrollViewWidget { inner: ScrollView { viewport_lines: Some(if lines >= 1 { lines } else { 1 }), ..self.inner } }
    }

    pub fn offset_lines(self, lines: u16) -> (w: ScrollViewWidget)
        ensures
            w.view() == (ScrollView { offset_lines: lines, ..self.view() }),
    {
        ScrollViewWidget { inner: ScrollView { offset_lines: lines, ..self.inner } }
    }

    pub fn focus(self, focus_id: FocusId) -> (w: ScrollViewWidget)
        ensures
            w.view() == (ScrollView { focus_id: Some(focus_id), ..self.view() }),
    {
        ScrollViewWidget { inner: ScrollView { focus_id: Some(focus_id), ..self.inner } }
    }

    pub fn build(self) -> (n: Node)
        ensures
            n == Node::ScrollView(self.view()),
    {
        Node::ScrollView(self.inner)
    }
}

impl IntoNode for ScrollViewWidget {
    fn into_node(self) -> Node {
        self.build()
    }
}

pub fn scroll_view<T: IntoNode>(child: T) -> (w: ScrollViewWidget)
    ensures
        w.view().viewport_lines is None,
        w.view().offset_lines == 0,
{
    ScrollViewWidget::new(child)
}


pub struct TextInputWidget {
    inner: TextInput,
}

impl TextInputWidget {
    pub closed spec fn input(&self) -> TextInput {
        self.inner
    }

    /// A field showing `value` with the cursor at its end.
    pub fn new(value: &str) -> (w: TextInputWidget)
        ensures
            w.input().value@ == value@,
            w.input().cursor == value@.len(),
            w.input().focus_id is None,
            w.input().placeholder is None,
            !w.input().focused,
            !w.input().gutter_highlighted,
            w.input().visible_offset_lines == 0,
    {
        let value = value.to_owned();
        let cursor = value.as_str().unicode_len();
        TextInputWidget {
            inner: TextInput {
                focus_id: None,
                value,
                placeholder: None,
                cursor,
                focused: false,
                gutter_highlighted: false,
                visible_offset_lines: 0,
            },
        }
    }

    /// A field showing an editing state's value and cursor.
    pub fn from_state(state: &TextInputState) -> (w: TextInputWidget)
        ensures
            w.input().value@ == state@.value,
            w.input().cursor as nat == state@.cursor,
            w.input().focus_id is None,
            w.input().placeholder is None,
            !w.input().focused,
            w.input().visible_offset_lines == 0,
    {
        TextInputWidget {
            inner: TextInput {
                focus_id: None,
                value: state.value().to_owned(),
                placeholder: None,
                cursor: state.cursor(),
                focused: false,
                gutter_highlighted: false,
                visible_offset_lines: 0,
            },
        }
    }

    pub fn placeholder(self, placeholder: &str) -> (w: TextInputWidget)
        ensures
            w.input().placeholder matches Some(p) && p@ == placeholder@,
            w.input().value == self.input().value,
            w.input().cursor == self.input().cursor,
            w.input().focus_id == self.input().focus_id,
            w.input().focused == self.input().focused,
    {
        TextInputWidget { inner: TextInput { placeholder: Some(placeholder.to_owned()), ..self.inner } }
    }

    pub fn cursor(self, cursor: usize) -> (w: TextInputWidget)
        ensures
            w.input() == (TextInput { cursor, ..self.input() }),
    {
        TextInputWidget { inner: TextInput { cursor, ..self.inner } }
    }

    pub fn focused(self, focused: bool) -> (w: TextInputWidget)
        ensures
            w.input() == (TextInput { focused, ..self.input() }),
    {
        TextInputWidget { inner: TextInput { focused, ..self.inner } }
    }

    pub fn focus(self, focus_id: FocusId) -> (w: TextInputWidget)
        ensures
            w.input() == (TextInput { focus_id: Some(focus_id), ..self.input() }),
    {
        TextInputWidget { inner: TextInput { focus_id: Some(focus_id), ..self.inner } }
    }

    pub fn gutter_highlighted(self, on: bool) -> (w: TextInputWidget)
        ensures
            w.input() == (TextInput { gutter_highlighted: on, ..self.input() }),
    {
        TextInputWidget { inner: TextInput { gutter_highlighted: on, ..self.inner } }
    }

    pub fn visible_offset_lines(self, lines: u16) -> (w: TextInputWidget)
        ensures
            w.input() == (TextInput { visible_offset_lines: lines, ..self.input() }),
    {
        TextInputWidget { inner: TextInput { visible_offset_lines: lines, ..self.inner } }
    }

    pub fn build(self) -> (n: Node)
        ensures
            n == Node::TextInput(self.input()),
    {
        Node::TextInput(self.inner)
    }
}

impl IntoNode for TextInputWidget {
    fn into_node(self) -> Node {
        self.build()
    }
}

pub fn text_input(value: &str) -> (w: TextInputWidget)
    ensures
        w.input().value@ == value@,
        w.input().cursor == value@.len(),
{
    TextInputWidget::new(value)
}

pub fn text_input_from_state(state: &TextInputState) -> (w: TextInputWidget)
    ensures
        w.input().value@ == state@.value,
        w.input().cursor as nat == state@.cursor,
{
    TextInputWidget::from_state(state)
}

} // verus!
