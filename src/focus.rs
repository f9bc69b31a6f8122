use vstd::prelude::*;

verus! {

/// A stable handle that the application gives a focusable node.
#[derive(Clone, Copy, Debug, PartialEq, Eq, Hash, Structural)]
pub struct FocusId(pub u64);

#[derive(Clone, Copy, Debug, PartialEq, Eq, Structural)]
pub enum FocusKind {
    Generic,
    TextInput,
    ScrollRegion,
}

#[derive(Clone, Copy, Debug, PartialEq, Eq, Structural)]
pub enum UiKeyInput {
    Tab,
    BackTab,
    Left,
    Right,
    WordLeft,
    WordRight,
    Up,
    Down,
    PageUp,
    PageDown,
    Home,
    End,
    Backspace,
    BackspaceWord,
    Delete,
    Enter,
    Submit,
    Esc,
    Interrupt,
    Char(char),
}

#[derive(Clone, Copy, Debug, PartialEq, Eq, Structural)]
pub enum UiInputEvent {
    Key(UiKeyInput),
    ScrollLines(i16),
}

/// What a navigation call did with an event.
#[derive(Clone, Copy, Debug, PartialEq, Eq, Structural)]
pub enum FocusNavOutcome {
    Ignored,
    Handled,
    RequestQuit,
}

/// The child-slot indices from the root to a focusable node.
#[derive(Clone, Debug, Hash)]
pub struct FocusPath(pub Vec<usize>);

impl View for FocusPath {
    type V = Seq<usize>;

    open spec fn view(&self) -> Seq<usize> {
        self.0@
    }
}

impl PartialEq for FocusPath {
    fn eq(&self, o: &FocusPath) -> (r: bool) {
        same_path(&self.0, &o.0)
    }
}

impl Eq for FocusPath {}

impl vstd::std_specs::cmp::PartialEqSpecImpl for FocusPath {
    open spec fn obeys_eq_spec() -> bool {
        true
    }

    open spec fn eq_spec(&self, o: &FocusPath) -> bool {
        self@ == o@
    }
}

/// Whether two index sequences are equal.
pub fn same_path(a: &Vec<usize>, b: &Vec<usize>) -> (r: bool)
    ensures
        r == (a@ == b@),
{
    if a.len() != b.len() {
        return false;
    }
    let mut i: usize = 0;
    while i < a.len()
        invariant
            a@.len() == b@.len(),
            i <= a@.len(),
            a@.take(i as int) == b@.take(i as int),
        decreases a@.len() - i,
    {
        if a[i] != b[i] {
            assert(a@.take(i as int + 1)[i as int] != b@.take(i as int + 1)[i as int]);
            return false;
        }
        assert(a@.take(i as int + 1) =~= a@.take(i as int).push(a@[i as int]));
        assert(b@.take(i as int + 1) =~= b@.take(i as int).push(b@[i as int]));
        i = i + 1;
    }
    assert(a@ =~= a@.take(i as int));
    assert(b@ =~= b@.take(i as int));
    true
}

/// Copies an index sequence.
pub fn copy_path(a: &Vec<usize>) -> (r: Vec<usize>)
    ensures
        r@ == a@,
{
    let mut r: Vec<usize> = Vec::new();
    let mut i: usize = 0;
    while i < a.len()
        invariant
            i <= a@.len(),
            r@ == a@.take(i as int),
        decreases a@.len() - i,
    {
        r.push(a[i]);
        i = i + 1;
        assert(r@ =~= a@.take(i as int));
    }
    assert(a@ =~= a@.take(i as int));
    r
}

impl FocusPath {
    pub fn duplicate(&self) -> (r: FocusPath)
        ensures
            r@ == self@,
    {
        FocusPath(copy_path(&self.0))
    }
}

/// One focusable node of a frame.
#[derive(Clone, Debug)]
pub struct FocusEntry {
    pub id: FocusId,
    pub path: FocusPath,
    pub kind: FocusKind,
}

pub struct EntryView {
    pub id: FocusId,
    pub path: Seq<usize>,
    pub kind: FocusKind,
}

impl View for FocusEntry {
    type V = EntryView;

    open spec fn view(&self) -> EntryView {
        EntryView { id: self.id, path: self.path@, kind: self.kind }
    }
}

pub open spec fn entries_view(v: Seq<FocusEntry>) -> Seq<EntryView> {
    v.map_values(|e: FocusEntry| e@)
}

impl FocusEntry {
    pub fn duplicate(&self) -> (r: FocusEntry)
        ensures
            r@ == self@,
    {
        FocusEntry { id: self.id, path: self.path.duplicate(), kind: self.kind }
    }
}

} // verus!
