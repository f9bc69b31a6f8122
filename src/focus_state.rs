use vstd::prelude::*;
use crate::focus::{
    copy_path, entries_view, same_path, EntryView, FocusEntry, FocusId, FocusKind, FocusNavOutcome, FocusPath,
    UiInputEvent, UiKeyInput,
};

verus! {

/// How long an armed quit confirmation stays armed, in milliseconds.
pub const QUIT_WINDOW_MS: u64 = 2000;

/// Focus that survives from frame to frame.
pub struct FocusState {
    focused: Option<FocusId>,
    focused_path: Option<FocusPath>,
    last_child_by_parent: Vec<(FocusPath, FocusPath)>,
    quit_armed: bool,
    quit_armed_at: Option<u64>,
}

/// The mathematical state: focused id and path, the remembered child path of
/// each scroll region, and the quit confirmation with the time it was armed.
pub struct FocusView {
    pub focused: Option<FocusId>,
    pub path: Option<Seq<usize>>,
    pub memory: Seq<(Seq<usize>, Seq<usize>)>,
    pub quit_armed: bool,
    pub armed_at: Option<u64>,
}

pub open spec fn path_opt(p: Option<FocusPath>) -> Option<Seq<usize>> {
    match p {
        Some(q) => Some(q@),
        None => None,
    }
}

impl View for FocusState {
    type V = FocusView;

    closed spec fn view(&self) -> FocusView {
        FocusView {
            focused: self.focused,
            path: path_opt(self.focused_path),
            memory: self.last_child_by_parent@.map_values(|kv: (FocusPath, FocusPath)| (kv.0@, kv.1@)),
            quit_armed: self.quit_armed,
            armed_at: self.quit_armed_at,
        }
    }
}

/// The first index whose entry has path `p`.
pub open spec fn find_path(es: Seq<EntryView>, p: Seq<usize>) -> Option<int>
    decreases es.len(),
{
    if es.len() == 0 {
        None
    } else {
        match find_path(es.drop_last(), p) {
            Some(i) => Some(i),
            None => if es.last().path == p { Some(es.len() - 1) } else { None },
        }
    }
}

/// The first index whose entry has id `id`.
pub open spec fn find_id(es: Seq<EntryView>, id: FocusId) -> Option<int>
    decreases es.len(),
{
    if es.len() == 0 {
        None
    } else {
        match find_id(es.drop_last(), id) {
            Some(i) => Some(i),
            None => if es.last().id == id { Some(es.len() - 1) } else { None },
        }
    }
}

/// The value remembered for key `k`, the latest one written.
pub open spec fn recall(m: Seq<(Seq<usize>, Seq<usize>)>, k: Seq<usize>) -> Option<Seq<usize>>
    decreases m.len(),
{
    if m.len() == 0 {
        None
    } else if m.last().0 == k {
        Some(m.last().1)
    } else {
        recall(m.drop_last(), k)
    }
}

/// The first index of key `k` among the first n remembered pairs.
pub open spec fn find_key(m: Seq<(Seq<usize>, Seq<usize>)>, k: Seq<usize>, n: int) -> Option<int>
    decreases n,
{
    if n <= 0 || n > m.len() {
        None
    } else {
        match find_key(m, k, n - 1) {
            Some(i) => Some(i),
            None => if m[n - 1].0 == k { Some(n - 1) } else { None },
        }
    }
}

/// Remembers `v` under `k`, replacing what was remembered under it.
pub open spec fn remember(m: Seq<(Seq<usize>, Seq<usize>)>, k: Seq<usize>, v: Seq<usize>) -> Seq<(Seq<usize>, Seq<usize>)> {
    match find_key(m, k, m.len() as int) {
        Some(i) => m.update(i, (k, v)),
        None => m.push((k, v)),
    }
}

/// The index of the focused entry: by remembered path first, then by id.
pub open spec fn current_index(s: FocusView, es: Seq<EntryView>) -> Option<int> {
    let by_path = match s.path {
        Some(p) => find_path(es, p),
        None => None,
    };
    match by_path {
        Some(i) => Some(i),
        None => match s.focused {
            Some(id) => find_id(es, id),
            None => None,
        },
    }
}

pub open spec fn focus_on(s: FocusView, e: EntryView) -> FocusView {
    FocusView { focused: Some(e.id), path: Some(e.path), ..s }
}

pub open spec fn cleared(s: FocusView) -> FocusView {
    FocusView { focused: None, path: None, memory: Seq::empty(), quit_armed: false, armed_at: None }
}

/// The state after reconciling focus with a new frame's entries.
pub open spec fn reconciled(s: FocusView, es: Seq<EntryView>) -> FocusView {
    if es.len() == 0 {
        FocusView { focused: None, path: None, ..s }
    } else {
        let by_path = match s.path {
            Some(p) => find_path(es, p),
            None => None,
        };
        match by_path {
            Some(i) => FocusView { focused: Some(es[i].id), ..s },
            None => {
                let by_id = match s.focused {
                    Some(id) => find_id(es, id),
                    None => None,
                };
                match by_id {
                    Some(j) => focus_on(s, es[j]),
                    None => focus_on(s, es[0]),
                }
            },
        }
    }
}

/// The state after moving to the next entry in tab order, cyclically.
pub open spec fn next_focus(s: FocusView, es: Seq<EntryView>) -> FocusView {
    if es.len() == 0 {
        cleared(s)
    } else {
        let k = match current_index(s, es) {
            Some(i) => i,
            None => 0,
        };
        focus_on(s, es[(k + 1) % (es.len() as int)])
    }
}

/// The state after moving to the previous entry in tab order, cyclically.
pub open spec fn prev_focus(s: FocusView, es: Seq<EntryView>) -> FocusView {
    if es.len() == 0 {
        cleared(s)
    } else {
        let k = match current_index(s, es) {
            Some(i) if i > 0 => i - 1,
            _ => es.len() - 1,
        };
        focus_on(s, es[k])
    }
}

/// `a` is `p` followed by at least one more slot.
pub open spec fn strictly_under(a: Seq<usize>, p: Seq<usize>) -> bool {
    a.len() > p.len() && a.take(p.len() as int) == p
}

/// Lexicographic comparison from index i on, a proper prefix first.
pub open spec fn lex_from(a: Seq<usize>, b: Seq<usize>, i: int) -> bool
    decreases a.len() - i,
{
    if i < 0 {
        false
    } else if i >= a.len() {
        b.len() > i
    } else if i >= b.len() {
        false
    } else if a[i] != b[i] {
        a[i] < b[i]
    } else {
        lex_from(a, b, i + 1)
    }
}

/// Lexicographic order on paths, a proper prefix first.
pub open spec fn lex_lt(a: Seq<usize>, b: Seq<usize>) -> bool {
    lex_from(a, b, 0)
}

/// Shallower first, then lexicographically smaller.
pub open spec fn topo_lt(a: Seq<usize>, b: Seq<usize>) -> bool {
    a.len() < b.len() || (a.len() == b.len() && lex_lt(a, b))
}

/// Among the first n entries strictly under `p`, the index of the
/// topologically first one; of equal paths the earliest.
pub open spec fn first_under(es: Seq<EntryView>, p: Seq<usize>, n: int) -> Option<int>
    decreases n,
{
    if n <= 0 || n > es.len() {
        None
    } else {
        let best = first_under(es, p, n - 1);
        if strictly_under(es[n - 1].path, p) && (match best {
            None => true,
            Some(b) => topo_lt(es[n - 1].path, es[b].path),
        }) {
            Some(n - 1)
        } else {
            best
        }
    }
}

/// Entry `e` shares the parent of, and has the depth of, the path `c`.
pub open spec fn is_sibling(e: Seq<usize>, c: Seq<usize>) -> bool {
    e.len() == c.len() && c.len() > 0 && e.take(c.len() - 1) == c.take(c.len() - 1)
}

/// Among the first n entries, the sibling of `c` whose last slot is the
/// least one above `slot` (`above`), or the least one overall.
pub open spec fn sibling_pick(es: Seq<EntryView>, c: Seq<usize>, slot: usize, above: bool, n: int) -> Option<int>
    decreases n,
{
    if n <= 0 || n > es.len() {
        None
    } else {
        let best = sibling_pick(es, c, slot, above, n - 1);
        let e = es[n - 1].path;
        if is_sibling(e, c) && (!above || e.last() > slot) && (match best {
            None => true,
            Some(b) => e.last() < es[b].path.last(),
        }) {
            Some(n - 1)
        } else {
            best
        }
    }
}

/// Among the first n entries, the sibling of `c` whose last slot is the
/// greatest one below `slot` (`below`), or the greatest one overall.
pub open spec fn sibling_pick_rev(es: Seq<EntryView>, c: Seq<usize>, slot: usize, below: bool, n: int) -> Option<int>
    decreases n,
{
    if n <= 0 || n > es.len() {
        None
    } else {
        let best = sibling_pick_rev(es, c, slot, below, n - 1);
        let e = es[n - 1].path;
        if is_sibling(e, c) && (!below || e.last() < slot) && (match best {
            None => true,
            Some(b) => e.last() > es[b].path.last(),
        }) {
            Some(n - 1)
        } else {
            best
        }
    }
}

/// The number of siblings of `c` (itself included) among the first n entries.
pub open spec fn sibling_count(es: Seq<EntryView>, c: Seq<usize>, n: int) -> nat
    decreases n,
{
    if n <= 0 || n > es.len() {
        0
    } else {
        sibling_count(es, c, n - 1) + if is_sibling(es[n - 1].path, c) { 1nat } else { 0nat }
    }
}

/// The sibling that a sibling move reaches, cyclically in slot order.
pub open spec fn sibling_target(es: Seq<EntryView>, c: Seq<usize>, next: bool) -> Option<int> {
    let n = es.len() as int;
    if sibling_count(es, c, n) <= 1 {
        None
    } else if next {
        match sibling_pick(es, c, c.last(), true, n) {
            Some(i) => Some(i),
            None => sibling_pick(es, c, c.last(), false, n),
        }
    } else {
        match sibling_pick_rev(es, c, c.last(), true, n) {
            Some(i) => Some(i),
            None => sibling_pick_rev(es, c, c.last(), false, n),
        }
    }
}

pub open spec fn sibling_move(s: FocusView, es: Seq<EntryView>, next: bool) -> (FocusView, bool) {
    match current_index(s, es) {
        None => (s, false),
        Some(k) => match sibling_target(es, es[k].path, next) {
            Some(t) => (focus_on(s, es[t]), true),
            None => (s, false),
        },
    }
}

/// Among the first n entries under `parent` and deeper than it, the nearest
/// slot at depth `level` beyond `cur`: above it (`next`) or below it.
pub open spec fn slot_beyond(es: Seq<EntryView>, parent: Seq<usize>, level: int, cur: usize, next: bool, n: int) -> Option<usize>
    decreases n,
{
    if n <= 0 || n > es.len() {
        None
    } else {
        let best = slot_beyond(es, parent, level, cur, next, n - 1);
        let e = es[n - 1].path;
        if e.len() > level && e.take(level) == parent && (if next { e[level] > cur } else { e[level] < cur }) && (match best {
            None => true,
            Some(b) => if next { e[level] < b } else { e[level] > b },
        }) {
            Some(e[level])
        } else {
            best
        }
    }
}

/// Searching from depth `level` upward (levels below `level` + 1 of the path
/// `c`): the entry that a peer-branch move reaches.
pub open spec fn peer_target(es: Seq<EntryView>, c: Seq<usize>, next: bool, level: int) -> Option<int>
    decreases level + 1,
{
    if level < 0 || level >= c.len() {
        None
    } else {
        let parent = c.take(level);
        match slot_beyond(es, parent, level, c[level], next, es.len() as int) {
            Some(t) => match first_at_slot(es, parent, t, es.len() as int) {
                Some(i) => Some(i),
                None => peer_target(es, c, next, level - 1),
            },
            None => peer_target(es, c, next, level - 1),
        }
    }
}

/// Among the first n entries whose path continues `parent` with `slot`, the
/// topologically first; of equal paths the earliest.
pub open spec fn first_at_slot(es: Seq<EntryView>, parent: Seq<usize>, slot: usize, n: int) -> Option<int>
    decreases n,
{
    if n <= 0 || n > es.len() {
        None
    } else {
        let best = first_at_slot(es, parent, slot, n - 1);
        let e = es[n - 1].path;
        if e.len() > parent.len() && e.take(parent.len() as int) == parent && e[parent.len() as int] == slot && (match best {
            None => true,
            Some(b) => topo_lt(e, es[b].path),
        }) {
            Some(n - 1)
        } else {
            best
        }
    }
}

pub open spec fn peer_move(s: FocusView, es: Seq<EntryView>, next: bool) -> (FocusView, bool) {
    match current_index(s, es) {
        None => (s, false),
        Some(k) => match peer_target(es, es[k].path, next, es[k].path.len() - 1) {
            Some(t) => (focus_on(s, es[t]), true),
            None => (s, false),
        },
    }
}


/// The ancestor that an upward move reaches, searching the prefixes of `c`
/// from length `depth` down to the empty one.
pub open spec fn parent_target(es: Seq<EntryView>, c: Seq<usize>, depth: int) -> Option<int>
    decreases depth + 1,
{
    if depth < 0 || depth >= c.len() {
        None
    } else {
        match find_path(es, c.take(depth)) {
            Some(i) => Some(i),
            None => parent_target(es, c, depth - 1),
        }
    }
}

pub open spec fn parent_move(s: FocusView, es: Seq<EntryView>) -> (FocusView, bool) {
    match s.path {
        None => (s, false),
        Some(p) => match parent_target(es, p, p.len() - 1) {
            Some(i) => {
                let s1 = if es[i].kind == FocusKind::ScrollRegion {
                    FocusView { memory: remember(s.memory, es[i].path, p), ..s }
                } else {
                    s
                };
                (focus_on(s1, es[i]), true)
            },
            None => (s, false),
        },
    }
}

pub open spec fn child_move(s: FocusView, es: Seq<EntryView>) -> (FocusView, bool) {
    match current_index(s, es) {
        None => (s, false),
        Some(k) => {
            let cur = es[k];
            let saved = if cur.kind == FocusKind::ScrollRegion {
                match recall(s.memory, cur.path) {
                    Some(sp) => find_path(es, sp),
                    None => None,
                }
            } else {
                None
            };
            match saved {
                Some(j) => (focus_on(s, es[j]), true),
                None => match first_under(es, cur.path, es.len() as int) {
                    Some(j) => (focus_on(s, es[j]), true),
                    None => (s, false),
                },
            }
        },
    }
}

pub open spec fn remembered_child(s: FocusView, parent: FocusId, child: FocusId, es: Seq<EntryView>) -> (FocusView, bool) {
    match (find_id(es, parent), find_id(es, child)) {
        (Some(i), Some(j)) => if strictly_under(es[j].path, es[i].path) {
            (FocusView { memory: remember(s.memory, es[i].path, es[j].path), ..s }, true)
        } else {
            (s, false)
        },
        _ => (s, false),
    }
}

/// The quit confirmation is armed and its window has not passed at `now`.
pub open spec fn armed_live(s: FocusView, now: u64) -> bool {
    s.quit_armed && match s.armed_at {
        Some(at) => (if now >= at { now - at } else { 0 }) < QUIT_WINDOW_MS,
        None => false,
    }
}

pub open spec fn disarmed(s: FocusView) -> FocusView {
    FocusView { quit_armed: false, armed_at: None, ..s }
}

pub open spec fn outcome(moved: bool) -> FocusNavOutcome {
    if moved {
        FocusNavOutcome::Handled
    } else {
        FocusNavOutcome::Ignored
    }
}

/// A sibling move, and where it fails a peer-branch move.
pub open spec fn lateral(s: FocusView, es: Seq<EntryView>, next: bool) -> (FocusView, FocusNavOutcome) {
    let (s1, m) = sibling_move(s, es, next);
    if m {
        (s1, FocusNavOutcome::Handled)
    } else {
        let (s2, m2) = peer_move(s, es, next);
        (s2, outcome(m2))
    }
}

/// The effect of a key before the quit confirmation is updated.
pub open spec fn key_step(s: FocusView, k: UiKeyInput, es: Seq<EntryView>, now: u64) -> (FocusView, FocusNavOutcome) {
    let not_text = match current_index(s, es) {
        Some(i) => es[i].kind != FocusKind::TextInput,
        None => true,
    };
    match k {
        UiKeyInput::Esc => {
            let (s1, m) = parent_move(s, es);
            (s1, outcome(m))
        },
        UiKeyInput::Interrupt => if armed_live(s, now) {
            (disarmed(s), FocusNavOutcome::RequestQuit)
        } else {
            (FocusView { quit_armed: true, armed_at: Some(now), ..s }, FocusNavOutcome::Handled)
        },
        UiKeyInput::Tab => (next_focus(s, es), FocusNavOutcome::Handled),
        UiKeyInput::BackTab => (prev_focus(s, es), FocusNavOutcome::Handled),
        UiKeyInput::Enter if not_text => {
            let (s1, m) = child_move(s, es);
            (s1, outcome(m))
        },
        UiKeyInput::Left if not_text => lateral(s, es, false),
        UiKeyInput::Up if not_text => lateral(s, es, false),
        UiKeyInput::Right if not_text => lateral(s, es, true),
        UiKeyInput::Down if not_text => lateral(s, es, true),
        _ => (s, FocusNavOutcome::Ignored),
    }
}

/// The state and outcome of one navigation event at time `now` (ms).
pub open spec fn navigate(s: FocusView, ev: UiInputEvent, es: Seq<EntryView>, now: u64) -> (FocusView, FocusNavOutcome) {
    match ev {
        UiInputEvent::ScrollLines(_) => (disarmed(s), FocusNavOutcome::Ignored),
        UiInputEvent::Key(k) => {
            let (s1, out) = key_step(s, k, es, now);
            if k == UiKeyInput::Interrupt {
                (s1, out)
            } else {
                (disarmed(s1), out)
            }
        },
    }
}


pub proof fn lemma_find_path_hit(es: Seq<EntryView>, p: Seq<usize>)
    ensures
        find_path(es, p) matches Some(i) ==> 0 <= i < es.len() && es[i].path == p,
    decreases es.len(),
{
    if es.len() > 0 {
        lemma_find_path_hit(es.drop_last(), p);
    }
}

pub proof fn lemma_find_id_hit(es: Seq<EntryView>, id: FocusId)
    ensures
        find_id(es, id) matches Some(i) ==> 0 <= i < es.len() && es[i].id == id,
    decreases es.len(),
{
    if es.len() > 0 {
        lemma_find_id_hit(es.drop_last(), id);
    }
}

proof fn lemma_no_siblings_of_root(es: Seq<EntryView>, c: Seq<usize>, n: int)
    requires
        c.len() == 0,
    ensures
        sibling_count(es, c, n) == 0,
    decreases n,
{
    if 0 < n <= es.len() {
        lemma_no_siblings_of_root(es, c, n - 1);
    }
}

/// No two entries share a path, as holds of the entries of one tree.
pub open spec fn paths_unique(es: Seq<EntryView>) -> bool {
    forall|a: int, b: int| 0 <= a < es.len() && 0 <= b < es.len() && a != b ==> #[trigger] es[a].path != #[trigger] es[b].path
}

proof fn lemma_find_path_unique(es: Seq<EntryView>, k: int)
    requires
        paths_unique(es),
        0 <= k < es.len(),
    ensures
        find_path(es, es[k].path) == Some(k),
    decreases es.len(),
{
    let p = es[k].path;
    if k < es.len() - 1 {
        let d = es.drop_last();
        assert(d[k] == es[k]);
        assert forall|a: int, b: int| 0 <= a < d.len() && 0 <= b < d.len() && a != b implies #[trigger] d[a].path != #[trigger] d[b].path by {
            assert(d[a] == es[a] && d[b] == es[b]);
        }
        lemma_find_path_unique(d, k);
    } else {
        lemma_find_path_hit(es.drop_last(), p);
        if let Some(i) = find_path(es.drop_last(), p) {
            assert(es.drop_last()[i] == es[i]);
        }
    }
}

proof fn lemma_find_path_present(es: Seq<EntryView>, j: int)
    requires
        0 <= j < es.len(),
    ensures
        find_path(es, es[j].path) is Some,
    decreases es.len(),
{
    if j < es.len() - 1 {
        let d = es.drop_last();
        assert(d[j] == es[j]);
        lemma_find_path_present(d, j);
    }
}

/// After reconciling with a non-empty entry list, some entry is focused.
pub proof fn lemma_reconciled_focuses(s: FocusView, es: Seq<EntryView>)
    requires
        es.len() > 0,
    ensures
        current_index(reconciled(s, es), es) is Some,
{
    let by_path = match s.path {
        Some(p) => find_path(es, p),
        None => None,
    };
    if by_path is None {
        let by_id = match s.focused {
            Some(id) => find_id(es, id),
            None => None,
        };
        match by_id {
            Some(j) => {
                lemma_find_id_hit(es, s.focused.unwrap());
                lemma_find_path_present(es, j);
            },
            None => {
                lemma_find_path_present(es, 0);
            },
        }
    }
}

/// Reconciling a frame keeps focus by path: if the focused entry's path is
/// present in the new entries under another id, the entry at that path is
/// focused, not the old id.
pub proof fn lemma_reconcile_by_path(s: FocusView, e1: Seq<EntryView>, i: int, e2: Seq<EntryView>, k: int)
    requires
        0 <= i < e1.len(),
        0 <= k < e2.len(),
        s.focused == Some(e1[i].id),
        s.path == Some(e1[i].path),
        e2[k].path == e1[i].path,
        e2[k].id != e1[i].id,
        paths_unique(e2),
    ensures
        reconciled(s, e2).focused == Some(e2[k].id),
        reconciled(s, e2).path == Some(e2[k].path),
{
    lemma_find_path_unique(e2, k);
}

/// The state after `n` tab moves.
pub open spec fn next_focus_n(s: FocusView, es: Seq<EntryView>, n: nat) -> FocusView
    decreases n,
{
    if n == 0 {
        s
    } else {
        next_focus(next_focus_n(s, es, (n - 1) as nat), es)
    }
}

proof fn lemma_next_steps(s: FocusView, es: Seq<EntryView>, k: int, j: nat)
    requires
        es.len() > 0,
        paths_unique(es),
        0 <= k < es.len(),
        s.path == Some(es[k].path),
        s.focused == Some(es[k].id),
    ensures
        next_focus_n(s, es, j).path == Some(es[(k + j) % (es.len() as int)].path),
        next_focus_n(s, es, j).focused == Some(es[(k + j) % (es.len() as int)].id),
    decreases j,
{
    let n = es.len() as int;
    if j == 0 {
        vstd::arithmetic::div_mod::lemma_small_mod(k as nat, n as nat);
    } else {
        lemma_next_steps(s, es, k, (j - 1) as nat);
        let c = (k + j - 1) % n;
        vstd::arithmetic::div_mod::lemma_mod_bound(k + j - 1, n);
        lemma_find_path_unique(es, c);
        vstd::arithmetic::div_mod::lemma_add_mod_noop(k + j - 1, 1, n);
        if n > 1 {
            vstd::arithmetic::div_mod::lemma_small_mod(1, n as nat);
        } else {
            assert((c + 1) % n == 0 && (k + j) % n == 0) by (nonlinear_arith) requires n == 1;
        }
    }
}

/// Moving to the next entry as many times as there are entries returns
/// focus to the entry it started on.
pub proof fn lemma_next_cycle(s: FocusView, es: Seq<EntryView>, k: int)
    requires
        es.len() > 0,
        paths_unique(es),
        0 <= k < es.len(),
        s.path == Some(es[k].path),
        s.focused == Some(es[k].id),
    ensures
        next_focus_n(s, es, es.len()).path == Some(es[k].path),
        next_focus_n(s, es, es.len()).focused == Some(es[k].id),
{
    lemma_next_steps(s, es, k, es.len());
    let n = es.len() as int;
    vstd::arithmetic::div_mod::lemma_mod_add_multiples_vanish(k, n);
    vstd::arithmetic::div_mod::lemma_small_mod(k as nat, n as nat);
}

/// Two interrupts within the window ask to quit; the first is handled.
pub proof fn lemma_double_interrupt(s: FocusView, es: Seq<EntryView>, t1: u64, t2: u64)
    requires
        !armed_live(s, t1),
        t1 <= t2 < t1 + QUIT_WINDOW_MS,
    ensures
        navigate(s, UiInputEvent::Key(UiKeyInput::Interrupt), es, t1).1 == FocusNavOutcome::Handled,
        navigate(navigate(s, UiInputEvent::Key(UiKeyInput::Interrupt), es, t1).0, UiInputEvent::Key(UiKeyInput::Interrupt), es, t2).1
            == FocusNavOutcome::RequestQuit,
{
}

/// Any other key between two interrupts disarms the first: the second is
/// handled, not a request to quit.
pub proof fn lemma_interrupt_reset(s: FocusView, es: Seq<EntryView>, k: UiKeyInput, t1: u64, t2: u64, t3: u64)
    requires
        !armed_live(s, t1),
        k != UiKeyInput::Interrupt,
    ensures
        navigate(
            navigate(navigate(s, UiInputEvent::Key(UiKeyInput::Interrupt), es, t1).0, UiInputEvent::Key(k), es, t2).0,
            UiInputEvent::Key(UiKeyInput::Interrupt),
            es,
            t3,
        ).1 == FocusNavOutcome::Handled,
{
    let s1 = navigate(s, UiInputEvent::Key(UiKeyInput::Interrupt), es, t1).0;
    let (s2a, o) = key_step(s1, k, es, t2);
    assert(navigate(s1, UiInputEvent::Key(k), es, t2).0 == disarmed(s2a));
}

pub open spec fn ev(es: &[FocusEntry]) -> Seq<EntryView> {
    entries_view(es@)
}

pub open spec fn opt_int(o: Option<usize>) -> Option<int> {
    match o {
        Some(i) => Some(i as int),
        None => None,
    }
}

fn prefix_eq(a: &Vec<usize>, b: &Vec<usize>, n: usize) -> (r: bool)
    requires
        n <= a@.len(),
        n <= b@.len(),
    ensures
        r == (a@.take(n as int) == b@.take(n as int)),
{
    let mut i: usize = 0;
    while i < n
        invariant
            n <= a@.len(),
            n <= b@.len(),
            i <= n,
            a@.take(i as int) == b@.take(i as int),
        decreases n - i,
    {
        if a[i] != b[i] {
            assert(a@.take(n as int)[i as int] != b@.take(n as int)[i as int]);
            return false;
        }
        assert(a@.take(i as int + 1) =~= a@.take(i as int).push(a@[i as int]));
        assert(b@.take(i as int + 1) =~= b@.take(i as int).push(b@[i as int]));
        i = i + 1;
    }
    true
}

fn take_path(a: &Vec<usize>, n: usize) -> (r: Vec<usize>)
    requires
        n <= a@.len(),
    ensures
        r@ == a@.take(n as int),
{
    let mut r: Vec<usize> = Vec::new();
    let mut i: usize = 0;
    while i < n
        invariant
            n <= a@.len(),
            i <= n,
            r@ == a@.take(i as int),
        decreases n - i,
    {
        r.push(a[i]);
        i = i + 1;
        assert(r@ =~= a@.take(i as int));
    }
    r
}

fn under(a: &Vec<usize>, p: &Vec<usize>) -> (r: bool)
    ensures
        r == strictly_under(a@, p@),
{
    assert(p@.take(p@.len() as int) =~= p@);
    a.len() > p.len() && prefix_eq(a, p, p.len())
}

fn lex_less(a: &Vec<usize>, b: &Vec<usize>) -> (r: bool)
    ensures
        r == lex_lt(a@, b@),
{
    let mut i: usize = 0;
    while i < a.len() && i < b.len() && a[i] == b[i]
        invariant
            i <= a@.len(),
            i <= b@.len(),
            lex_from(a@, b@, 0) == lex_from(a@, b@, i as int),
        decreases a@.len() - i,
    {
        i = i + 1;
    }
    if i < a.len() && i < b.len() {
        a[i] < b[i]
    } else {
        i >= a.len() && b.len() > i
    }
}

fn topo_less(a: &Vec<usize>, b: &Vec<usize>) -> (r: bool)
    ensures
        r == topo_lt(a@, b@),
{
    a.len() < b.len() || (a.len() == b.len() && lex_less(a, b))
}

proof fn lemma_ev_index(es: &[FocusEntry], i: int)
    requires
        0 <= i < es@.len(),
    ensures
        ev(es)[i] == es@[i]@,
        ev(es).len() == es@.len(),
{
}

fn find_path_in(es: &[FocusEntry], p: &Vec<usize>) -> (r: Option<usize>)
    ensures
        opt_int(r) == find_path(ev(es), p@),
        r matches Some(i) ==> i < es@.len(),
{
    let ghost e = ev(es);
    let mut r: Option<usize> = None;
    let mut i: usize = 0;
    while i < es.len()
        invariant
            e == ev(es),
            i <= es@.len(),
            opt_int(r) == find_path(e.take(i as int), p@),
            r matches Some(k) ==> k < i,
        decreases es@.len() - i,
    {
        proof {
            lemma_ev_index(es, i as int);
            assert(e.take(i as int + 1).drop_last() =~= e.take(i as int));
        }
        if r.is_none() && same_path(&es[i].path.0, p) {
            r = Some(i);
        }
        i = i + 1;
    }
    assert(e.take(i as int) =~= e);
    r
}

fn find_id_in(es: &[FocusEntry], id: FocusId) -> (r: Option<usize>)
    ensures
        opt_int(r) == find_id(ev(es), id),
        r matches Some(i) ==> i < es@.len(),
{
    let ghost e = ev(es);
    let mut r: Option<usize> = None;
    let mut i: usize = 0;
    while i < es.len()
        invariant
            e == ev(es),
            i <= es@.len(),
            opt_int(r) == find_id(e.take(i as int), id),
            r matches Some(k) ==> k < i,
        decreases es@.len() - i,
    {
        proof {
            lemma_ev_index(es, i as int);
            assert(e.take(i as int + 1).drop_last() =~= e.take(i as int));
        }
        if r.is_none() && es[i].id == id {
            r = Some(i);
        }
        i = i + 1;
    }
    assert(e.take(i as int) =~= e);
    r
}

fn first_under_in(es: &[FocusEntry], p: &Vec<usize>) -> (r: Option<usize>)
    ensures
        opt_int(r) == first_under(ev(es), p@, es@.len() as int),
        r matches Some(i) ==> i < es@.len(),
{
    let ghost e = ev(es);
    let mut r: Option<usize> = None;
    let mut i: usize = 0;
    while i < es.len()
        invariant
            e == ev(es),
            i <= es@.len(),
            opt_int(r) == first_under(e, p@, i as int),
            r matches Some(k) ==> k < i,
        decreases es@.len() - i,
    {
        proof {
            lemma_ev_index(es, i as int);
        }
        let cand = &es[i].path.0;
        if under(cand, p) {
            let better = match r {
                None => true,
                Some(b) => {
                    proof {
                        lemma_ev_index(es, b as int);
                    }
                    topo_less(cand, &es[b].path.0)
                },
            };
            if better {
                r = Some(i);
            }
        }
        i = i + 1;
    }
    r
}

fn first_at_slot_in(es: &[FocusEntry], parent: &Vec<usize>, slot: usize) -> (r: Option<usize>)
    ensures
        opt_int(r) == first_at_slot(ev(es), parent@, slot, es@.len() as int),
        r matches Some(i) ==> i < es@.len(),
{
    let ghost e = ev(es);
    let mut r: Option<usize> = None;
    let mut i: usize = 0;
    while i < es.len()
        invariant
            e == ev(es),
            i <= es@.len(),
            opt_int(r) == first_at_slot(e, parent@, slot, i as int),
            r matches Some(k) ==> k < i,
        decreases es@.len() - i,
    {
        proof {
            lemma_ev_index(es, i as int);
        }
        let cand = &es[i].path.0;
        if cand.len() > parent.len() && prefix_eq(cand, parent, parent.len()) && cand[parent.len()] == slot {
            assert(parent@.take(parent@.len() as int) =~= parent@);
            let better = match r {
                None => true,
                Some(b) => {
                    proof {
                        lemma_ev_index(es, b as int);
                    }
                    topo_less(cand, &es[b].path.0)
                },
            };
            if better {
                r = Some(i);
            }
        } else {
            assert(parent@.take(parent@.len() as int) =~= parent@);
        }
        i = i + 1;
    }
    r
}

fn is_sibling_of(a: &Vec<usize>, c: &Vec<usize>) -> (r: bool)
    ensures
        r == is_sibling(a@, c@),
{
    a.len() == c.len() && c.len() > 0 && prefix_eq(a, c, c.len() - 1)
}

fn sibling_count_in(es: &[FocusEntry], c: &Vec<usize>) -> (r: usize)
    ensures
        r as nat == sibling_count(ev(es), c@, es@.len() as int),
{
    let ghost e = ev(es);
    let mut r: usize = 0;
    let mut i: usize = 0;
    while i < es.len()
        invariant
            e == ev(es),
            i <= es@.len(),
            r as nat == sibling_count(e, c@, i as int),
            r <= i,
        decreases es@.len() - i,
    {
        proof {
            lemma_ev_index(es, i as int);
        }
        if is_sibling_of(&es[i].path.0, c) {
            r = r + 1;
        }
        i = i + 1;
    }
    r
}

fn sibling_pick_in(es: &[FocusEntry], c: &Vec<usize>, slot: usize, above: bool) -> (r: Option<usize>)
    ensures
        opt_int(r) == sibling_pick(ev(es), c@, slot, above, es@.len() as int),
        r matches Some(i) ==> i < es@.len(),
{
    let ghost e = ev(es);
    let mut r: Option<usize> = None;
    let mut i: usize = 0;
    while i < es.len()
        invariant
            e == ev(es),
            i <= es@.len(),
            opt_int(r) == sibling_pick(e, c@, slot, above, i as int),
            r matches Some(k) ==> k < i && is_sibling(e[k as int].path, c@),
        decreases es@.len() - i,
    {
        proof {
            lemma_ev_index(es, i as int);
        }
        let cand = &es[i].path.0;
        if is_sibling_of(cand, c) {
            let last = cand[cand.len() - 1];
            if !above || last > slot {
                let better = match r {
                    None => true,
                    Some(b) => {
                        proof {
                            lemma_ev_index(es, b as int);
                        }
                        let bp = &es[b].path.0;
                        last < bp[bp.len() - 1]
                    },
                };
                if better {
                    r = Some(i);
                }
            }
        }
        i = i + 1;
    }
    r
}

fn sibling_pick_rev_in(es: &[FocusEntry], c: &Vec<usize>, slot: usize, below: bool) -> (r: Option<usize>)
    ensures
        opt_int(r) == sibling_pick_rev(ev(es), c@, slot, below, es@.len() as int),
        r matches Some(i) ==> i < es@.len(),
{
    let ghost e = ev(es);
    let mut r: Option<usize> = None;
    let mut i: usize = 0;
    while i < es.len()
        invariant
            e == ev(es),
            i <= es@.len(),
            opt_int(r) == sibling_pick_rev(e, c@, slot, below, i as int),
            r matches Some(k) ==> k < i && is_sibling(e[k as int].path, c@),
        decreases es@.len() - i,
    {
        proof {
            lemma_ev_index(es, i as int);
        }
        let cand = &es[i].path.0;
        if is_sibling_of(cand, c) {
            let last = cand[cand.len() - 1];
            if !below || last < slot {
                let better = match r {
                    None => true,
                    Some(b) => {
                        proof {
                            lemma_ev_index(es, b as int);
                        }
                        let bp = &es[b].path.0;
                        last > bp[bp.len() - 1]
                    },
                };
                if better {
                    r = Some(i);
                }
            }
        }
        i = i + 1;
    }
    r
}

fn slot_beyond_in(es: &[FocusEntry], parent: &Vec<usize>, level: usize, cur: usize, next: bool) -> (r: Option<usize>)
    requires
        parent@.len() == level,
    ensures
        r == slot_beyond(ev(es), parent@, level as int, cur, next, es@.len() as int),
{
    let ghost e = ev(es);
    let mut r: Option<usize> = None;
    let mut i: usize = 0;
    while i < es.len()
        invariant
            e == ev(es),
            parent@.len() == level,
            i <= es@.len(),
            r == slot_beyond(e, parent@, level as int, cur, next, i as int),
        decreases es@.len() - i,
    {
        proof {
            lemma_ev_index(es, i as int);
        }
        let cand = &es[i].path.0;
        if cand.len() > level && prefix_eq(cand, parent, level) {
            assert(parent@.take(level as int) =~= parent@);
            let v = cand[level];
            if (next && v > cur) || (!next && v < cur) {
                let better = match r {
                    None => true,
                    Some(b) => if next { v < b } else { v > b },
                };
                if better {
                    r = Some(v);
                }
            }
        } else {
            assert(parent@.take(level as int) =~= parent@);
        }
        i = i + 1;
    }
    r
}


impl FocusState {
    /// No focus, nothing remembered, not armed.
    pub fn new() -> (s: FocusState)
        ensures
            s@.focused is None,
            s@.path is None,
            s@.memory.len() == 0,
            !s@.quit_armed,
            s@.armed_at is None,
    {
        let s = FocusState {
            focused: None,
            focused_path: None,
            last_child_by_parent: Vec::new(),
            quit_armed: false,
            quit_armed_at: None,
        };
        assert(s@.memory =~= Seq::<(Seq<usize>, Seq<usize>)>::empty());
        s
    }

    pub fn focused(&self) -> (r: Option<FocusId>)
        ensures
            r == self@.focused,
    {
        self.focused
    }

    pub fn focused_path(&self) -> (r: Option<&FocusPath>)
        ensures
            match r {
                Some(p) => self@.path == Some(p@),
                None => self@.path is None,
            },
    {
        match &self.focused_path {
            Some(p) => Some(p),
            None => None,
        }
    }

    pub fn is_focused(&self, id: FocusId) -> (r: bool)
        ensures
            r == (self@.focused == Some(id)),
    {
        match self.focused {
            Some(f) => f == id,
            None => false,
        }
    }

    /// Whether a quit confirmation is armed and still within its window at `now_ms`.
    pub fn quit_armed(&self, now_ms: u64) -> (r: bool)
        ensures
            r == armed_live(self@, now_ms),
    {
        self.quit_armed && match self.quit_armed_at {
            Some(at) => now_ms.saturating_sub(at) < QUIT_WINDOW_MS,
            None => false,
        }
    }

    /// Drops an armed quit confirmation whose window has passed at `now_ms`.
    pub fn expire_quit_arm(&mut self, now_ms: u64)
        ensures
            final(self)@ == (if old(self)@.quit_armed && match old(self)@.armed_at {
                Some(at) => (if now_ms >= at { now_ms - at } else { 0 }) >= QUIT_WINDOW_MS,
                None => true,
            } {
                disarmed(old(self)@)
            } else {
                old(self)@
            }),
    {
        let expired = match self.quit_armed_at {
            Some(at) => now_ms.saturating_sub(at) >= QUIT_WINDOW_MS,
            None => true,
        };
        if self.quit_armed && expired {
            self.disarm_quit();
        }
    }

    fn arm_quit(&mut self, now_ms: u64)
        ensures
            final(self)@ == (FocusView { quit_armed: true, armed_at: Some(now_ms), ..old(self)@ }),
    {
        self.quit_armed = true;
        self.quit_armed_at = Some(now_ms);
    }

    fn disarm_quit(&mut self)
        ensures
            final(self)@ == disarmed(old(self)@),
    {
        self.quit_armed = false;
        self.quit_armed_at = None;
    }

    /// Focuses `id`; the remembered path is dropped.
    pub fn set_focused(&mut self, id: FocusId)
        ensures
            final(self)@ == (FocusView { focused: Some(id), path: None, ..old(self)@ }),
    {
        self.focused = Some(id);
        self.focused_path = None;
    }

    pub fn set_focused_entry(&mut self, entry: &FocusEntry)
        ensures
            final(self)@ == focus_on(old(self)@, entry@),
    {
        self.focused = Some(entry.id);
        self.focused_path = Some(entry.path.duplicate());
    }

    /// Forgets focus, remembered children and the quit confirmation.
    pub fn clear_focus(&mut self)
        ensures
            final(self)@ == cleared(old(self)@),
    {
        self.focused = None;
        self.focused_path = None;
        self.last_child_by_parent = Vec::new();
        self.disarm_quit();
        assert(self@.memory =~= Seq::<(Seq<usize>, Seq<usize>)>::empty());
    }

    /// The index of the focused entry: by remembered path first, then by id.
    pub fn current_index(&self, entries: &[FocusEntry]) -> (r: Option<usize>)
        ensures
            opt_int(r) == current_index(self@, ev(entries)),
            r matches Some(i) ==> i < entries@.len(),
    {
        if let Some(path) = &self.focused_path {
            if let Some(i) = find_path_in(entries, &path.0) {
                return Some(i);
            }
        }
        match self.focused {
            Some(id) => find_id_in(entries, id),
            None => None,
        }
    }

    pub fn focused_entry<'a>(&self, entries: &'a [FocusEntry]) -> (r: Option<&'a FocusEntry>)
        ensures
            match current_index(self@, ev(entries)) {
                Some(i) => r == Some(&entries@[i]),
                None => r is None,
            },
    {
        match self.current_index(entries) {
            Some(i) => Some(&entries[i]),
            None => None,
        }
    }

    /// Reconciles focus with this frame's entries: the remembered path first,
    /// then the id, then the first entry; no entries clear the focus.
    pub fn ensure_valid(&mut self, entries: &[FocusEntry])
        ensures
            final(self)@ == reconciled(old(self)@, ev(entries)),
    {
        if entries.len() == 0 {
            self.focused = None;
            self.focused_path = None;
            return;
        }
        if let Some(path) = &self.focused_path {
            if let Some(i) = find_path_in(entries, &path.0) {
                proof {
                    lemma_ev_index(entries, i as int);
                }
                self.focused = Some(entries[i].id);
                return;
            }
        }
        if let Some(id) = self.focused {
            if let Some(j) = find_id_in(entries, id) {
                proof {
                    lemma_ev_index(entries, j as int);
                }
                self.set_focused_entry(&entries[j]);
                return;
            }
        }
        proof {
            lemma_ev_index(entries, 0);
        }
        self.set_focused_entry(&entries[0]);
    }

    /// Moves to the next entry in tab order, cyclically.
    pub fn focus_next(&mut self, entries: &[FocusEntry])
        ensures
            final(self)@ == next_focus(old(self)@, ev(entries)),
    {
        if entries.len() == 0 {
            self.clear_focus();
            return;
        }
        let k = match self.current_index(entries) {
            Some(i) => i,
            None => 0,
        };
        let idx = (k + 1) % entries.len();
        proof {
            lemma_ev_index(entries, idx as int);
        }
        self.set_focused_entry(&entries[idx]);
    }

    /// Moves to the previous entry in tab order, cyclically.
    pub fn focus_prev(&mut self, entries: &[FocusEntry])
        ensures
            final(self)@ == prev_focus(old(self)@, ev(entries)),
    {
        if entries.len() == 0 {
            self.clear_focus();
            return;
        }
        let idx = match self.current_index(entries) {
            Some(i) => if i > 0 { i - 1 } else { entries.len() - 1 },
            None => entries.len() - 1,
        };
        proof {
            lemma_ev_index(entries, idx as int);
        }
        self.set_focused_entry(&entries[idx]);
    }

    fn focus_sibling(&mut self, entries: &[FocusEntry], next: bool) -> (moved: bool)
        ensures
            (final(self)@, moved) == sibling_move(old(self)@, ev(entries), next),
    {
        let k = match self.current_index(entries) {
            Some(k) => k,
            None => return false,
        };
        proof {
            lemma_ev_index(entries, k as int);
        }
        let c = &entries[k].path.0;
        if c.len() == 0 {
            proof {
                lemma_no_siblings_of_root(ev(entries), c@, entries@.len() as int);
            }
            return false;
        }
        if sibling_count_in(entries, c) <= 1 {
            return false;
        }
        let slot = c[c.len() - 1];
        let target = if next {
            match sibling_pick_in(entries, c, slot, true) {
                Some(i) => Some(i),
                None => sibling_pick_in(entries, c, slot, false),
            }
        } else {
            match sibling_pick_rev_in(entries, c, slot, true) {
                Some(i) => Some(i),
                None => sibling_pick_rev_in(entries, c, slot, false),
            }
        };
        match target {
            Some(t) => {
                proof {
                    lemma_ev_index(entries, t as int);
                }
                self.set_focused_entry(&entries[t]);
                true
            },
            None => false,
        }
    }

    pub fn focus_next_sibling(&mut self, entries: &[FocusEntry]) -> (moved: bool)
        ensures
            (final(self)@, moved) == sibling_move(old(self)@, ev(entries), true),
    {
        self.focus_sibling(entries, true)
    }

    pub fn focus_prev_sibling(&mut self, entries: &[FocusEntry]) -> (moved: bool)
        ensures
            (final(self)@, moved) == sibling_move(old(self)@, ev(entries), false),
    {
        self.focus_sibling(entries, false)
    }

    fn focus_peer_branch(&mut self, entries: &[FocusEntry], next: bool) -> (moved: bool)
        ensures
            (final(self)@, moved) == peer_move(old(self)@, ev(entries), next),
    {
        let k = match self.current_index(entries) {
            Some(k) => k,
            None => return false,
        };
        proof {
            lemma_ev_index(entries, k as int);
        }
        let c = &entries[k].path.0;
        let ghost e = ev(entries);
        let mut level: usize = c.len();
        while level > 0
            invariant
                e == ev(entries),
                level <= c@.len(),
                self@ == old(self)@,
                k < entries@.len(),
                c@ == e[k as int].path,
                current_index(old(self)@, e) == Some(k as int),
                peer_target(e, c@, next, c@.len() - 1) == peer_target(e, c@, next, level - 1),
            decreases level,
        {
            let lv = level - 1;
            let parent = take_path(c, lv);
            match slot_beyond_in(entries, &parent, lv, c[lv], next) {
                Some(t) => match first_at_slot_in(entries, &parent, t) {
                    Some(i) => {
                        proof {
                            lemma_ev_index(entries, i as int);
                        }
                        self.set_focused_entry(&entries[i]);
                        return true;
                    },
                    None => {},
                },
                None => {},
            }
            level = lv;
        }
        false
    }

    pub fn focus_next_peer_branch(&mut self, entries: &[FocusEntry]) -> (moved: bool)
        ensures
            (final(self)@, moved) == peer_move(old(self)@, ev(entries), true),
    {
        self.focus_peer_branch(entries, true)
    }

    pub fn focus_prev_peer_branch(&mut self, entries: &[FocusEntry]) -> (moved: bool)
        ensures
            (final(self)@, moved) == peer_move(old(self)@, ev(entries), false),
    {
        self.focus_peer_branch(entries, false)
    }

    /// Moves to the nearest ancestor entry of the focused path; leaving a
    /// scroll region remembers the path left under it.
    pub fn focus_parent(&mut self, entries: &[FocusEntry]) -> (moved: bool)
        ensures
            (final(self)@, moved) == parent_move(old(self)@, ev(entries)),
    {
        let path = match &self.focused_path {
            Some(p) => copy_path(&p.0),
            None => return false,
        };
        let ghost e = ev(entries);
        let mut depth: usize = path.len();
        while depth > 0
            invariant
                e == ev(entries),
                depth <= path@.len(),
                self@ == old(self)@,
                old(self)@.path == Some(path@),
                parent_target(e, path@, path@.len() - 1) == parent_target(e, path@, depth - 1),
            decreases depth,
        {
            let d = depth - 1;
            let ancestor = take_path(&path, d);
            if let Some(i) = find_path_in(entries, &ancestor) {
                proof {
                    lemma_ev_index(entries, i as int);
                    lemma_find_path_hit(e, ancestor@);
                }
                if entries[i].kind == FocusKind::ScrollRegion {
                    let kept = copy_path(&path);
                    self.remember(FocusPath(ancestor), FocusPath(kept));
                }
                self.set_focused_entry(&entries[i]);
                return true;
            }
            depth = d;
        }
        false
    }

    fn remember(&mut self, k: FocusPath, v: FocusPath)
        ensures
            final(self)@ == (FocusView { memory: remember(old(self)@.memory, k@, v@), ..old(self)@ }),
    {
        let ghost m = self@.memory;
        let mut found: Option<usize> = None;
        let mut i: usize = 0;
        while i < self.last_child_by_parent.len()
            invariant
                m == self@.memory,
                self@ == old(self)@,
                i <= m.len(),
                opt_int(found) == find_key(m, k@, i as int),
                found matches Some(f) ==> f < i,
            decreases m.len() - i,
        {
            if found.is_none() && same_path(&self.last_child_by_parent[i].0.0, &k.0) {
                found = Some(i);
            }
            i = i + 1;
        }
        match found {
            Some(f) => {
                self.last_child_by_parent.set(f, (k, v));
            },
            None => {
                self.last_child_by_parent.push((k, v));
            },
        }
        assert(self@.memory =~= remember(m, k@, v@));
    }

    fn recall_child(&self, key: &Vec<usize>) -> (r: Option<Vec<usize>>)
        ensures
            match r {
                Some(v) => recall(self@.memory, key@) == Some(v@),
                None => recall(self@.memory, key@) is None,
            },
    {
        let ghost m = self@.memory;
        let mut i: usize = self.last_child_by_parent.len();
        assert(m.take(i as int) =~= m);
        while i > 0
            invariant
                i <= self.last_child_by_parent@.len(),
                m == self@.memory,
                recall(m, key@) == recall(m.take(i as int), key@),
            decreases i,
        {
            let kv = &self.last_child_by_parent[i - 1];
            assert(m.take(i as int).last() == (kv.0@, kv.1@));
            assert(m.take(i as int).drop_last() =~= m.take(i as int - 1));
            if same_path(&kv.0.0, key) {
                return Some(copy_path(&kv.1.0));
            }
            i = i - 1;
        }
        None
    }

    /// Descends into the focused entry: a scroll region's remembered child
    /// where it is still present, else the topologically first descendant.
    pub fn focus_first_child(&mut self, entries: &[FocusEntry]) -> (moved: bool)
        ensures
            (final(self)@, moved) == child_move(old(self)@, ev(entries)),
    {
        let k = match self.current_index(entries) {
            Some(k) => k,
            None => return false,
        };
        proof {
            lemma_ev_index(entries, k as int);
        }
        if entries[k].kind == FocusKind::ScrollRegion {
            if let Some(saved) = self.recall_child(&entries[k].path.0) {
                if let Some(j) = find_path_in(entries, &saved) {
                    proof {
                        lemma_ev_index(entries, j as int);
                    }
                    self.set_focused_entry(&entries[j]);
                    return true;
                }
            }
        }
        match first_under_in(entries, &entries[k].path.0) {
            Some(j) => {
                proof {
                    lemma_ev_index(entries, j as int);
                }
                self.set_focused_entry(&entries[j]);
                true
            },
            None => false,
        }
    }

    /// Remembers `child_id` as the child to restore under `parent_id`, where
    /// both are present and the child lies under the parent.
    pub fn remember_child(&mut self, parent_id: FocusId, child_id: FocusId, entries: &[FocusEntry]) -> (r: bool)
        ensures
            (final(self)@, r) == remembered_child(old(self)@, parent_id, child_id, ev(entries)),
    {
        let i = match find_id_in(entries, parent_id) {
            Some(i) => i,
            None => return false,
        };
        let j = match find_id_in(entries, child_id) {
            Some(j) => j,
            None => return false,
        };
        proof {
            lemma_ev_index(entries, i as int);
            lemma_ev_index(entries, j as int);
        }
        if !under(&entries[j].path.0, &entries[i].path.0) {
            return false;
        }
        self.remember(entries[i].path.duplicate(), entries[j].path.duplicate());
        true
    }

    fn lateral_move(&mut self, entries: &[FocusEntry], next: bool) -> (out: FocusNavOutcome)
        ensures
            (final(self)@, out) == lateral(old(self)@, ev(entries), next),
    {
        if self.focus_sibling(entries, next) {
            return FocusNavOutcome::Handled;
        }
        if self.focus_peer_branch(entries, next) {
            FocusNavOutcome::Handled
        } else {
            FocusNavOutcome::Ignored
        }
    }

    /// Routes one input event at time `now_ms` (ms): navigation keys move
    /// focus, a second interrupt within the window asks to quit, anything
    /// else is left to the focused widget.
    pub fn handle_navigation(&mut self, event: UiInputEvent, entries: &[FocusEntry], now_ms: u64) -> (out: FocusNavOutcome)
        ensures
            (final(self)@, out) == navigate(old(self)@, event, ev(entries), now_ms),
    {
        let key = match event {
            UiInputEvent::Key(k) => k,
            UiInputEvent::ScrollLines(_) => {
                self.disarm_quit();
                return FocusNavOutcome::Ignored;
            },
        };
        let not_text = match self.current_index(entries) {
            Some(i) => {
                proof {
                    lemma_ev_index(entries, i as int);
                }
                entries[i].kind != FocusKind::TextInput
            },
            None => true,
        };
        let out = match key {
            UiKeyInput::Esc => {
                if self.focus_parent(entries) {
                    FocusNavOutcome::Handled
                } else {
                    FocusNavOutcome::Ignored
                }
            },
            UiKeyInput::Interrupt => {
                if self.quit_armed(now_ms) {
                    self.disarm_quit();
                    FocusNavOutcome::RequestQuit
                } else {
                    self.arm_quit(now_ms);
                    FocusNavOutcome::Handled
                }
            },
            UiKeyInput::Tab => {
                self.focus_next(entries);
                FocusNavOutcome::Handled
            },
            UiKeyInput::BackTab => {
                self.focus_prev(entries);
                FocusNavOutcome::Handled
            },
            UiKeyInput::Enter if not_text => {
                if self.focus_first_child(entries) {
                    FocusNavOutcome::Handled
                } else {
                    FocusNavOutcome::Ignored
                }
            },
            UiKeyInput::Left if not_text => self.lateral_move(entries, false),
            UiKeyInput::Up if not_text => self.lateral_move(entries, false),
            UiKeyInput::Right if not_text => self.lateral_move(entries, true),
            UiKeyInput::Down if not_text => self.lateral_move(entries, true),
            _ => FocusNavOutcome::Ignored,
        };
        if key != UiKeyInput::Interrupt {
            self.disarm_quit();
        }
        out
    }
}

} // verus!
