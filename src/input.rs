//! Turning polled input state into discrete events: a key or button that is
//! down now and was not at the previous poll gives a press, one that was
//! down then and is not now gives a release.
use vstd::prelude::*;

verus! {

/// An input event handed to the host.
#[derive(Clone, Copy, PartialEq, Eq, Debug)]
pub enum InputEvent {
    KeyDown(u32),
    KeyUp(u32),
    MouseDown(u32),
    MouseUp(u32),
    CursorMoved(i32, i32),
}

/// The kinds of edge events.
#[derive(Clone, Copy, PartialEq, Eq, Debug)]
pub enum EdgeKind {
    KeyDown,
    KeyUp,
    MouseDown,
    MouseUp,
}

pub open spec fn edge_event(kind: EdgeKind, code: u32) -> InputEvent {
    match kind {
        EdgeKind::KeyDown => InputEvent::KeyDown(code),
        EdgeKind::KeyUp => InputEvent::KeyUp(code),
        EdgeKind::MouseDown => InputEvent::MouseDown(code),
        EdgeKind::MouseUp => InputEvent::MouseUp(code),
    }
}

/// One event of `kind` for each code of `now` that is not in `prev`, once
/// per code, in the order of `now`.
pub open spec fn edge_events(now: Seq<u32>, prev: Seq<u32>, kind: EdgeKind) -> Seq<InputEvent>
    decreases now.len(),
{
    if now.len() == 0 {
        Seq::empty()
    } else {
        let r = edge_events(now.drop_last(), prev, kind);
        let c = now.last();
        if prev.contains(c) || now.drop_last().contains(c) {
            r
        } else {
            r.push(edge_event(kind, c))
        }
    }
}

/// The input state of one poll: the keys and mouse buttons held down and
/// the pointer position in pixels.
pub struct InputSnapshot {
    pub keys: Vec<u32>,
    pub buttons: Vec<u32>,
    pub cursor: (i32, i32),
}

/// The events one poll gives after the previous one: key presses, key
/// releases, button presses, button releases, then the pointer position if
/// it is not the one reported last.
pub open spec fn translated(
    prev_keys: Seq<u32>,
    prev_buttons: Seq<u32>,
    last_cursor: Option<(i32, i32)>,
    keys: Seq<u32>,
    buttons: Seq<u32>,
    cursor: (i32, i32),
) -> Seq<InputEvent> {
    edge_events(keys, prev_keys, EdgeKind::KeyDown) + edge_events(prev_keys, keys, EdgeKind::KeyUp)
        + edge_events(buttons, prev_buttons, EdgeKind::MouseDown) + edge_events(
        prev_buttons,
        buttons,
        EdgeKind::MouseUp,
    ) + if last_cursor == Some(cursor) {
        Seq::empty()
    } else {
        seq![InputEvent::CursorMoved(cursor.0, cursor.1)]
    }
}

/// What the previous poll saw.
pub struct InputTracker {
    keys: Vec<u32>,
    buttons: Vec<u32>,
    cursor: Option<(i32, i32)>,
}

/// The remembered input state: keys and buttons down, last pointer position.
pub struct InputTrackerView {
    pub keys: Seq<u32>,
    pub buttons: Seq<u32>,
    pub cursor: Option<(i32, i32)>,
}

impl View for InputTracker {
    type V = InputTrackerView;

    closed spec fn view(&self) -> InputTrackerView {
        InputTrackerView { keys: self.keys@, buttons: self.buttons@, cursor: self.cursor }
    }
}

fn contains(v: &Vec<u32>, c: u32, upto: usize) -> (r: bool)
    requires
        upto <= v@.len(),
    ensures
        r == v@.take(upto as int).contains(c),
{
    let mut i: usize = 0;
    while i < upto
        invariant
            i <= upto <= v@.len(),
            forall|k: int| 0 <= k < i ==> v@[k] != c,
        decreases upto - i,
    {
        if v[i] == c {
            assert(v@.take(upto as int)[i as int] == c);
            return true;
        }
        i = i + 1;
    }
    false
}

fn make_event(kind: EdgeKind, code: u32) -> (r: InputEvent)
    ensures
        r == edge_event(kind, code),
{
    match kind {
        EdgeKind::KeyDown => InputEvent::KeyDown(code),
        EdgeKind::KeyUp => InputEvent::KeyUp(code),
        EdgeKind::MouseDown => InputEvent::MouseDown(code),
        EdgeKind::MouseUp => InputEvent::MouseUp(code),
    }
}

/// Appends the events of `kind` for the codes of `now` not in `prev`.
fn push_edges(out: &mut Vec<InputEvent>, now: &Vec<u32>, prev: &Vec<u32>, kind: EdgeKind)
    ensures
        final(out)@ == old(out)@ + edge_events(now@, prev@, kind),
{
    let ghost start = out@;
    let n = now.len();
    let mut i: usize = 0;
    assert(now@.take(0) =~= Seq::<u32>::empty());
    assert(start + edge_events(now@.take(0), prev@, kind) =~= start);
    while i < n
        invariant
            n == now@.len(),
            i <= n,
            out@ == start + edge_events(now@.take(i as int), prev@, kind),
        decreases n - i,
    {
        let c = now[i];
        let ghost t = now@.take(i as int + 1);
        assert(t.drop_last() =~= now@.take(i as int));
        assert(t.last() == c);
        let seen = contains(prev, c, prev.len());
        let again = contains(now, c, i);
        assert(prev@.take(prev@.len() as int) =~= prev@);
        if !seen && !again {
            out.push(make_event(kind, c));
            assert(out@ =~= start + edge_events(t, prev@, kind));
        }
        i = i + 1;
    }
    assert(now@.take(n as int) =~= now@);
}

fn copy_codes(v: &Vec<u32>) -> (r: Vec<u32>)
    ensures
        r@ == v@,
{
    let mut r: Vec<u32> = Vec::new();
    let mut i: usize = 0;
    while i < v.len()
        invariant
            i <= v@.len(),
            r@ == v@.take(i as int),
        decreases v@.len() - i,
    {
        r.push(v[i]);
        i = i + 1;
        assert(r@ =~= v@.take(i as int));
    }
    assert(v@.take(v@.len() as int) =~= v@);
    r
}

impl InputTracker {
    /// A tracker that has seen no poll: nothing down, no pointer position.
    pub fn new() -> (r: InputTracker)
        ensures
            r@.keys == Seq::<u32>::empty(),
            r@.buttons == Seq::<u32>::empty(),
            r@.cursor == None::<(i32, i32)>,
    {
        InputTracker { keys: Vec::new(), buttons: Vec::new(), cursor: None }
    }

    /// The events of a new poll, which the tracker then remembers.
    pub fn translate(&mut self, snap: &InputSnapshot) -> (r: Vec<InputEvent>)
        ensures
            r@ == translated(
                old(self)@.keys,
                old(self)@.buttons,
                old(self)@.cursor,
                snap.keys@,
                snap.buttons@,
                snap.cursor,
            ),
            final(self)@.keys == snap.keys@,
            final(self)@.buttons == snap.buttons@,
            final(self)@.cursor == Some(snap.cursor),
    {
        let mut out: Vec<InputEvent> = Vec::new();
        push_edges(&mut out, &snap.keys, &self.keys, EdgeKind::KeyDown);
        push_edges(&mut out, &self.keys, &snap.keys, EdgeKind::KeyUp);
        push_edges(&mut out, &snap.buttons, &self.buttons, EdgeKind::MouseDown);
        push_edges(&mut out, &self.buttons, &snap.buttons, EdgeKind::MouseUp);
        let moved = match self.cursor {
            Some(c) => c.0 != snap.cursor.0 || c.1 != snap.cursor.1,
            None => true,
        };
        if moved {
            out.push(InputEvent::CursorMoved(snap.cursor.0, snap.cursor.1));
        }
        self.keys = copy_codes(&snap.keys);
        self.buttons = copy_codes(&snap.buttons);
        self.cursor = Some(snap.cursor);
        proof {
            let t = translated(
                old(self)@.keys,
                old(self)@.buttons,
                old(self)@.cursor,
                snap.keys@,
                snap.buttons@,
                snap.cursor,
            );
            assert(out@ =~= t);
        }
        out
    }
}

/// How many times `e` occurs in `s`.
pub open spec fn count_of(s: Seq<InputEvent>, e: InputEvent) -> nat
    decreases s.len(),
{
    if s.len() == 0 {
        0
    } else {
        count_of(s.drop_last(), e) + if s.last() == e { 1nat } else { 0nat }
    }
}

proof fn lemma_count_concat(a: Seq<InputEvent>, b: Seq<InputEvent>, e: InputEvent)
    ensures
        count_of(a + b, e) == count_of(a, e) + count_of(b, e),
    decreases b.len(),
{
    if b.len() == 0 {
        assert(a + b =~= a);
    } else {
        lemma_count_concat(a, b.drop_last(), e);
        assert((a + b).drop_last() =~= a + b.drop_last());
        assert((a + b).last() == b.last());
    }
}

proof fn lemma_edge_count(now: Seq<u32>, prev: Seq<u32>, kind: EdgeKind, other: EdgeKind, key: u32)
    ensures
        count_of(edge_events(now, prev, kind), edge_event(other, key)) == if kind == other
            && now.contains(key) && !prev.contains(key) {
            1nat
        } else {
            0nat
        },
    decreases now.len(),
{
    if now.len() > 0 {
        let init = now.drop_last();
        let c = now.last();
        lemma_edge_count(init, prev, kind, other, key);
        assert(now.contains(key) <==> (init.contains(key) || c == key)) by {
            if now.contains(key) {
                let i = choose|i: int| 0 <= i < now.len() && now[i] == key;
                if i < now.len() - 1 {
                    assert(init[i] == key);
                }
            }
            if init.contains(key) {
                let i = choose|i: int| 0 <= i < init.len() && init[i] == key;
                assert(now[i] == key);
            }
            if c == key {
                assert(now[now.len() - 1] == key);
            }
        }
        let r = edge_events(init, prev, kind);
        if !(prev.contains(c) || init.contains(c)) {
            assert(r.push(edge_event(kind, c)).drop_last() =~= r);
        }
    }
}

proof fn lemma_cursor_count(last: Option<(i32, i32)>, cursor: (i32, i32), kind: EdgeKind, key: u32)
    ensures
        count_of(
            if last == Some(cursor) {
                Seq::empty()
            } else {
                seq![InputEvent::CursorMoved(cursor.0, cursor.1)]
            },
            edge_event(kind, key),
        ) == 0,
{
    let s: Seq<InputEvent> = seq![InputEvent::CursorMoved(cursor.0, cursor.1)];
    let empty = Seq::<InputEvent>::empty();
    assert(s.drop_last() =~= empty);
    assert(count_of(empty, edge_event(kind, key)) == 0);
    assert(s.last() != edge_event(kind, key));
    assert(count_of(s, edge_event(kind, key)) == 0);
}

proof fn lemma_translated_count(
    prev_keys: Seq<u32>,
    prev_buttons: Seq<u32>,
    last_cursor: Option<(i32, i32)>,
    keys: Seq<u32>,
    buttons: Seq<u32>,
    cursor: (i32, i32),
    kind: EdgeKind,
    key: u32,
)
    requires
        kind == EdgeKind::KeyDown || kind == EdgeKind::KeyUp,
    ensures
        count_of(translated(prev_keys, prev_buttons, last_cursor, keys, buttons, cursor), edge_event(kind, key))
            == count_of(edge_events(keys, prev_keys, EdgeKind::KeyDown), edge_event(kind, key))
            + count_of(edge_events(prev_keys, keys, EdgeKind::KeyUp), edge_event(kind, key)),
{
    let a = edge_events(keys, prev_keys, EdgeKind::KeyDown);
    let b = edge_events(prev_keys, keys, EdgeKind::KeyUp);
    let c = edge_events(buttons, prev_buttons, EdgeKind::MouseDown);
    let d = edge_events(prev_buttons, buttons, EdgeKind::MouseUp);
    let m = if last_cursor == Some(cursor) {
        Seq::empty()
    } else {
        seq![InputEvent::CursorMoved(cursor.0, cursor.1)]
    };
    let e = edge_event(kind, key);
    lemma_count_concat(a, b, e);
    lemma_count_concat(a + b, c, e);
    lemma_count_concat(a + b + c, d, e);
    lemma_count_concat(a + b + c + d, m, e);
    lemma_edge_count(buttons, prev_buttons, EdgeKind::MouseDown, kind, key);
    lemma_edge_count(prev_buttons, buttons, EdgeKind::MouseUp, kind, key);
    lemma_cursor_count(last_cursor, cursor, kind, key);
}

/// A key pressed at one poll and released at the next gives exactly one
/// press event at the first and exactly one release event at the second,
/// and never both at the same poll. The second poll starts from what the
/// tracker remembers after the first.
pub proof fn lemma_press_then_release(
    prev_keys: Seq<u32>,
    prev_buttons: Seq<u32>,
    last_cursor: Option<(i32, i32)>,
    keys1: Seq<u32>,
    buttons1: Seq<u32>,
    cursor1: (i32, i32),
    keys2: Seq<u32>,
    buttons2: Seq<u32>,
    cursor2: (i32, i32),
    key: u32,
)
    requires
        !prev_keys.contains(key),
        keys1.contains(key),
        !keys2.contains(key),
    ensures
        ({
            let first = translated(prev_keys, prev_buttons, last_cursor, keys1, buttons1, cursor1);
            let second = translated(keys1, buttons1, Some(cursor1), keys2, buttons2, cursor2);
            &&& count_of(first, InputEvent::KeyDown(key)) == 1
            &&& count_of(first, InputEvent::KeyUp(key)) == 0
            &&& count_of(second, InputEvent::KeyUp(key)) == 1
            &&& count_of(second, InputEvent::KeyDown(key)) == 0
        }),
{
    lemma_translated_count(prev_keys, prev_buttons, last_cursor, keys1, buttons1, cursor1, EdgeKind::KeyDown, key);
    lemma_translated_count(prev_keys, prev_buttons, last_cursor, keys1, buttons1, cursor1, EdgeKind::KeyUp, key);
    lemma_translated_count(keys1, buttons1, Some(cursor1), keys2, buttons2, cursor2, EdgeKind::KeyDown, key);
    lemma_translated_count(keys1, buttons1, Some(cursor1), keys2, buttons2, cursor2, EdgeKind::KeyUp, key);
    lemma_edge_count(keys1, prev_keys, EdgeKind::KeyDown, EdgeKind::KeyDown, key);
    lemma_edge_count(keys1, prev_keys, EdgeKind::KeyDown, EdgeKind::KeyUp, key);
    lemma_edge_count(prev_keys, keys1, EdgeKind::KeyUp, EdgeKind::KeyDown, key);
    lemma_edge_count(prev_keys, keys1, EdgeKind::KeyUp, EdgeKind::KeyUp, key);
    lemma_edge_count(keys2, keys1, EdgeKind::KeyDown, EdgeKind::KeyDown, key);
    lemma_edge_count(keys2, keys1, EdgeKind::KeyDown, EdgeKind::KeyUp, key);
    lemma_edge_count(keys1, keys2, EdgeKind::KeyUp, EdgeKind::KeyDown, key);
    lemma_edge_count(keys1, keys2, EdgeKind::KeyUp, EdgeKind::KeyUp, key);
}

} // verus!
