//! Triggers, effects, and the ordered action table.
//!
//! An [`Action`] pairs a trigger (a specific key, or the recurring
//! tick) with an effect descriptor. The [`ActionManager`] keeps the
//! actions in insertion order under auto-incrementing keys; several
//! actions may share one trigger and every match is evaluated, so
//! registering a duplicate never displaces the original.

use vstd::prelude::*;

use crate::cell::Cell;

verus! {

/// An input key, as the engine models it. Mirrors the keys a raw
/// terminal stream can report.
#[derive(Clone, Copy, PartialEq, Eq, Structural, Debug)]
pub enum Key {
    Char(char),
    Ctrl(char),
    Alt(char),
    Esc,
    Up,
    Down,
    Left,
    Right,
    Backspace,
    Delete,
    Insert,
    Home,
    End,
    PageUp,
    PageDown,
    BackTab,
    F(u8),
    Null,
}

/// What activates an action: a specific key press, or the recurring
/// marker meaning "apply on every tick regardless of input".
#[allow(non_camel_case_types)]
#[derive(Clone, Copy, PartialEq, Eq, Structural, Debug)]
pub enum ActionType {
    KEY(Key),
    RUN,
}

/// A shared container for a value that an action carries along; the
/// produced-effect variant of [`ScreenAction`] stores its result here.
pub struct MClosure<T> {
    pub data: Box<T>,
}

impl<T> MClosure<T> {
    pub fn new(c: T) -> (r: Self)
        ensures
            r.data == c,
    {
        MClosure { data: Box::new(c) }
    }

    /// Borrow the stored value.
    pub fn get(&self) -> (r: &T)
        ensures
            *r == self.data,
    {
        &self.data
    }
}

/// The closed set of effects an action can have. Callback-carrying
/// effects name their callback by an identifier that the caller
/// resolves outside the engine; a produced effect stores the effect it
/// yields, and may not yield another produced effect or a callback.
pub enum ScreenAction {
    /// Terminate the process with the given status code.
    Exit(i32),
    /// Write a literal cell into the back grid at (x, y).
    SetCell(usize, usize, Cell),
    /// Write a cell whose coordinates and character are computed at
    /// dispatch time by the producer registered under this identifier.
    SetCellFromFns(u64),
    /// Write literal text at fixed terminal coordinates (column, row),
    /// bypassing the grid.
    WriteText(u16, u16, String),
    /// Invoke the no-argument side-effecting callback registered under
    /// this identifier.
    RunCallback(u64),
    /// Apply the stored effect as if it were triggered directly; it
    /// must not itself be a produced effect or a callback.
    ProduceEffect(MClosure<ScreenAction>),
}

impl ScreenAction {
    /// An independent copy with the same value.
    pub fn duplicate(&self) -> (r: ScreenAction)
        ensures
            r == *self,
        decreases *self,
    {
        match self {
            ScreenAction::Exit(code) => ScreenAction::Exit(*code),
            ScreenAction::SetCell(x, y, c) => ScreenAction::SetCell(*x, *y, *c),
            ScreenAction::SetCellFromFns(id) => ScreenAction::SetCellFromFns(*id),
            ScreenAction::WriteText(col, row, s) => ScreenAction::WriteText(*col, *row, s.clone()),
            ScreenAction::RunCallback(id) => ScreenAction::RunCallback(*id),
            ScreenAction::ProduceEffect(m) => ScreenAction::ProduceEffect(
                MClosure::new(m.data.duplicate()),
            ),
        }
    }
}

/// A configuration mistake in a registered effect: a produced effect
/// resolved to one of the two disallowed nested kinds.
#[derive(Clone, Copy, PartialEq, Eq, Structural, Debug)]
pub enum ConfigError {
    /// A produced effect yielded another produced effect.
    NestedProduceEffect,
    /// A produced effect yielded a callback effect.
    NestedRunCallback,
}

/// An effect after classification: the resolved unit of work the
/// dispatcher forwards, with produced effects already unwrapped.
pub enum Resolved {
    /// Terminate the process with the given status code.
    Exit(i32),
    /// Overwrite the back-grid cell at (x, y).
    Pixel(usize, usize, Cell),
    /// Ask the caller to run producer `id` and supply the cell it yields.
    Producer(u64),
    /// Write the text at the terminal coordinates (column, row).
    Text(u16, u16, String),
    /// Invoke callback `id`.
    Callback(u64),
}

/// How an effect is classified for dispatch; produced effects resolve
/// to their stored effect, and the two disallowed nested kinds are a
/// fatal configuration error — never ignored or flattened.
pub open spec fn classify_spec(e: ScreenAction) -> Result<Resolved, ConfigError> {
    match e {
        ScreenAction::Exit(code) => Ok(Resolved::Exit(code)),
        ScreenAction::SetCell(x, y, c) => Ok(Resolved::Pixel(x, y, c)),
        ScreenAction::SetCellFromFns(id) => Ok(Resolved::Producer(id)),
        ScreenAction::WriteText(col, row, s) => Ok(Resolved::Text(col, row, s)),
        ScreenAction::RunCallback(id) => Ok(Resolved::Callback(id)),
        ScreenAction::ProduceEffect(m) => match *m.data {
            ScreenAction::ProduceEffect(_) => Err(ConfigError::NestedProduceEffect),
            ScreenAction::RunCallback(_) => Err(ConfigError::NestedRunCallback),
            ScreenAction::Exit(code) => Ok(Resolved::Exit(code)),
            ScreenAction::SetCell(x, y, c) => Ok(Resolved::Pixel(x, y, c)),
            ScreenAction::SetCellFromFns(id) => Ok(Resolved::Producer(id)),
            ScreenAction::WriteText(col, row, s) => Ok(Resolved::Text(col, row, s)),
        },
    }
}

/// Classify an effect for dispatch.
pub fn classify(e: ScreenAction) -> (r: Result<Resolved, ConfigError>)
    ensures
        r == classify_spec(e),
{
    match e {
        ScreenAction::Exit(code) => Ok(Resolved::Exit(code)),
        ScreenAction::SetCell(x, y, c) => Ok(Resolved::Pixel(x, y, c)),
        ScreenAction::SetCellFromFns(id) => Ok(Resolved::Producer(id)),
        ScreenAction::WriteText(col, row, s) => Ok(Resolved::Text(col, row, s)),
        ScreenAction::RunCallback(id) => Ok(Resolved::Callback(id)),
        ScreenAction::ProduceEffect(m) => match &*m.data {
            ScreenAction::ProduceEffect(_) => Err(ConfigError::NestedProduceEffect),
            ScreenAction::RunCallback(_) => Err(ConfigError::NestedRunCallback),
            ScreenAction::Exit(code) => Ok(Resolved::Exit(*code)),
            ScreenAction::SetCell(x, y, c) => Ok(Resolved::Pixel(*x, *y, *c)),
            ScreenAction::SetCellFromFns(id) => Ok(Resolved::Producer(*id)),
            ScreenAction::WriteText(col, row, s) => Ok(
                Resolved::Text(*col, *row, s.clone()),
            ),
        },
    }
}

/// Law: a produced effect whose stored effect is itself a produced
/// effect or a callback is always rejected as a configuration error.
pub proof fn lemma_nested_produce_rejected(m: MClosure<ScreenAction>)
    requires
        *m.data is ProduceEffect || *m.data is RunCallback,
    ensures
        classify_spec(ScreenAction::ProduceEffect(m)) matches Err(e)
            && (*m.data is ProduceEffect ==> e == ConfigError::NestedProduceEffect)
            && (*m.data is RunCallback ==> e == ConfigError::NestedRunCallback),
{
}

/// The pairing of a trigger with an effect.
pub struct Action {
    pub t: ActionType,
    pub f: ScreenAction,
}

impl Action {
    pub fn new(t: ActionType, f: ScreenAction) -> (r: Self)
        ensures
            r.t == t,
            r.f == f,
    {
        Action { t, f }
    }

    /// An independent copy with the same value.
    pub fn duplicate(&self) -> (r: Action)
        ensures
            r == *self,
    {
        Action { t: self.t, f: self.f.duplicate() }
    }
}

/// An insertion-ordered collection of actions, keyed by an
/// auto-incrementing sequence number. Its view is the sequence of
/// (key, action) entries in table order.
pub struct ActionManager {
    actions: Vec<(u16, Action)>,
    next_key: u16,
}

impl View for ActionManager {
    type V = Seq<(u16, Action)>;

    closed spec fn view(&self) -> Seq<(u16, Action)> {
        self.actions@
    }
}

impl ActionManager {
    /// The key the next appended action will receive.
    pub closed spec fn spec_next_key(&self) -> u16 {
        self.next_key
    }

    /// Keys are unique and below the next key to be handed out.
    pub open spec fn wf(&self) -> bool {
        &&& forall|i: int, j: int|
            0 <= i < j < self@.len() ==> (#[trigger] self@[i]).0 != (#[trigger] self@[j]).0
        &&& forall|i: int| 0 <= i < self@.len() ==> (#[trigger] self@[i]).0 < self.spec_next_key()
    }

    /// Whether some entry carries the given key.
    pub open spec fn contains_key(&self, key: u16) -> bool {
        exists|i: int| 0 <= i < self@.len() && (#[trigger] self@[i]).0 == key
    }

    #[verifier::when_used_as_spec(spec_next_key)]
    pub fn next_key(&self) -> (r: u16)
        ensures
            r == self.spec_next_key(),
    {
        self.next_key
    }

    /// The number of registered actions.
    pub fn len(&self) -> (r: usize)
        ensures
            r == self@.len(),
    {
        self.actions.len()
    }

    /// An empty table.
    pub fn new() -> (r: Self)
        ensures
            r@ == Seq::<(u16, Action)>::empty(),
            r.spec_next_key() == 0,
            r.wf(),
    {
        ActionManager { actions: Vec::new(), next_key: 0 }
    }

    /// Append an action at the end of the table under the next
    /// auto-incremented key.
    pub fn push(&mut self, data: Action)
        requires
            old(self).wf(),
            old(self).spec_next_key() < u16::MAX,
        ensures
            final(self).wf(),
            final(self)@ == old(self)@.push((old(self).spec_next_key(), data)),
            final(self).spec_next_key() == old(self).spec_next_key() + 1,
    {
        let key = self.next_key;
        self.actions.push((key, data));
        self.next_key = self.next_key + 1;
        proof {
            assert forall|i: int, j: int| 0 <= i < j < self@.len() implies (#[trigger] self@[i]).0
                != (#[trigger] self@[j]).0 by {
                if j < self@.len() - 1 {
                    assert(self@[i] == old(self)@[i] && self@[j] == old(self)@[j]);
                } else {
                    assert(self@[i] == old(self)@[i] && self@[j].0 == old(self).spec_next_key());
                }
            }
            assert forall|i: int| 0 <= i < self@.len() implies (#[trigger] self@[i]).0
                < self.spec_next_key() by {
                if i < self@.len() - 1 {
                    assert(self@[i] == old(self)@[i]);
                }
            }
        }
    }

    /// Store an action under an explicit key: replace the entry holding
    /// that key in place, or append when the key is new.
    pub fn insert(&mut self, data: (u16, Action))
        requires
            old(self).wf(),
            data.0 < u16::MAX,
        ensures
            final(self).wf(),
            old(self).contains_key(data.0) ==> {
                &&& final(self)@.len() == old(self)@.len()
                &&& exists|i: int|
                    0 <= i < old(self)@.len() && old(self)@[i].0 == data.0 && final(self)@
                        == old(self)@.update(i, data)
                &&& final(self).spec_next_key() == old(self).spec_next_key()
            },
            !old(self).contains_key(data.0) ==> {
                &&& final(self)@ == old(self)@.push(data)
                &&& final(self).spec_next_key() == if data.0 >= old(self).spec_next_key() {
                    (data.0 + 1) as u16
                } else {
                    old(self).spec_next_key()
                }
            },
    {
        let n = self.actions.len();
        for i in 0..n
            invariant
                old(self).wf(),
                n == self.actions@.len(),
                self.actions@ == old(self)@,
                self.next_key == old(self).spec_next_key(),
                forall|j: int| 0 <= j < i ==> (#[trigger] self@[j]).0 != data.0,
        {
            if self.actions[i].0 == data.0 {
                let ghost idx = i as int;
                proof {
                    assert(old(self).contains_key(data.0));
                    assert(old(self)@[idx].0 == data.0 && old(self)@[idx].0
                        < old(self).spec_next_key());
                }
                self.actions.set(i, data);
                proof {
                    assert(self@ == old(self)@.update(idx, data));
                    assert forall|a: int, b: int| 0 <= a < b < self@.len() implies (
                    #[trigger] self@[a]).0 != (#[trigger] self@[b]).0 by {
                        assert(self@[a].0 == old(self)@[a].0 && self@[b].0 == old(self)@[b].0);
                    }
                    assert forall|a: int| 0 <= a < self@.len() implies (#[trigger] self@[a]).0
                        < self.spec_next_key() by {
                        assert(self@[a].0 == old(self)@[a].0);
                    }
                }
                return ;
            }
        }
        proof {
            assert forall|j: int| 0 <= j < old(self)@.len() implies (#[trigger] old(
                self,
            )@[j]).0 != data.0 by {
                assert(old(self)@[j] == self@[j]);
            }
            assert(!old(self).contains_key(data.0));
        }
        if data.0 >= self.next_key {
            self.next_key = data.0 + 1;
        }
        self.actions.push(data);
        proof {
            assert forall|a: int, b: int| 0 <= a < b < self@.len() implies (#[trigger] self@[a]).0
                != (#[trigger] self@[b]).0 by {
                if b < self@.len() - 1 {
                    assert(self@[a] == old(self)@[a] && self@[b] == old(self)@[b]);
                } else {
                    assert(self@[a] == old(self)@[a]);
                    assert(self@[b] == data);
                }
            }
            assert forall|a: int| 0 <= a < self@.len() implies (#[trigger] self@[a]).0
                < self.spec_next_key() by {
                if a < self@.len() - 1 {
                    assert(self@[a] == old(self)@[a]);
                } else {
                    assert(self@[a] == data);
                }
            }
        }
    }

    /// Remove the entry stored under `key`, if any.
    pub fn rem(&mut self, key: u16)
        requires
            old(self).wf(),
        ensures
            final(self).wf(),
            final(self).spec_next_key() == old(self).spec_next_key(),
            old(self).contains_key(key) ==> exists|i: int|
                0 <= i < old(self)@.len() && old(self)@[i].0 == key && final(self)@
                    == old(self)@.remove(i),
            !old(self).contains_key(key) ==> final(self)@ == old(self)@,
    {
        let n = self.actions.len();
        for i in 0..n
            invariant
                old(self).wf(),
                n == self.actions@.len(),
                self.actions@ == old(self)@,
                self.next_key == old(self).spec_next_key(),
                forall|j: int| 0 <= j < i ==> (#[trigger] self@[j]).0 != key,
        {
            if self.actions[i].0 == key {
                let ghost idx = i as int;
                proof {
                    assert(old(self).contains_key(key));
                }
                self.actions.remove(i);
                proof {
                    assert(self@ == old(self)@.remove(idx));
                    assert forall|a: int, b: int| 0 <= a < b < self@.len() implies (
                    #[trigger] self@[a]).0 != (#[trigger] self@[b]).0 by {
                        let oa = if a < idx { a } else { a + 1 };
                        let ob = if b < idx { b } else { b + 1 };
                        assert(self@[a] == old(self)@[oa] && self@[b] == old(self)@[ob]);
                    }
                    assert forall|a: int| 0 <= a < self@.len() implies (#[trigger] self@[a]).0
                        < self.spec_next_key() by {
                        let oa = if a < idx { a } else { a + 1 };
                        assert(self@[a] == old(self)@[oa]);
                    }
                }
                return ;
            }
        }
        assert(!self.contains_key(key));
    }

    /// Borrow the action stored under `key`.
    pub fn get(&self, key: u16) -> (r: Option<&Action>)
        requires
            self.wf(),
        ensures
            self.contains_key(key) ==> (r matches Some(a) && exists|i: int|
                0 <= i < self@.len() && self@[i].0 == key && *a == self@[i].1),
            !self.contains_key(key) ==> r is None,
    {
        let n = self.actions.len();
        for i in 0..n
            invariant
                n == self.actions@.len(),
                forall|j: int| 0 <= j < i ==> (#[trigger] self@[j]).0 != key,
        {
            if self.actions[i].0 == key {
                return Some(&self.actions[i].1);
            }
        }
        None
    }

    /// A snapshot of the registered actions, in table order. Taken as a
    /// copy so that registration during a traversal never corrupts it.
    pub fn iter(&self) -> (r: Vec<Action>)
        ensures
            r@.len() == self@.len(),
            forall|i: int| 0 <= i < r@.len() ==> r@[i] == (#[trigger] self@[i]).1,
    {
        let mut r: Vec<Action> = Vec::new();
        let n = self.actions.len();
        for i in 0..n
            invariant
                n == self.actions@.len(),
                r@.len() == i,
                forall|j: int| 0 <= j < i ==> r@[j] == (#[trigger] self@[j]).1,
        {
            r.push(self.actions[i].1.duplicate());
        }
        r
    }
}

/// The actions among `entries` whose trigger equals `want`, in table
/// order.
pub open spec fn matches_spec(entries: Seq<(u16, Action)>, want: ActionType) -> Seq<Action>
    decreases entries.len(),
{
    if entries.len() == 0 {
        Seq::empty()
    } else {
        matches_spec(entries.drop_last(), want) + if entries.last().1.t == want {
            seq![entries.last().1]
        } else {
            Seq::empty()
        }
    }
}

/// Law: appending an action extends the matches for its own trigger by
/// exactly that action and leaves the matches for every other trigger
/// unchanged — so re-registering a duplicate trigger never removes the
/// original entry.
pub proof fn lemma_register_keeps_matches(
    entries: Seq<(u16, Action)>,
    added: (u16, Action),
    want: ActionType,
)
    ensures
        matches_spec(entries.push(added), want) == matches_spec(entries, want) + if added.1.t
            == want {
            seq![added.1]
        } else {
            Seq::<Action>::empty()
        },
{
    assert(entries.push(added).drop_last() =~= entries);
    assert(entries.push(added).last() == added);
}

} // verus!
