//! From the keys of one frame to at most one turn and one control signal.

use vstd::prelude::*;
use crate::geometry::Vector2;

verus! {

/// A key event as the input source reports it.
#[derive(Clone, Copy, Debug, PartialEq, Eq, Structural)]
pub enum Key {
    Up,
    Down,
    Left,
    Right,
    Confirm,
    Quit,
    Other,
}

/// One of the four ways the head can be pointed.
#[derive(Clone, Copy, Debug, PartialEq, Eq, Structural)]
pub enum Heading {
    Up,
    Down,
    Left,
    Right,
}

/// What a frame asks of the game besides a turn.
#[derive(Clone, Copy, Debug, PartialEq, Eq, Structural)]
pub enum Control {
    Quit,
    Confirm,
}

/// What the keys of one frame amount to.
#[derive(Clone, Copy, Debug, PartialEq, Eq)]
pub struct FrameInput {
    pub turn: Option<Heading>,
    pub control: Option<Control>,
}

impl Heading {
    /// The unit step of this heading; rows count downwards.
    pub open spec fn spec_vector(&self) -> Vector2 {
        match *self {
            Heading::Up => Vector2 { x: 0, y: -1i32 },
            Heading::Down => Vector2 { x: 0, y: 1 },
            Heading::Left => Vector2 { x: -1i32, y: 0 },
            Heading::Right => Vector2 { x: 1, y: 0 },
        }
    }

    /// The reversal guard: a heading is taken only across the axis along
    /// which the head moves now.
    pub open spec fn spec_permitted(&self, current: Vector2) -> bool {
        match *self {
            Heading::Up | Heading::Down => current.y == 0,
            Heading::Left | Heading::Right => current.x == 0,
        }
    }

    /// The unit step of this heading.
    #[verifier::when_used_as_spec(spec_vector)]
    pub fn vector(&self) -> (step: Vector2)
        ensures
            step == self.vector(),
    {
        match *self {
            Heading::Up => Vector2 { x: 0, y: -1 },
            Heading::Down => Vector2 { x: 0, y: 1 },
            Heading::Left => Vector2 { x: -1, y: 0 },
            Heading::Right => Vector2 { x: 1, y: 0 },
        }
    }

    /// Whether the guard lets a head that moves along `current` take
    /// this heading.
    #[verifier::when_used_as_spec(spec_permitted)]
    pub fn permitted(&self, current: Vector2) -> (allowed: bool)
        ensures
            allowed == self.permitted(current),
    {
        match *self {
            Heading::Up | Heading::Down => current.y == 0,
            Heading::Left | Heading::Right => current.x == 0,
        }
    }
}

impl Key {
    /// The heading that an arrow key asks for.
    pub open spec fn spec_heading(&self) -> Option<Heading> {
        match *self {
            Key::Up => Some(Heading::Up),
            Key::Down => Some(Heading::Down),
            Key::Left => Some(Heading::Left),
            Key::Right => Some(Heading::Right),
            _ => None,
        }
    }

    /// The heading that an arrow key asks for; none for another key.
    #[verifier::when_used_as_spec(spec_heading)]
    pub fn heading(&self) -> (asked: Option<Heading>)
        ensures
            asked == self.heading(),
    {
        match *self {
            Key::Up => Some(Heading::Up),
            Key::Down => Some(Heading::Down),
            Key::Left => Some(Heading::Left),
            Key::Right => Some(Heading::Right),
            _ => None,
        }
    }

    /// Whether this key turns a head that moves along `current`.
    pub open spec fn turns(&self, current: Vector2) -> bool {
        match self.heading() {
            Some(asked) => asked.permitted(current),
            None => false,
        }
    }
}

/// The heading that the head takes after `turn` was asked of it: the one
/// asked for where the guard permits it, else the one it has.
pub open spec fn steered(current: Vector2, turn: Option<Heading>) -> Vector2 {
    match turn {
        Some(asked) => if asked.permitted(current) {
            asked.vector()
        } else {
            current
        },
        None => current,
    }
}

/// Points a head that moves along `current` the way `turn` asks, unless
/// the guard forbids it.
pub fn steer(current: Vector2, turn: Option<Heading>) -> (heading: Vector2)
    ensures
        heading == steered(current, turn),
{
    match turn {
        Some(asked) => if asked.permitted(current) {
            asked.vector()
        } else {
            current
        },
        None => current,
    }
}

/// A head that moves is never turned straight back on itself, and a turn
/// leaves it with a unit step or with the step it had.
pub proof fn lemma_no_reversal(current: Vector2, turn: Option<Heading>)
    ensures
        current.x != 0 || current.y != 0 ==> !(steered(current, turn).x == -current.x && steered(
            current,
            turn,
        ).y == -current.y),
        current.is_direction() ==> steered(current, turn).is_direction(),
{
}

/// The turn of a frame: the heading of the first key that the guard
/// permits, among the keys before the first `Other`.
pub open spec fn turn_of(keys: Seq<Key>, current: Vector2) -> Option<Heading>
    decreases keys.len(),
{
    if keys.len() == 0 || keys[0] == Key::Other {
        None
    } else if keys[0].turns(current) {
        keys[0].heading()
    } else {
        turn_of(keys.drop_first(), current)
    }
}

/// Whether `wanted` is among the keys before the first `Other`.
pub open spec fn pressed(keys: Seq<Key>, wanted: Key) -> bool
    decreases keys.len(),
{
    keys.len() > 0 && keys[0] != Key::Other && (keys[0] == wanted || pressed(
        keys.drop_first(),
        wanted,
    ))
}

/// Whether the key at `index` is the first that turns the head, with no
/// `Other` before it.
pub open spec fn turns_first(keys: Seq<Key>, current: Vector2, index: int) -> bool {
    &&& 0 <= index < keys.len()
    &&& keys[index].turns(current)
    &&& forall|j: int| 0 <= j < index ==> (#[trigger] keys[j]) != Key::Other && !keys[j].turns(current)
}

/// Whether the key at `index` is `wanted`, with no `Other` before it.
pub open spec fn comes_through(keys: Seq<Key>, wanted: Key, index: int) -> bool {
    &&& 0 <= index < keys.len()
    &&& keys[index] == wanted
    &&& forall|j: int| 0 <= j < index ==> (#[trigger] keys[j]) != Key::Other
}

/// A frame has the turn of the first key that the guard permits, and none
/// where an `Other` comes before every such key: the first accepted key
/// wins and the rest of the batch does not count.
pub proof fn lemma_first_turn_wins(keys: Seq<Key>, current: Vector2)
    ensures
        forall|i: int| #[trigger]
            turns_first(keys, current, i) ==> turn_of(keys, current) == keys[i].heading(),
        turn_of(keys, current) is Some ==> exists|i: int| #[trigger] turns_first(keys, current, i),
    decreases keys.len(),
{
    if keys.len() == 0 || keys[0] == Key::Other {
        assert forall|i: int| #[trigger] turns_first(keys, current, i) implies false by {
            if i > 0 {
                assert(keys[0] != Key::Other);
            }
        }
    } else if keys[0].turns(current) {
        assert(turns_first(keys, current, 0));
        assert forall|i: int| #[trigger] turns_first(keys, current, i) implies i == 0 by {
            if i > 0 {
                assert(!keys[0].turns(current));
            }
        }
    } else {
        let rest = keys.drop_first();
        lemma_first_turn_wins(rest, current);
        assert forall|i: int| #[trigger] turns_first(keys, current, i) implies turn_of(
            keys,
            current,
        ) == keys[i].heading() by {
            assert(i > 0);
            assert forall|j: int| 0 <= j < i - 1 implies (#[trigger] rest[j]) != Key::Other
                && !rest[j].turns(current) by {
                assert(rest[j] == keys[j + 1]);
            }
            assert(turns_first(rest, current, i - 1));
        }
        if turn_of(keys, current) is Some {
            let i: int = choose|i: int| #[trigger] turns_first(rest, current, i);
            assert forall|j: int| 0 <= j < i + 1 implies (#[trigger] keys[j]) != Key::Other
                && !keys[j].turns(current) by {
                if j > 0 {
                    assert(keys[j] == rest[j - 1]);
                }
            }
            assert(turns_first(keys, current, i + 1));
        }
    }
}

/// A key counts for the control signal exactly where no `Other` comes
/// before it.
pub proof fn lemma_pressed_before_other(keys: Seq<Key>, wanted: Key)
    requires
        wanted != Key::Other,
    ensures
        pressed(keys, wanted) <==> exists|i: int| #[trigger] comes_through(keys, wanted, i),
    decreases keys.len(),
{
    if keys.len() == 0 || keys[0] == Key::Other {
        assert forall|i: int| #[trigger] comes_through(keys, wanted, i) implies false by {
            if i > 0 {
                assert(keys[0] != Key::Other);
            }
        }
    } else if keys[0] == wanted {
        assert(comes_through(keys, wanted, 0));
    } else {
        let rest = keys.drop_first();
        lemma_pressed_before_other(rest, wanted);
        if pressed(rest, wanted) {
            let i: int = choose|i: int| #[trigger] comes_through(rest, wanted, i);
            assert forall|j: int| 0 <= j < i + 1 implies (#[trigger] keys[j]) != Key::Other by {
                if j > 0 {
                    assert(keys[j] == rest[j - 1]);
                }
            }
            assert(comes_through(keys, wanted, i + 1));
        }
        if exists|i: int| #[trigger] comes_through(keys, wanted, i) {
            let i: int = choose|i: int| #[trigger] comes_through(keys, wanted, i);
            assert(i > 0);
            assert forall|j: int| 0 <= j < i - 1 implies (#[trigger] rest[j]) != Key::Other by {
                assert(rest[j] == keys[j + 1]);
            }
            assert(comes_through(rest, wanted, i - 1));
        }
    }
}

/// The control signal of a frame: `Quit` before `Confirm`.
pub open spec fn control_of(keys: Seq<Key>) -> Option<Control> {
    if pressed(keys, Key::Quit) {
        Some(Control::Quit)
    } else if pressed(keys, Key::Confirm) {
        Some(Control::Confirm)
    } else {
        None
    }
}

/// What the keys of one frame amount to for a head that moves along
/// `current`.
pub open spec fn mapped(keys: Seq<Key>, current: Vector2) -> FrameInput {
    FrameInput { turn: turn_of(keys, current), control: control_of(keys) }
}

/// Reads the keys of one frame in order, up to the first `Other`.
pub fn map_input(keys: &[Key], current: Vector2) -> (input: FrameInput)
    ensures
        input == mapped(keys@, current),
{
    let mut turn: Option<Heading> = None;
    let mut quit = false;
    let mut confirm = false;
    let mut index: usize = 0;
    let mut open = true;
    assert(keys@.skip(0) == keys@);
    while open && index < keys.len()
        invariant
            index <= keys.len(),
            !open ==> turn_of(keys@.skip(index as int), current) is None,
            !open ==> !pressed(keys@.skip(index as int), Key::Quit),
            !open ==> !pressed(keys@.skip(index as int), Key::Confirm),
            turn_of(keys@, current) == (if turn is Some {
                turn
            } else {
                turn_of(keys@.skip(index as int), current)
            }),
            pressed(keys@, Key::Quit) == (quit || pressed(keys@.skip(index as int), Key::Quit)),
            pressed(keys@, Key::Confirm) == (confirm || pressed(
                keys@.skip(index as int),
                Key::Confirm,
            )),
        decreases keys.len() - index + (if open { 1int } else { 0int }),
    {
        let key = keys[index];
        proof {
            let rest = keys@.skip(index as int);
            assert(rest[0] == key);
            assert(rest.drop_first() == keys@.skip(index + 1));
        }
        match key {
            Key::Other => {
                open = false;
            },
            Key::Quit => {
                quit = true;
                index += 1;
            },
            Key::Confirm => {
                confirm = true;
                index += 1;
            },
            _ => {
                if turn.is_none() {
                    match key.heading() {
                        Some(asked) => {
                            if asked.permitted(current) {
                                turn = Some(asked);
                            }
                        },
                        None => {},
                    }
                }
                index += 1;
            },
        }
    }
    proof {
        if open {
            assert(keys@.skip(index as int).len() == 0);
        }
    }
    let control = if quit {
        Some(Control::Quit)
    } else if confirm {
        Some(Control::Confirm)
    } else {
        None
    };
    FrameInput { turn, control }
}

} // verus!
