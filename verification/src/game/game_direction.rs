//! Directions, steering rules, and the decoding of buffered key presses
//! into the player's last meaningful steering request.

use vstd::prelude::*;

verus! {

/// A steering request: one of the four directions, or one of the two
/// commands.
#[derive(Clone, Copy, PartialEq, Eq, Structural, Debug)]
pub enum Direction {
    Up,
    Down,
    Left,
    Right,
    Quit,
    Restart,
}

impl Direction {
    /// Whether `other` runs opposite to `self`.
    pub open spec fn spec_is_opposite(self, other: Direction) -> bool {
        ||| (self is Up && other is Down)
        ||| (self is Down && other is Up)
        ||| (self is Left && other is Right)
        ||| (self is Right && other is Left)
    }

    /// What a steering request turns the current direction into: only a
    /// real direction that neither reverses nor repeats the current one is
    /// accepted.
    pub open spec fn spec_apply(self, next: Direction) -> Option<Direction> {
        match next {
            Direction::Up | Direction::Down | Direction::Left | Direction::Right => {
                if self.spec_is_opposite(next) || self == next {
                    None
                } else {
                    Some(next)
                }
            },
            _ => None,
        }
    }

    /// The direction's unit step on the canvas: x grows rightwards, y grows
    /// downwards; the two commands step nowhere.
    pub open spec fn spec_to_vec(self) -> (int, int) {
        match self {
            Direction::Up => (0int, -1int),
            Direction::Down => (0int, 1int),
            Direction::Left => (-1int, 0int),
            Direction::Right => (1int, 0int),
            _ => (0int, 0int),
        }
    }

    /// Whether `other` runs opposite to `self`.
    fn is_opposite(&self, other: Direction) -> (r: bool)
        ensures
            r == self.spec_is_opposite(other),
    {
        matches!(
            (self, other),
            (Direction::Up, Direction::Down)
                | (Direction::Down, Direction::Up)
                | (Direction::Left, Direction::Right)
                | (Direction::Right, Direction::Left)
        )
    }

    /// Apply a steering request to the current direction.
    pub fn apply(self, next: Direction) -> (r: Option<Direction>)
        ensures
            r == self.spec_apply(next),
    {
        match next {
            Direction::Up | Direction::Down | Direction::Left | Direction::Right => {
                if self.is_opposite(next) || self == next {
                    None
                } else {
                    Some(next)
                }
            },
            _ => None,
        }
    }

    /// The direction's unit step on the canvas.
    pub fn to_vec(self) -> (r: (i32, i32))
        ensures
            r.0 as int == self.spec_to_vec().0,
            r.1 as int == self.spec_to_vec().1,
    {
        match self {
            Direction::Up => (0, -1),
            Direction::Down => (0, 1),
            Direction::Left => (-1, 0),
            Direction::Right => (1, 0),
            _ => (0, 0),
        }
    }
}

/// A source of steering requests.
pub trait InputDevice {
    fn direction_check(&mut self) -> Option<Direction>;
}

/// One decoded key press, as the embedding program read it from the
/// terminal.
#[derive(Clone, Copy, PartialEq, Eq, Structural, Debug)]
pub enum Key {
    Char(char),
    Up,
    Down,
    Left,
    Right,
    Other,
}

/// What a single key press means.
pub open spec fn key_direction(k: Key) -> Option<Direction> {
    match k {
        Key::Char(c) => {
            if c == 'w' {
                Some(Direction::Up)
            } else if c == 's' {
                Some(Direction::Down)
            } else if c == 'a' {
                Some(Direction::Left)
            } else if c == 'd' {
                Some(Direction::Right)
            } else if c == 'q' {
                Some(Direction::Quit)
            } else if c == 'r' {
                Some(Direction::Restart)
            } else {
                None
            }
        },
        Key::Up => Some(Direction::Up),
        Key::Down => Some(Direction::Down),
        Key::Left => Some(Direction::Left),
        Key::Right => Some(Direction::Right),
        Key::Other => None,
    }
}

/// The meaning of the last meaningful key press in the buffer, if any.
pub open spec fn last_direction(keys: Seq<Key>) -> Option<Direction>
    decreases keys.len(),
{
    if keys.len() == 0 {
        None
    } else if key_direction(keys.last()) is Some {
        key_direction(keys.last())
    } else {
        last_direction(keys.drop_last())
    }
}

/// What a single key press means.
fn map_key(k: Key) -> (r: Option<Direction>)
    ensures
        r == key_direction(k),
{
    match k {
        Key::Char(c) => {
            if c == 'w' {
                Some(Direction::Up)
            } else if c == 's' {
                Some(Direction::Down)
            } else if c == 'a' {
                Some(Direction::Left)
            } else if c == 'd' {
                Some(Direction::Right)
            } else if c == 'q' {
                Some(Direction::Quit)
            } else if c == 'r' {
                Some(Direction::Restart)
            } else {
                None
            }
        },
        Key::Up => Some(Direction::Up),
        Key::Down => Some(Direction::Down),
        Key::Left => Some(Direction::Left),
        Key::Right => Some(Direction::Right),
        Key::Other => None,
    }
}

/// Keyboard input, decoupled from the terminal: the embedding program
/// pushes every key press it reads, and `direction_check` drains the
/// buffer, keeping the meaning of the last meaningful press.
pub struct KeyboardInput {
    pending: Vec<Key>,
}

impl KeyboardInput {
    /// The key presses read but not yet interpreted, oldest first.
    pub closed spec fn spec_pending(&self) -> Seq<Key> {
        self.pending@
    }

    /// A keyboard with an empty buffer.
    pub fn new() -> (r: Self)
        ensures
            r.spec_pending() == Seq::<Key>::empty(),
    {
        KeyboardInput { pending: Vec::new() }
    }

    /// Record one key press read by the embedding program.
    pub fn push_key(&mut self, k: Key)
        ensures
            final(self).spec_pending() == old(self).spec_pending().push(k),
    {
        self.pending.push(k);
    }

    /// Drain the buffer and return the meaning of the last meaningful key
    /// press in it.
    pub fn take_direction(&mut self) -> (r: Option<Direction>)
        ensures
            r == last_direction(old(self).spec_pending()),
            final(self).spec_pending() == Seq::<Key>::empty(),
    {
        let mut last: Option<Direction> = None;
        let mut i: usize = 0;
        while i < self.pending.len()
            invariant
                i <= self.pending@.len(),
                self.pending@ == old(self).pending@,
                last == last_direction(self.pending@.take(i as int)),
            decreases self.pending@.len() - i,
        {
            let d = map_key(self.pending[i]);
            if d.is_some() {
                last = d;
            }
            i = i + 1;
            proof {
                assert(self.pending@.take(i as int).drop_last() =~= self.pending@.take(
                    i as int - 1,
                ));
                assert(self.pending@.take(i as int).last() == self.pending@[i as int - 1]);
            }
        }
        proof {
            assert(self.pending@.take(self.pending@.len() as int) =~= self.pending@);
        }
        self.pending.clear();
        last
    }
}

impl InputDevice for KeyboardInput {
    /// Drain the buffer, as `take_direction` does.
    fn direction_check(&mut self) -> Option<Direction> {
        self.take_direction()
    }
}

} // verus!
