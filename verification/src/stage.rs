//! What the held keys ask of the player's ship, in whole steps. The caller
//! scales a step to a distance or an angle.

use vstd::prelude::*;

verus! {

/// The keys that steer.
#[derive(Clone, Copy, Debug, PartialEq, Eq, Hash, Structural)]
pub enum Key {
    W,
    A,
    S,
    D,
    Space,
    LeftShift,
    I,
    K,
    J,
    L,
    E,
    Q,
    M,
}

impl Key {
    pub open spec fn slot(self) -> int {
        match self {
            Key::W => 0,
            Key::A => 1,
            Key::S => 2,
            Key::D => 3,
            Key::Space => 4,
            Key::LeftShift => 5,
            Key::I => 6,
            Key::K => 7,
            Key::J => 8,
            Key::L => 9,
            Key::E => 10,
            Key::Q => 11,
            Key::M => 12,
        }
    }

    fn index(self) -> (i: usize)
        ensures
            i == self.slot(),
            i < 13,
    {
        match self {
            Key::W => 0,
            Key::A => 1,
            Key::S => 2,
            Key::D => 3,
            Key::Space => 4,
            Key::LeftShift => 5,
            Key::I => 6,
            Key::K => 7,
            Key::J => 8,
            Key::L => 9,
            Key::E => 10,
            Key::Q => 11,
            Key::M => 12,
        }
    }
}

/// A local axis of the ship.
#[derive(Clone, Copy, Debug, PartialEq, Eq, Structural)]
pub enum Axis {
    X,
    Y,
    Z,
}

/// One rotation step about a local axis, in the positive or negative sense.
#[derive(Clone, Copy, Debug, PartialEq, Eq, Structural)]
pub struct Turn {
    pub axis: Axis,
    pub positive: bool,
}

/// Steps along the three axes, each -1, 0 or 1.
#[derive(Clone, Copy, Debug, PartialEq, Eq, Structural)]
pub struct Steps {
    pub x: i8,
    pub y: i8,
    pub z: i8,
}

/// What one tick does to the player's navigation target.
pub struct ControlIntent {
    /// Steps by which the target position moves.
    pub linear: Steps,
    /// Rotation steps applied to the target orientation, in this order.
    pub turns: Vec<Turn>,
    /// Whether the target orientation then returns to the identity.
    pub reset_orientation: bool,
}

/// 1 where only `plus` is held, -1 where only `minus` is, else 0.
pub open spec fn pull(keys: Set<Key>, plus: Key, minus: Key) -> int {
    (if keys.contains(plus) {
        1int
    } else {
        0int
    }) - (if keys.contains(minus) {
        1int
    } else {
        0int
    })
}

pub open spec fn linear_steps(keys: Set<Key>) -> Steps {
    Steps {
        x: pull(keys, Key::A, Key::D) as i8,
        y: pull(keys, Key::Space, Key::LeftShift) as i8,
        z: pull(keys, Key::W, Key::S) as i8,
    }
}

pub open spec fn turn_if(keys: Set<Key>, key: Key, axis: Axis, positive: bool) -> Seq<Turn> {
    if keys.contains(key) {
        seq![Turn { axis, positive }]
    } else {
        Seq::empty()
    }
}

/// The rotation steps for the held keys: I and K turn about X, J and L about
/// Y, E and Q about Z, the first of each pair in the positive sense.
pub open spec fn turn_steps(keys: Set<Key>) -> Seq<Turn> {
    turn_if(keys, Key::I, Axis::X, true) + turn_if(keys, Key::K, Axis::X, false) + turn_if(
        keys,
        Key::J,
        Axis::Y,
        true,
    ) + turn_if(keys, Key::L, Axis::Y, false) + turn_if(keys, Key::E, Axis::Z, true) + turn_if(
        keys,
        Key::Q,
        Axis::Z,
        false,
    )
}

/// The set of keys held down.
pub struct Keyboard {
    down: [bool; 13],
}

impl View for Keyboard {
    type V = Set<Key>;

    closed spec fn view(&self) -> Set<Key> {
        Set::new(|k: Key| self.down@[k.slot()])
    }
}

impl Keyboard {
    pub fn new() -> (keys: Self)
        ensures
            keys@ == Set::<Key>::empty(),
    {
        let keys = Keyboard { down: [false; 13] };
        assert(keys@ =~= Set::empty());
        keys
    }

    pub fn key_down_event(&mut self, key: Key)
        ensures
            final(self)@ == old(self)@.insert(key),
    {
        self.down[key.index()] = true;
        assert(self@ =~= old(self)@.insert(key));
    }

    pub fn key_up_event(&mut self, key: Key)
        ensures
            final(self)@ == old(self)@.remove(key),
    {
        self.down[key.index()] = false;
        assert(self@ =~= old(self)@.remove(key));
    }

    pub fn contains(&self, key: Key) -> (held: bool)
        ensures
            held == self@.contains(key),
    {
        self.down[key.index()]
    }

    fn pull(&self, plus: Key, minus: Key) -> (step: i8)
        ensures
            step == pull(self@, plus, minus),
    {
        let up: i8 = if self.contains(plus) {
            1
        } else {
            0
        };
        let down: i8 = if self.contains(minus) {
            1
        } else {
            0
        };
        up - down
    }

    fn push_turn(&self, turns: &mut Vec<Turn>, key: Key, axis: Axis, positive: bool)
        ensures
            final(turns)@ == old(turns)@ + turn_if(self@, key, axis, positive),
    {
        if self.contains(key) {
            turns.push(Turn { axis, positive });
            assert(turns@ =~= old(turns)@ + turn_if(self@, key, axis, positive));
        } else {
            assert(turns@ =~= old(turns)@ + turn_if(self@, key, axis, positive));
        }
    }

    /// What the held keys ask for this tick.
    pub fn intent(&self) -> (intent: ControlIntent)
        ensures
            intent.linear == linear_steps(self@),
            intent.turns@ == turn_steps(self@),
            intent.reset_orientation == self@.contains(Key::M),
    {
        let linear = Steps {
            x: self.pull(Key::A, Key::D),
            y: self.pull(Key::Space, Key::LeftShift),
            z: self.pull(Key::W, Key::S),
        };
        let mut turns: Vec<Turn> = Vec::new();
        self.push_turn(&mut turns, Key::I, Axis::X, true);
        self.push_turn(&mut turns, Key::K, Axis::X, false);
        self.push_turn(&mut turns, Key::J, Axis::Y, true);
        self.push_turn(&mut turns, Key::L, Axis::Y, false);
        self.push_turn(&mut turns, Key::E, Axis::Z, true);
        self.push_turn(&mut turns, Key::Q, Axis::Z, false);
        assert(turns@ =~= turn_steps(self@));
        ControlIntent { linear, turns, reset_orientation: self.contains(Key::M) }
    }
}

/// Radius of the circle that the ship of entity `entity_id` is sent around:
/// 100 per id and 50 more, in 32 bits.
pub open spec fn orbit_radius_of(entity_id: u32) -> u32 {
    ((entity_id * 100 + 50) % 0x1_0000_0000) as u32
}

pub fn orbit_radius(entity_id: u32) -> (radius: u32)
    ensures
        radius == orbit_radius_of(entity_id),
{
    let wide: u64 = entity_id as u64 * 100 + 50;
    (wide % 0x1_0000_0000) as u32
}

} // verus!
