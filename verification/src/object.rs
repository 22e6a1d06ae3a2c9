//! Entities: the player, the monsters and what is left of them.

use vstd::prelude::*;
use vstd::string::*;
use crate::color::Color;

verus! {

/// The player's place in the entity list.
pub const PLAYER: usize = 0;

/// How a monster decides what to do.
#[derive(Clone, Copy, Debug, PartialEq, Eq, Structural)]
pub enum Ai {
    Basic,
}

/// Which death an entity dies.
#[derive(Clone, Copy, Debug, PartialEq, Eq, Structural)]
pub enum DeathCallback {
    Player,
    Monster,
}

/// What an entity needs in order to fight.
#[derive(Clone, Copy, Debug, PartialEq, Eq, Structural)]
pub struct Fighter {
    pub max_hp: i32,
    pub hp: i32,
    pub defense: i32,
    pub power: i32,
    pub on_death: DeathCallback,
}

/// Anything that stands on the map and is drawn as one character.
#[derive(Debug)]
pub struct Object {
    pub x: i32,
    pub y: i32,
    pub glyph: char,
    pub color: Color,
    pub name: String,
    pub blocks: bool,
    pub alive: bool,
    pub fighter: Option<Fighter>,
    pub ai: Option<Ai>,
}

/// An entity as a mathematical value.
pub struct ObjectView {
    pub x: int,
    pub y: int,
    pub glyph: char,
    pub color: Color,
    pub name: Seq<char>,
    pub blocks: bool,
    pub alive: bool,
    pub fighter: Option<Fighter>,
    pub ai: Option<Ai>,
}

impl View for Object {
    type V = ObjectView;

    open spec fn view(&self) -> ObjectView {
        ObjectView {
            x: self.x as int,
            y: self.y as int,
            glyph: self.glyph,
            color: self.color,
            name: self.name@,
            blocks: self.blocks,
            alive: self.alive,
            fighter: self.fighter,
            ai: self.ai,
        }
    }
}

/// The entities of a list, each as a mathematical value.
pub open spec fn views(objects: Seq<Object>) -> Seq<ObjectView> {
    Seq::new(objects.len(), |i: int| objects[i]@)
}

/// The square of the Euclidean distance between two points.
pub open spec fn distance_squared(x1: int, y1: int, x2: int, y2: int) -> int {
    (x2 - x1) * (x2 - x1) + (y2 - y1) * (y2 - y1)
}

impl ObjectView {
    /// Whether the entity stands at `(x, y)`.
    pub open spec fn is_at(self, x: int, y: int) -> bool {
        self.x == x && self.y == y
    }

    /// The entity at another place.
    pub open spec fn moved_to(self, x: int, y: int) -> ObjectView {
        ObjectView { x, y, ..self }
    }

    /// The square of the distance to `other`.
    pub open spec fn distance_squared_to(self, other: ObjectView) -> int {
        distance_squared(self.x, self.y, other.x, other.y)
    }
}

impl Object {
    /// A new entity. It has no capabilities yet and does not count as alive
    /// until it is given a life.
    pub fn new(x: i32, y: i32, glyph: char, name: &str, color: Color, blocks: bool) -> (object: Self)
        ensures
            object@ == (ObjectView {
                x: x as int,
                y: y as int,
                glyph,
                color,
                name: name@,
                blocks,
                alive: false,
                fighter: None,
                ai: None,
            }),
    {
        Object {
            x,
            y,
            glyph,
            color,
            name: String::from_str(name),
            blocks,
            alive: false,
            fighter: None,
            ai: None,
        }
    }

    /// The square of the Euclidean distance to `other`.
    pub fn distance_squared_to(&self, other: &Object) -> (d: u128)
        ensures
            d == self@.distance_squared_to(other@),
    {
        let dx: i128 = other.x as i128 - self.x as i128;
        let dy: i128 = other.y as i128 - self.y as i128;
        assert(-0x1_0000_0000 < dx < 0x1_0000_0000);
        assert(-0x1_0000_0000 < dy < 0x1_0000_0000);
        assert(0 <= dx * dx <= 0x1_0000_0000 * 0x1_0000_0000) by (nonlinear_arith)
            requires
                -0x1_0000_0000 < dx < 0x1_0000_0000,
        ;
        assert(0 <= dy * dy <= 0x1_0000_0000 * 0x1_0000_0000) by (nonlinear_arith)
            requires
                -0x1_0000_0000 < dy < 0x1_0000_0000,
        ;
        (dx * dx + dy * dy) as u128
    }

    /// Where the entity stands.
    pub fn pos(&self) -> (p: (i32, i32))
        ensures
            p == (self.x, self.y),
    {
        (self.x, self.y)
    }

    /// Puts the entity at `(x, y)`.
    pub fn set_pos(&mut self, x: i32, y: i32)
        ensures
            final(self)@ == old(self)@.moved_to(x as int, y as int),
    {
        self.x = x;
        self.y = y;
    }
}

} // verus!
