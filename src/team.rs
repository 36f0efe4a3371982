//! Team colors, field sides, and robot identities.

use vstd::prelude::*;

verus! {

#[derive(Clone, Copy, Debug, PartialEq, Eq, Structural, PartialOrd, Ord, Hash)]
pub enum Color {
    Yellow,
    Blue,
}

#[derive(Clone, Copy, Debug, PartialEq, Eq, Structural, PartialOrd, Ord, Hash)]
pub enum Side {
    Left,
    Right,
}

/// The side of the field on which the team of the given color plays.
#[derive(Clone, Copy, Debug, PartialEq, Eq, Structural, PartialOrd, Ord, Hash)]
pub struct TeamSide(pub Color, pub Side);

/// A robot: its team color and its number within the team.
#[derive(Clone, Copy, Debug, PartialEq, Eq, Structural, PartialOrd, Ord, Hash)]
pub struct Id(pub Color, pub u8);

impl Color {
    pub fn is_yellow(&self) -> (r: bool)
        ensures
            r == (*self == Color::Yellow),
    {
        match self {
            Color::Yellow => true,
            Color::Blue => false,
        }
    }

    pub fn is_blue(&self) -> (r: bool)
        ensures
            r == (*self == Color::Blue),
    {
        match self {
            Color::Yellow => false,
            Color::Blue => true,
        }
    }

    pub fn yellow(is_yellow: bool) -> (r: Color)
        ensures
            r == (if is_yellow { Color::Yellow } else { Color::Blue }),
    {
        if is_yellow {
            Color::Yellow
        } else {
            Color::Blue
        }
    }

    pub fn blue(is_blue: bool) -> (r: Color)
        ensures
            r == (if is_blue { Color::Blue } else { Color::Yellow }),
    {
        if is_blue {
            Color::Blue
        } else {
            Color::Yellow
        }
    }
}

impl Side {
    pub fn is_right(&self) -> (r: bool)
        ensures
            r == (*self == Side::Right),
    {
        match self {
            Side::Left => false,
            Side::Right => true,
        }
    }

    pub fn is_left(&self) -> (r: bool)
        ensures
            r == (*self == Side::Left),
    {
        match self {
            Side::Left => true,
            Side::Right => false,
        }
    }

    pub fn right(is_right: bool) -> (r: Side)
        ensures
            r == (if is_right { Side::Right } else { Side::Left }),
    {
        if is_right {
            Side::Right
        } else {
            Side::Left
        }
    }

    pub fn left(is_left: bool) -> (r: Side)
        ensures
            r == (if is_left { Side::Left } else { Side::Right }),
    {
        if is_left {
            Side::Left
        } else {
            Side::Right
        }
    }
}

impl TeamSide {
    /// Whether the yellow team plays on the left: yellow on the left, or
    /// blue on the right.
    pub fn yellow_is_left(&self) -> (r: bool)
        ensures
            r == ((self.0 == Color::Yellow) == (self.1 == Side::Left)),
    {
        match (self.0, self.1) {
            (Color::Yellow, Side::Left) => true,
            (Color::Yellow, Side::Right) => false,
            (Color::Blue, Side::Right) => true,
            (Color::Blue, Side::Left) => false,
        }
    }
}

} // verus!
