//! The eight neighbouring directions, in clockwise order starting up-left
//! (screen coordinates: `y` grows downward).
use vstd::prelude::*;
use crate::pos::Pos;
use crate::random::rand_u32;

verus! {

/// The direction at index `i` of the clockwise list
/// up-left, up, up-right, right, down-right, down, down-left, left.
pub open spec fn dir_at(i: int) -> Pos {
    if i == 0 {
        Pos { x: -1i16, y: -1i16 }
    } else if i == 1 {
        Pos { x: 0i16, y: -1i16 }
    } else if i == 2 {
        Pos { x: 1i16, y: -1i16 }
    } else if i == 3 {
        Pos { x: 1, y: 0 }
    } else if i == 4 {
        Pos { x: 1, y: 1 }
    } else if i == 5 {
        Pos { x: 0, y: 1 }
    } else if i == 6 {
        Pos { x: -1i16, y: 1i16 }
    } else {
        Pos { x: -1i16, y: 0i16 }
    }
}

/// One of the eight unit steps (the zero offset is not a direction).
pub open spec fn is_dir(p: Pos) -> bool {
    -1 <= p.x <= 1 && -1 <= p.y <= 1 && !(p.x == 0 && p.y == 0)
}

/// The index of a direction in the clockwise list.
pub open spec fn dir_index(p: Pos) -> int {
    if p.x == -1 && p.y == -1 {
        0
    } else if p.x == 0 && p.y == -1 {
        1
    } else if p.x == 1 && p.y == -1 {
        2
    } else if p.x == 1 && p.y == 0 {
        3
    } else if p.x == 1 && p.y == 1 {
        4
    } else if p.x == 0 && p.y == 1 {
        5
    } else if p.x == -1 && p.y == 1 {
        6
    } else {
        7
    }
}

/// The next direction clockwise.
pub open spec fn rotated_right(p: Pos) -> Pos {
    dir_at((dir_index(p) + 1) % 8)
}

/// The next direction counter-clockwise.
pub open spec fn rotated_left(p: Pos) -> Pos {
    dir_at((dir_index(p) + 7) % 8)
}

/// The opposite direction, or `up` for what is not a direction.
pub open spec fn inverted(p: Pos) -> Pos {
    if is_dir(p) {
        dir_at((dir_index(p) + 4) % 8)
    } else {
        dir_at(1)
    }
}

pub fn up_left() -> (r: Pos)
    ensures
        r == dir_at(0),
{
    Pos::new(-1, -1)
}

pub fn up() -> (r: Pos)
    ensures
        r == dir_at(1),
{
    Pos::new(0, -1)
}

pub fn up_right() -> (r: Pos)
    ensures
        r == dir_at(2),
{
    Pos::new(1, -1)
}

pub fn right() -> (r: Pos)
    ensures
        r == dir_at(3),
{
    Pos::new(1, 0)
}

pub fn down_right() -> (r: Pos)
    ensures
        r == dir_at(4),
{
    Pos::new(1, 1)
}

pub fn down() -> (r: Pos)
    ensures
        r == dir_at(5),
{
    Pos::new(0, 1)
}

pub fn down_left() -> (r: Pos)
    ensures
        r == dir_at(6),
{
    Pos::new(-1, 1)
}

pub fn left() -> (r: Pos)
    ensures
        r == dir_at(7),
{
    Pos::new(-1, 0)
}

/// The zero offset.
pub fn none() -> (r: Pos)
    ensures
        r == (Pos { x: 0, y: 0 }),
{
    Pos::new(0, 0)
}

/// The direction at index `i` of the clockwise list (`ALL[i]`).
pub fn all(i: usize) -> (r: Pos)
    requires
        i < 8,
    ensures
        r == dir_at(i as int),
{
    match i {
        0 => up_left(),
        1 => up(),
        2 => up_right(),
        3 => right(),
        4 => down_right(),
        5 => down(),
        6 => down_left(),
        _ => left(),
    }
}

/// The direction picked by a random value: `ALL[val % 8]`.
pub fn dir_for(val: u32) -> (r: Pos)
    ensures
        r == dir_at(val as int % 8),
{
    all((val % 8) as usize)
}

/// A random direction.
pub fn rand() -> (r: Pos)
    ensures
        is_dir(r),
{
    dir_for(rand_u32())
}

/// The next direction clockwise. Only the eight directions are accepted (the
/// zero offset and other values have no rotation).
pub fn rotate_right(pos: Pos) -> (r: Pos)
    requires
        is_dir(pos),
    ensures
        r == rotated_right(pos),
{
    all(((index_of(pos) + 1) % 8) as usize)
}

/// The next direction counter-clockwise.
pub fn rotate_left(pos: Pos) -> (r: Pos)
    requires
        is_dir(pos),
    ensures
        r == rotated_left(pos),
{
    all(((index_of(pos) + 7) % 8) as usize)
}

/// The opposite direction; anything that is not a direction gives `up`.
pub fn invert(pos: Pos) -> (r: Pos)
    ensures
        r == inverted(pos),
{
    if is_direction(pos) {
        all(((index_of(pos) + 4) % 8) as usize)
    } else {
        up()
    }
}

/// Whether the offset is one of the eight directions.
pub fn is_direction(pos: Pos) -> (r: bool)
    ensures
        r == is_dir(pos),
{
    -1 <= pos.x && pos.x <= 1 && -1 <= pos.y && pos.y <= 1 && !(pos.x == 0 && pos.y == 0)
}

fn index_of(pos: Pos) -> (r: usize)
    requires
        is_dir(pos),
    ensures
        r == dir_index(pos),
        r < 8,
        dir_at(r as int) == pos,
{
    if pos.x == -1 && pos.y == -1 {
        0
    } else if pos.x == 0 && pos.y == -1 {
        1
    } else if pos.x == 1 && pos.y == -1 {
        2
    } else if pos.x == 1 && pos.y == 0 {
        3
    } else if pos.x == 1 && pos.y == 1 {
        4
    } else if pos.x == 0 && pos.y == 1 {
        5
    } else if pos.x == -1 && pos.y == 1 {
        6
    } else {
        7
    }
}

/// The clockwise list holds exactly the eight directions, each once: the
/// index of the direction at index `i` is `i`.
pub proof fn law_dir_index_roundtrip(i: int)
    requires
        0 <= i < 8,
    ensures
        is_dir(dir_at(i)),
        dir_index(dir_at(i)) == i,
{
}

/// Every direction stands in the clockwise list at its index.
pub proof fn law_dir_at_index(p: Pos)
    requires
        is_dir(p),
    ensures
        0 <= dir_index(p) < 8,
        dir_at(dir_index(p)) == p,
{
}

/// Turning left undoes turning right, and turning right undoes turning left.
pub proof fn law_rotations_undo(p: Pos)
    requires
        is_dir(p),
    ensures
        is_dir(rotated_right(p)),
        is_dir(rotated_left(p)),
        rotated_left(rotated_right(p)) == p,
        rotated_right(rotated_left(p)) == p,
{
}

/// Eight turns to the right come back to the starting direction.
pub proof fn law_eight_rotations(p: Pos)
    requires
        is_dir(p),
    ensures
        rotated_right(rotated_right(rotated_right(rotated_right(rotated_right(rotated_right(
            rotated_right(rotated_right(p)),
        )))))) == p,
{
}

/// The opposite direction is four turns away, and inverting twice gives the
/// direction back; the opposite offset is the negated one.
pub proof fn law_invert(p: Pos)
    requires
        is_dir(p),
    ensures
        inverted(p) == rotated_right(rotated_right(rotated_right(rotated_right(p)))),
        inverted(inverted(p)) == p,
        inverted(p).x == -p.x,
        inverted(p).y == -p.y,
{
}

} // verus!
