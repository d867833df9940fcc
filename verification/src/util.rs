//! Foundational value types: grid points, rectangular bounds, and the
//! keypress alphabet the player brain decides on.

use vstd::prelude::*;

verus! {

/// Relationship of two X coordinates.
pub enum XPointRelation {
    LeftOfPoint,
    RightOfPoint,
    OnPointX,
}

/// Relationship of two Y coordinates.
pub enum YPointRelation {
    AbovePoint,
    BelowPoint,
    OnPointY,
}

/// Equality of two coordinates.
pub enum PointEquality {
    PointsEqual,
    PointsNotEqual,
}

/// The foundational struct for representing a coordinate.
#[derive(Copy, Clone, Debug, Eq, Hash, PartialEq, Structural)]
pub struct Point {
    pub x: i32,
    pub y: i32,
}

/// Absolute difference of two coordinates.
pub open spec fn abs_diff(a: int, b: int) -> int {
    if a >= b {
        a - b
    } else {
        b - a
    }
}

impl Point {
    /// Create a new point with the given X offset.
    pub fn offset_x(&self, offset: i32) -> (r: Point)
        requires
            i32::MIN <= self.x + offset <= i32::MAX,
        ensures
            r == (Point { x: (self.x + offset) as i32, y: self.y }),
    {
        Point { x: self.x + offset, y: self.y }
    }

    /// Create a new point with the given Y offset.
    pub fn offset_y(&self, offset: i32) -> (r: Point)
        requires
            i32::MIN <= self.y + offset <= i32::MAX,
        ensures
            r == (Point { x: self.x, y: (self.y + offset) as i32 }),
    {
        Point { x: self.x, y: self.y + offset }
    }

    /// Create a new point with an offset of the given point.
    pub fn offset(&self, x: i32, y: i32) -> (r: Point)
        requires
            i32::MIN <= self.x + x <= i32::MAX,
            i32::MIN <= self.y + y <= i32::MAX,
        ensures
            r == (Point { x: (self.x + x) as i32, y: (self.y + y) as i32 }),
    {
        Point { x: self.x + x, y: self.y + y }
    }

    /// Compare the x value of the current point against another.
    pub fn compare_x(&self, point: Point) -> (r: XPointRelation)
        ensures
            self.x > point.x ==> r is RightOfPoint,
            self.x < point.x ==> r is LeftOfPoint,
            self.x == point.x ==> r is OnPointX,
    {
        if self.x > point.x {
            XPointRelation::RightOfPoint
        } else if self.x < point.x {
            XPointRelation::LeftOfPoint
        } else {
            XPointRelation::OnPointX
        }
    }

    /// Compare the y value of the current point against another.
    pub fn compare_y(&self, point: Point) -> (r: YPointRelation)
        ensures
            self.y > point.y ==> r is BelowPoint,
            self.y < point.y ==> r is AbovePoint,
            self.y == point.y ==> r is OnPointY,
    {
        if self.y > point.y {
            YPointRelation::BelowPoint
        } else if self.y < point.y {
            YPointRelation::AbovePoint
        } else {
            YPointRelation::OnPointY
        }
    }

    /// Compare both axes of the current point against another.
    pub fn compare(&self, point: Point) -> (r: PointEquality)
        ensures
            r is PointsEqual <==> *self == point,
    {
        if self.x == point.x && self.y == point.y {
            PointEquality::PointsEqual
        } else {
            PointEquality::PointsNotEqual
        }
    }

    /// Determine which points adjoining the current point can be used
    /// as a successor for the current point in an A* search.
    pub fn successors(&self, map: &crate::map::DungeonMapComponent, goal: &Point) -> (r: Vec<
        (Point, u32),
    >)
        requires
            map.dims_ok(),
        ensures
            r@ == crate::ai::spec_successors(*map, *self, *goal),
    {
        let mut successors: Vec<(Point, u32)> = Vec::new();
        let mut idx: usize = 0;
        while idx < 8
            invariant
                0 <= idx <= 8,
                map.dims_ok(),
                successors@ == crate::ai::successors_upto(*map, *self, *goal, idx as int),
            decreases 8 - idx,
        {
            let (dx, dy) = offset_at(idx);
            let nx64: i64 = self.x as i64 + dx as i64;
            let ny64: i64 = self.y as i64 + dy as i64;
            if nx64 >= i32::MIN as i64 && nx64 <= i32::MAX as i64 && ny64 >= i32::MIN as i64
                && ny64 <= i32::MAX as i64 {
                let nx = nx64 as i32;
                let ny = ny64 as i32;
                let p = Point { x: nx, y: ny };
                if (!map.is_blocked(nx, ny) && !map.is_occupied(nx, ny)) || (p.x == goal.x && p.y
                    == goal.y) {
                    if idx > 3 {
                        successors.push((p, 14));
                    } else {
                        successors.push((p, 10));
                    }
                }
            }
            idx += 1;
        }
        successors
    }

    /// Manhattan distance between the current point and another.
    pub fn distance(&self, other: &Point) -> (r: u32)
        ensures
            r == spec_clamped_distance(*self, *other),
    {
        let dx: i64 = if self.x >= other.x {
            self.x as i64 - other.x as i64
        } else {
            other.x as i64 - self.x as i64
        };
        let dy: i64 = if self.y >= other.y {
            self.y as i64 - other.y as i64
        } else {
            other.y as i64 - self.y as i64
        };
        let sum: i64 = dx + dy;
        if sum > u32::MAX as i64 {
            u32::MAX
        } else {
            sum as u32
        }
    }
}

/// The neighbour offset that the successor function tries at step `idx`.
fn offset_at(idx: usize) -> (o: (i32, i32))
    requires
        idx < 8,
    ensures
        (o.0 as int, o.1 as int) == crate::ai::spec_offsets()[idx as int],
{
    match idx {
        0 => (0, 1),
        1 => (0, -1),
        2 => (1, 0),
        3 => (-1, 0),
        4 => (-1, -1),
        5 => (1, 1),
        6 => (1, -1),
        _ => (-1, 1),
    }
}

/// Manhattan distance, saturated at `u32::MAX` so that it is total.
pub open spec fn spec_clamped_distance(a: Point, b: Point) -> int {
    let d = abs_diff(a.x as int, b.x as int) + abs_diff(a.y as int, b.y as int);
    if d > u32::MAX {
        u32::MAX as int
    } else {
        d
    }
}

/// A rectangle representing a boundary.
#[derive(Copy, Clone, Debug, Eq, PartialEq, Structural)]
pub struct Bound {
    pub min: Point,
    pub max: Point,
}

impl Bound {
    /// Whether the current bound contains a given point (borders inclusive).
    pub fn contains(&self, point: Point) -> (r: bool)
        ensures
            r == self.spec_contains(point),
    {
        point.x >= self.min.x && point.x <= self.max.x && point.y >= self.min.y && point.y
            <= self.max.y
    }

    /// What `contains` decides.
    pub open spec fn spec_contains(self, point: Point) -> bool {
        self.min.x <= point.x <= self.max.x && self.min.y <= point.y <= self.max.y
    }
}

/// Relies on `String::push`: appends exactly the given character.
pub assume_specification[ String::push ](s: &mut String, ch: char)
    ensures
        final(s)@ == old(s)@.push(ch),
;

/// A one-byte scalar encodes as itself; the last byte of any wider
/// encoding is a continuation byte, which an ASCII byte can never be.
proof fn lemma_encode_scalar_last(v: u32, b: u8)
    requires
        b < 0x80,
    ensures
        vstd::utf8::encode_scalar(v).len() >= 1,
        (vstd::utf8::encode_scalar(v).last() == b) <==> (v == b as u32),
{
    if vstd::utf8::has_width_1_encoding(v) {
        assert(vstd::utf8::encode_scalar(v).last() == vstd::utf8::leading_byte_width_1(v));
        assert(((v & 0x7F) as u8 == b) <==> (v == b as u32)) by (bit_vector)
            requires
                v <= 0x7F && b < 0x80,
        ;
    } else {
        assert(vstd::utf8::encode_scalar(v).last() == vstd::utf8::last_continuation_byte(v));
        assert((0x80u8 | (v & 0x3F) as u8) >= 0x80) by (bit_vector);
        assert(v > 0x7F);
    }
}

/// The last byte of a UTF-8 encoding equals an ASCII byte exactly when
/// the last character is that byte's character.
proof fn lemma_encode_last_byte(chars: Seq<char>, b: u8)
    requires
        chars.len() > 0,
        b < 0x80,
    ensures
        vstd::utf8::encode_utf8(chars).len() > 0,
        (vstd::utf8::encode_utf8(chars).last() == b) <==> (chars.last() as u32 == b as u32),
    decreases chars.len(),
{
    let head = vstd::utf8::encode_scalar(chars[0] as u32);
    let tail = vstd::utf8::encode_utf8(chars.drop_first());
    lemma_encode_scalar_last(chars[0] as u32, b);
    assert(vstd::utf8::encode_utf8(chars) == head + tail);
    if chars.len() == 1 {
        assert(chars.drop_first().len() == 0);
        assert(vstd::utf8::encode_utf8(chars) =~= head);
        assert(chars.last() == chars[0]);
    } else {
        lemma_encode_last_byte(chars.drop_first(), b);
        assert((head + tail)[head.len() + tail.len() - 1] == tail[tail.len() - 1]);
        assert(vstd::utf8::encode_utf8(chars).last() == tail.last());
        assert(chars.drop_first().last() == chars.last());
    }
}

/// Whether the character closes a sentence: a full stop, exclamation
/// mark or question mark, by code point.
pub open spec fn is_sentence_end(c: char) -> bool {
    c as u32 == 46 || c as u32 == 33 || c as u32 == 63
}

/// Closes a message with a full stop unless it already ends in
/// sentence punctuation.
pub fn add_punctuation(s: String) -> (r: String)
    ensures
        r@ == (if s@.len() > 0 && is_sentence_end(s@.last()) {
            s@
        } else {
            s@.push('.')
        }),
{
    let n = s.as_str().as_bytes().len();
    proof {
        if s@.len() > 0 {
            lemma_encode_last_byte(s@, 46);
            lemma_encode_last_byte(s@, 33);
            lemma_encode_last_byte(s@, 63);
            assert(('.' as u32) == 46 && ('!' as u32) == 33 && ('?' as u32) == 63);
        }
    }
    if n > 0 {
        proof {
            assert(s@.len() > 0) by {
                if s@.len() == 0 {
                    assert(vstd::utf8::encode_utf8(s@) =~= Seq::<u8>::empty());
                }
            }
        }
        let last = s.as_str().as_bytes()[n - 1];
        proof {
            assert(last == vstd::utf8::encode_utf8(s@).last());
        }
        if last == 46u8 || last == 33u8 || last == 63u8 {
            return s;
        }
    }
    let mut s = s;
    s.push('.');
    s
}

/// One discrete key event, as the input collaborator hands it to the level.
#[derive(Copy, Clone, Debug, Eq, PartialEq, Structural)]
pub enum Keypress {
    Up,
    Down,
    Left,
    Right,
    NumPad1,
    NumPad2,
    NumPad3,
    NumPad4,
    NumPad6,
    NumPad7,
    NumPad8,
    NumPad9,
    Printable(char),
    Escape,
    ShiftEscape,
    Enter,
    Other,
}

} // verus!
