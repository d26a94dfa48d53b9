use vstd::prelude::*;

verus! {

/// A screen or document coordinate.
pub type Coord = usize;

/// A signed, relative coordinate (a motion delta).
pub type RelCoord = isize;

/// A position: `x` is the column, `y` is the row.
#[derive(Clone, Copy, Debug, PartialEq, Eq, Structural)]
pub struct Pos {
    pub x: Coord,
    pub y: Coord,
}

/// Positions are ordered by row first, then by column.
pub open spec fn pos_lt(a: Pos, b: Pos) -> bool {
    a.y < b.y || (a.y == b.y && a.x < b.x)
}

/// `a` comes no later than `b` in document order.
pub open spec fn pos_le(a: Pos, b: Pos) -> bool {
    pos_lt(a, b) || a == b
}

/// The three-way outcome of comparing two positions.
#[derive(Clone, Copy, Debug, PartialEq, Eq, Structural)]
pub enum PosOrder {
    Less,
    Equal,
    Greater,
}

/// A range of positions, as built by `Pos::range*`.
#[derive(Clone, Copy, Debug)]
pub struct PosRange {
    pub start: Pos,
    pub end: Pos,
    pub end_inclusive: bool,
    pub whole_lines: bool,
}

/// One end of a range of positions.
#[derive(Clone, Copy, Debug, PartialEq, Eq, Structural)]
pub enum PosBound {
    Included(Pos),
    Excluded(Pos),
    Unbounded,
}

impl Pos {
    pub fn zero() -> (p: Self)
        ensures
            p == (Pos { x: 0, y: 0 }),
    {
        Pos { x: 0, y: 0 }
    }

    /// Compares in document order: by row, then by column.
    pub fn compare(&self, other: &Pos) -> (o: PosOrder)
        ensures
            o == PosOrder::Less <==> pos_lt(*self, *other),
            o == PosOrder::Equal <==> *self == *other,
            o == PosOrder::Greater <==> pos_lt(*other, *self),
    {
        if self.y < other.y {
            PosOrder::Less
        } else if self.y > other.y {
            PosOrder::Greater
        } else if self.x < other.x {
            PosOrder::Less
        } else if self.x > other.x {
            PosOrder::Greater
        } else {
            PosOrder::Equal
        }
    }

    /// `self < other` in document order.
    pub fn lt(&self, other: &Pos) -> (b: bool)
        ensures
            b == pos_lt(*self, *other),
    {
        self.y < other.y || (self.y == other.y && self.x < other.x)
    }

    /// `self <= other` in document order.
    pub fn le(&self, other: &Pos) -> (b: bool)
        ensures
            b == pos_le(*self, *other),
    {
        self.lt(other) || (self.x == other.x && self.y == other.y)
    }

    /// The half-open range `start..end`.
    pub fn range(start: Self, end: Self) -> (r: PosRange)
        requires
            pos_le(start, end),
        ensures
            r == (PosRange { start, end, end_inclusive: false, whole_lines: false }),
    {
        PosRange { start, end, end_inclusive: false, whole_lines: false }
    }

    /// The closed range `start..=end`.
    pub fn range_inclusive(start: Self, end: Self) -> (r: PosRange)
        requires
            pos_le(start, end),
        ensures
            r == (PosRange { start, end, end_inclusive: true, whole_lines: false }),
    {
        PosRange { start, end, end_inclusive: true, whole_lines: false }
    }

    /// The whole lines `start..end`.
    pub fn range_lines(start: Coord, end: Coord) -> (r: PosRange)
        requires
            start < end,
        ensures
            r == (PosRange {
                start: Pos { x: 0, y: start },
                end: Pos { x: 0, y: end },
                end_inclusive: false,
                whole_lines: true,
            }),
    {
        PosRange {
            start: Pos { x: 0, y: start },
            end: Pos { x: 0, y: end },
            end_inclusive: false,
            whole_lines: true,
        }
    }

    /// Clamps each coordinate into the rectangle, its far edges included.
    pub fn clamp(&self, r: &Rect) -> (p: Self)
        requires
            r.x + r.width <= usize::MAX,
            r.y + r.height <= usize::MAX,
        ensures
            p.x == clamp_int(self.x as int, r.x as int, r.x + r.width),
            p.y == clamp_int(self.y as int, r.y as int, r.y + r.height),
    {
        Pos { x: clamp_usize(self.x, r.x, r.x + r.width), y: clamp_usize(self.y, r.y, r.y + r.height) }
    }

    /// The first position that a range starts at.
    pub fn get_start_pos(start: PosBound) -> (p: Self)
        requires
            start matches PosBound::Excluded(s) ==> s.x < usize::MAX,
        ensures
            p == match start {
                PosBound::Included(s) => s,
                PosBound::Excluded(s) => Pos { x: (s.x + 1) as usize, y: s.y },
                PosBound::Unbounded => Pos { x: 0, y: 0 },
            },
    {
        match start {
            PosBound::Included(s) => s,
            PosBound::Excluded(s) => Pos { x: s.x + 1, y: s.y },
            PosBound::Unbounded => Pos::zero(),
        }
    }

    /// The position just past a range's end.
    pub fn get_end_pos(end: PosBound) -> (p: Self)
        requires
            !(end is Unbounded),
            end matches PosBound::Included(e) ==> e.x < usize::MAX,
        ensures
            p == match end {
                PosBound::Included(e) => Pos { x: (e.x + 1) as usize, y: e.y },
                PosBound::Excluded(e) => e,
                PosBound::Unbounded => Pos { x: 0, y: 0 },
            },
    {
        match end {
            PosBound::Included(e) => Pos { x: e.x + 1, y: e.y },
            PosBound::Excluded(e) => e,
            PosBound::Unbounded => Pos::zero(),
        }
    }

    pub fn inc_x(self) -> (p: Self)
        requires
            self.x < usize::MAX,
        ensures
            p == (Pos { x: (self.x + 1) as usize, y: self.y }),
    {
        Pos { x: self.x + 1, y: self.y }
    }

    pub fn dec_x(self) -> (p: Self)
        requires
            self.x > 0,
        ensures
            p == (Pos { x: (self.x - 1) as usize, y: self.y }),
    {
        Pos { x: self.x - 1, y: self.y }
    }

    /// Component-wise sum.
    pub fn add(self, rhs: Pos) -> (p: Self)
        requires
            self.x + rhs.x <= usize::MAX,
            self.y + rhs.y <= usize::MAX,
        ensures
            p.x == self.x + rhs.x,
            p.y == self.y + rhs.y,
            p == pos_sum(self, rhs),
    {
        Pos { x: self.x + rhs.x, y: self.y + rhs.y }
    }
}

/// `v` clamped into `[lo, hi]` (for `lo <= hi`).
pub open spec fn clamp_int(v: int, lo: int, hi: int) -> int {
    if v < lo {
        lo
    } else if v > hi {
        hi
    } else {
        v
    }
}

/// Clamps `v` into `[lo, hi]`, as `Ord::clamp` does.
pub fn clamp_usize(v: usize, lo: usize, hi: usize) -> (r: usize)
    requires
        lo <= hi,
    ensures
        r == clamp_int(v as int, lo as int, hi as int),
{
    if v < lo {
        lo
    } else if v > hi {
        hi
    } else {
        v
    }
}

/// A width and a height.
#[derive(Clone, Copy, Debug, PartialEq, Eq, Structural)]
pub struct Size {
    pub width: Coord,
    pub height: Coord,
}

impl Size {
    pub fn zero() -> (s: Self)
        ensures
            s == (Size { width: 0, height: 0 }),
    {
        Size { width: 0, height: 0 }
    }

    pub fn area(self) -> (a: usize)
        requires
            self.width * self.height <= usize::MAX,
        ensures
            a == self.width * self.height,
    {
        self.width * self.height
    }

    /// `pos` lies inside `0..width` by `0..height`.
    pub fn contains(self, pos: Pos) -> (b: bool)
        ensures
            b == (pos.x < self.width && pos.y < self.height),
    {
        pos.x < self.width && pos.y < self.height
    }

    /// The size whose width is `pos.x` and height `pos.y`.
    pub fn from_pos(pos: Pos) -> (s: Self)
        ensures
            s == (Size { width: pos.x, height: pos.y }),
    {
        Size { width: pos.x, height: pos.y }
    }
}

/// `pos` lies in `r.x..r.x+r.width` by `r.y..r.y+r.height`.
pub open spec fn rect_has(r: Rect, pos: Pos) -> bool {
    r.x <= pos.x < r.x + r.width && r.y <= pos.y < r.y + r.height
}

/// A rectangle: its top-left corner and its size.
#[derive(Clone, Copy, Debug, PartialEq, Eq, Structural)]
pub struct Rect {
    pub x: Coord,
    pub y: Coord,
    pub width: Coord,
    pub height: Coord,
}

impl Rect {
    /// `pos` lies in `x..x+width` by `y..y+height`.
    pub fn contains(self, pos: Pos) -> (b: bool)
        ensures
            b == rect_has(self, pos),
    {
        self.x <= pos.x && pos.x - self.x < self.width && self.y <= pos.y && pos.y - self.y
            < self.height
    }

    pub fn zero() -> (r: Self)
        ensures
            r == (Rect { x: 0, y: 0, width: 0, height: 0 }),
    {
        Rect { x: 0, y: 0, width: 0, height: 0 }
    }

    pub fn area(self) -> (a: Coord)
        requires
            self.width * self.height <= usize::MAX,
        ensures
            a == self.width * self.height,
    {
        self.width * self.height
    }

    pub fn top_left(self) -> (p: Pos)
        ensures
            p == (Pos { x: self.x, y: self.y }),
            p == corner(self),
    {
        Pos { x: self.x, y: self.y }
    }

    pub fn mid_x(self) -> (m: Coord)
        requires
            self.x * 2 + self.width <= usize::MAX,
        ensures
            m == (self.x * 2 + self.width) / 2,
    {
        ((self.x * 2) + self.width) / 2
    }

    pub fn mid_y(self) -> (m: Coord)
        requires
            self.y * 2 + self.height <= usize::MAX,
        ensures
            m == (self.y * 2 + self.height) / 2,
    {
        ((self.y * 2) + self.height) / 2
    }

    pub fn max_x(self) -> (m: Coord)
        requires
            self.x + self.width <= usize::MAX,
        ensures
            m == self.x + self.width,
    {
        self.x + self.width
    }

    pub fn max_y(self) -> (m: Coord)
        requires
            self.y + self.height <= usize::MAX,
        ensures
            m == self.y + self.height,
    {
        self.y + self.height
    }

    pub fn size(self) -> (s: Size)
        ensures
            s == (Size { width: self.width, height: self.height }),
    {
        Size { width: self.width, height: self.height }
    }

    /// The same rectangle moved by `pos`.
    pub fn add(self, pos: Pos) -> (r: Self)
        requires
            self.x + pos.x <= usize::MAX,
            self.y + pos.y <= usize::MAX,
        ensures
            r == (Rect {
                x: (self.x + pos.x) as usize,
                y: (self.y + pos.y) as usize,
                width: self.width,
                height: self.height,
            }),
            r == rect_moved(self, pos),
    {
        Rect { x: self.x + pos.x, y: self.y + pos.y, width: self.width, height: self.height }
    }

    /// The rectangle of size `s` at the origin.
    pub fn from_size(s: Size) -> (r: Self)
        ensures
            r == (Rect { x: 0, y: 0, width: s.width, height: s.height }),
    {
        Rect { x: 0, y: 0, width: s.width, height: s.height }
    }
}

/// The component-wise sum of two positions.
pub open spec fn pos_sum(a: Pos, b: Pos) -> Pos {
    Pos { x: (a.x + b.x) as usize, y: (a.y + b.y) as usize }
}

/// The top-left corner of a rectangle.
pub open spec fn corner(r: Rect) -> Pos {
    Pos { x: r.x, y: r.y }
}

/// A rectangle moved by `p`.
pub open spec fn rect_moved(r: Rect, p: Pos) -> Rect {
    Rect { x: (r.x + p.x) as usize, y: (r.y + p.y) as usize, width: r.width, height: r.height }
}

/// Moving a rectangle by `p` moves its top-left corner by `p` and keeps
/// its size.
pub proof fn lemma_rect_add_is_corner_add(r: Rect, p: Pos)
    requires
        r.x + p.x <= usize::MAX,
        r.y + p.y <= usize::MAX,
    ensures
        rect_moved(r, p) == (Rect {
            x: pos_sum(corner(r), p).x,
            y: pos_sum(corner(r), p).y,
            width: r.width,
            height: r.height,
        }),
{
}

/// Document order is a strict total order.
pub proof fn lemma_pos_order_total(p: Pos, q: Pos)
    ensures
        pos_lt(p, q) || p == q || pos_lt(q, p),
        !(pos_lt(p, q) && pos_lt(q, p)),
        !pos_lt(p, p),
        pos_lt(p, q) ==> !pos_le(q, p),
{
}

/// Document order is transitive.
pub proof fn lemma_pos_lt_transitive(p: Pos, q: Pos, r: Pos)
    requires
        pos_lt(p, q),
        pos_lt(q, r),
    ensures
        pos_lt(p, r),
{
}

/// A conversion into a coordinate that refuses negative values.
pub trait SafeCoordCast: Sized {
    /// The value converts without loss.
    spec fn coord_ok(self) -> bool;

    /// The value as a mathematical integer.
    spec fn coord_value(self) -> int;

    fn as_coord(self) -> (c: Coord)
        requires
            self.coord_ok(),
        ensures
            c as int == self.coord_value(),
    ;
}

impl SafeCoordCast for u64 {
    open spec fn coord_ok(self) -> bool {
        self <= usize::MAX
    }

    open spec fn coord_value(self) -> int {
        self as int
    }

    fn as_coord(self) -> (c: Coord) {
        self as Coord
    }
}

impl SafeCoordCast for i64 {
    open spec fn coord_ok(self) -> bool {
        0 <= self <= usize::MAX
    }

    open spec fn coord_value(self) -> int {
        self as int
    }

    fn as_coord(self) -> (c: Coord) {
        self as Coord
    }
}

impl SafeCoordCast for i32 {
    open spec fn coord_ok(self) -> bool {
        0 <= self
    }

    open spec fn coord_value(self) -> int {
        self as int
    }

    fn as_coord(self) -> (c: Coord) {
        self as Coord
    }
}

impl SafeCoordCast for usize {
    open spec fn coord_ok(self) -> bool {
        true
    }

    open spec fn coord_value(self) -> int {
        self as int
    }

    fn as_coord(self) -> (c: Coord) {
        self
    }
}

impl SafeCoordCast for i16 {
    open spec fn coord_ok(self) -> bool {
        0 <= self
    }

    open spec fn coord_value(self) -> int {
        self as int
    }

    fn as_coord(self) -> (c: Coord) {
        self as Coord
    }
}

impl SafeCoordCast for u16 {
    open spec fn coord_ok(self) -> bool {
        true
    }

    open spec fn coord_value(self) -> int {
        self as int
    }

    fn as_coord(self) -> (c: Coord) {
        self as Coord
    }
}

} // verus!
