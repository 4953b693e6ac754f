//! Integer grid coordinates and axis-aligned footprints.

use vstd::math::abs;
use vstd::prelude::*;
use vstd::std_specs::convert::IntoSpec;
use vstd::string::{to_string_from_display_ensures, StringExecFns};

verus! {

/// A cell of the grid, or a displacement between two cells. `y` counts rows
/// downwards, `x` counts columns to the right.
#[derive(PartialEq, Eq, Structural, PartialOrd, Ord, Hash, Clone, Copy, Debug)]
pub struct Location {
    pub y: i32,
    pub x: i32,
}

impl Location {
    /// The Manhattan length of `self` taken as a displacement.
    pub open spec fn spec_norm(self) -> int {
        (abs(self.y as int) + abs(self.x as int)) as int
    }

    /// The Manhattan distance between two cells.
    pub open spec fn spec_distance_to(self, other: Location) -> int {
        (abs(self.y - other.y) + abs(self.x - other.x)) as int
    }

    /// The Manhattan distance to `other`.
    pub fn distance_to(self, other: Location) -> (d: u32)
        requires
            self.spec_distance_to(other) <= u32::MAX,
        ensures
            d == self.spec_distance_to(other),
    {
        let dy: i64 = self.y as i64 - other.y as i64;
        let dx: i64 = self.x as i64 - other.x as i64;
        let ay: i64 = if dy < 0 { -dy } else { dy };
        let ax: i64 = if dx < 0 { -dx } else { dx };
        (ay + ax) as u32
    }

    /// The Manhattan length of `self`.
    pub fn norm(self) -> (n: u32)
        requires
            self.spec_norm() <= u32::MAX,
        ensures
            n == self.spec_norm(),
    {
        let y: i64 = self.y as i64;
        let x: i64 = self.x as i64;
        let ay: i64 = if y < 0 { -y } else { y };
        let ax: i64 = if x < 0 { -x } else { x };
        (ay + ax) as u32
    }

    /// `text` is the location as it is written: an opening parenthesis, the
    /// row as `row` writes it, a comma and a blank, the column as `column`
    /// writes it, and a closing parenthesis.
    pub open spec fn spec_written(text: Seq<char>, row: Seq<char>, column: Seq<char>) -> bool {
        text == "("@ + row + ", "@ + column + ")"@
    }

    /// The location as it is written, `(y, x)`, with each number as an `i32`
    /// is displayed.
    pub fn to_string(&self) -> (text: String)
        ensures
            exists|row: String, column: String|
                to_string_from_display_ensures::<i32>(&self.y, row)
                    && to_string_from_display_ensures::<i32>(&self.x, column)
                    && Location::spec_written(text@, row@, column@),
    {
        let row: String = self.y.to_string();
        let column: String = self.x.to_string();
        let mut text: String = String::from_str("(");
        text.append(row.as_str());
        text.append(", ");
        text.append(column.as_str());
        text.append(")");
        assert(Location::spec_written(text@, row@, column@));
        text
    }

    /// The cell one row up.
    pub fn north(self) -> (l: Location)
        requires
            self.y > i32::MIN,
        ensures
            l.y == self.y - 1,
            l.x == self.x,
    {
        Location { y: self.y - 1, x: self.x }
    }

    /// The cell one column to the left.
    pub fn west(self) -> (l: Location)
        requires
            self.x > i32::MIN,
        ensures
            l.y == self.y,
            l.x == self.x - 1,
    {
        Location { y: self.y, x: self.x - 1 }
    }

    /// The cell one row down.
    pub fn south(self) -> (l: Location)
        requires
            self.y < i32::MAX,
        ensures
            l.y == self.y + 1,
            l.x == self.x,
    {
        Location { y: self.y + 1, x: self.x }
    }

    /// The cell one column to the right.
    pub fn east(self) -> (l: Location)
        requires
            self.x < i32::MAX,
        ensures
            l.y == self.y,
            l.x == self.x + 1,
    {
        Location { y: self.y, x: self.x + 1 }
    }
}

impl core::ops::Add for Location {
    type Output = Location;

    fn add(self, rhs: Location) -> (sum: Location) {
        Location { y: self.y + rhs.y, x: self.x + rhs.x }
    }
}

impl vstd::std_specs::ops::AddSpecImpl for Location {
    open spec fn obeys_add_spec() -> bool {
        true
    }

    open spec fn add_req(self, rhs: Location) -> bool {
        &&& i32::MIN <= self.y + rhs.y <= i32::MAX
        &&& i32::MIN <= self.x + rhs.x <= i32::MAX
    }

    open spec fn add_spec(self, rhs: Location) -> Location {
        Location { y: (self.y + rhs.y) as i32, x: (self.x + rhs.x) as i32 }
    }
}

impl core::ops::Sub for Location {
    type Output = Location;

    fn sub(self, rhs: Location) -> (difference: Location) {
        Location { y: self.y - rhs.y, x: self.x - rhs.x }
    }
}

impl vstd::std_specs::ops::SubSpecImpl for Location {
    open spec fn obeys_sub_spec() -> bool {
        true
    }

    open spec fn sub_req(self, rhs: Location) -> bool {
        &&& i32::MIN <= self.y - rhs.y <= i32::MAX
        &&& i32::MIN <= self.x - rhs.x <= i32::MAX
    }

    open spec fn sub_spec(self, rhs: Location) -> Location {
        Location { y: (self.y - rhs.y) as i32, x: (self.x - rhs.x) as i32 }
    }
}

impl core::convert::From<(i32, i32)> for Location {
    fn from(pair: (i32, i32)) -> (l: Location) {
        Location { y: pair.0, x: pair.1 }
    }
}

impl vstd::std_specs::convert::FromSpecImpl<(i32, i32)> for Location {
    open spec fn obeys_from_spec() -> bool {
        true
    }

    open spec fn from_spec(pair: (i32, i32)) -> Location {
        Location { y: pair.0, x: pair.1 }
    }
}

/// The smaller of the magnitudes of `a` and `b`, positive where the two agree
/// in sign and negative where they do not.
pub open spec fn spec_signed_minimum(a: int, b: int) -> int {
    let m: int = if abs(a) <= abs(b) { abs(a) as int } else { abs(b) as int };
    if (a < 0) == (b < 0) { m } else { -m }
}

/// The signed gap between the intervals `[lo1, hi1)` and `[lo2, hi2)`: the
/// distance between them where they are apart, zero where they touch, and
/// minus the depth by which they overlap otherwise.
pub open spec fn spec_axis_gap(lo1: int, hi1: int, lo2: int, hi2: int) -> int {
    if lo1 - hi2 >= lo2 - hi1 { lo1 - hi2 } else { lo2 - hi1 }
}

/// Computes `spec_signed_minimum`.
pub fn signed_minimum(a: i64, b: i64) -> (m: i64)
    requires
        i64::MIN < a,
        i64::MIN < b,
    ensures
        m == spec_signed_minimum(a as int, b as int),
{
    let abs_a: i64 = if a < 0 { -a } else { a };
    let abs_b: i64 = if b < 0 { -b } else { b };
    let least: i64 = if abs_a <= abs_b { abs_a } else { abs_b };
    if (a < 0) == (b < 0) { least } else { -least }
}

/// An axis-aligned footprint: the cells from `location` on, `dimensions.y`
/// rows down and `dimensions.x` columns to the right.
#[derive(Clone, Copy, Debug)]
pub struct Rectangle {
    pub location: Location,
    pub dimensions: Location,
}

impl Rectangle {
    /// Both extents are positive.
    pub open spec fn positive(self) -> bool {
        self.dimensions.y > 0 && self.dimensions.x > 0
    }

    pub open spec fn spec_top_edge(self) -> int {
        self.location.y as int
    }

    pub open spec fn spec_bottom_edge(self) -> int {
        self.location.y + self.dimensions.y
    }

    pub open spec fn spec_left_edge(self) -> int {
        self.location.x as int
    }

    pub open spec fn spec_right_edge(self) -> int {
        self.location.x + self.dimensions.x
    }

    /// The cell `l` lies in the footprint.
    pub open spec fn covers(self, l: Location) -> bool {
        &&& self.spec_top_edge() <= l.y < self.spec_bottom_edge()
        &&& self.spec_left_edge() <= l.x < self.spec_right_edge()
    }

    /// The signed gap along the rows, by the closest approaching edges.
    pub open spec fn spec_row_distance(self, other: Rectangle) -> int {
        spec_signed_minimum(
            self.spec_bottom_edge() - other.spec_top_edge(),
            self.spec_top_edge() - other.spec_bottom_edge(),
        )
    }

    /// The signed gap along the columns, by the closest approaching edges.
    pub open spec fn spec_column_distance(self, other: Rectangle) -> int {
        spec_signed_minimum(
            self.spec_right_edge() - other.spec_left_edge(),
            self.spec_left_edge() - other.spec_right_edge(),
        )
    }

    /// The collision distance: the larger of the two axis gaps.
    pub open spec fn spec_collision_distance(self, other: Rectangle) -> int {
        let rows = self.spec_row_distance(other);
        let columns = self.spec_column_distance(other);
        if rows >= columns { rows } else { columns }
    }

    /// The number of cells covered.
    pub open spec fn spec_area(self) -> int {
        if self.positive() { self.dimensions.y * self.dimensions.x } else { 0 }
    }

    /// A footprint at `location` with the extents `dimensions`.
    pub fn new<L: Into<Location>, D: Into<Location>>(location: L, dimensions: D) -> (r: Rectangle)
        ensures
            <L as IntoSpec<Location>>::obeys_into_spec() ==> r.location == <L as IntoSpec<
                Location,
            >>::into_spec(location),
            <D as IntoSpec<Location>>::obeys_into_spec() ==> r.dimensions == <D as IntoSpec<
                Location,
            >>::into_spec(dimensions),
    {
        Rectangle { location: location.into(), dimensions: dimensions.into() }
    }

    /// The first row covered.
    pub fn top_edge(&self) -> (e: i32)
        ensures
            e == self.spec_top_edge(),
    {
        self.location.y
    }

    /// The row just below the last row covered.
    pub fn bottom_edge(&self) -> (e: i32)
        requires
            i32::MIN <= self.spec_bottom_edge() <= i32::MAX,
        ensures
            e == self.spec_bottom_edge(),
    {
        self.location.y + self.dimensions.y
    }

    /// The first column covered.
    pub fn left_edge(&self) -> (e: i32)
        ensures
            e == self.spec_left_edge(),
    {
        self.location.x
    }

    /// The column just right of the last column covered.
    pub fn right_edge(&self) -> (e: i32)
        requires
            i32::MIN <= self.spec_right_edge() <= i32::MAX,
        ensures
            e == self.spec_right_edge(),
    {
        self.location.x + self.dimensions.x
    }

    /// Row `y`, column `x` lies in the footprint.
    pub open spec fn spec_covers_at(self, y: int, x: int) -> bool {
        &&& self.spec_top_edge() <= y < self.spec_bottom_edge()
        &&& self.spec_left_edge() <= x < self.spec_right_edge()
    }

    /// Whether row `y`, column `x` lies in the footprint.
    pub fn contains_at(&self, y: i64, x: i64) -> (inside: bool)
        ensures
            inside == self.spec_covers_at(y as int, x as int),
    {
        let top: i64 = self.location.y as i64;
        let left: i64 = self.location.x as i64;
        top <= y && y < top + self.dimensions.y as i64 && left <= x && x < left
            + self.dimensions.x as i64
    }

    /// Whether the cell `l` lies in the footprint.
    pub fn contains(&self, l: Location) -> (inside: bool)
        ensures
            inside == self.covers(l),
    {
        let y: i64 = l.y as i64;
        let x: i64 = l.x as i64;
        let top: i64 = self.location.y as i64;
        let left: i64 = self.location.x as i64;
        top <= y && y < top + self.dimensions.y as i64 && left <= x && x < left
            + self.dimensions.x as i64
    }

    /// The collision distance to `other`, in a type wide enough for any two
    /// rectangles.
    pub fn wide_collision_distance(&self, other: &Rectangle) -> (d: i64)
        ensures
            d == self.spec_collision_distance(*other),
    {
        let top: i64 = self.location.y as i64;
        let bottom: i64 = self.location.y as i64 + self.dimensions.y as i64;
        let left: i64 = self.location.x as i64;
        let right: i64 = self.location.x as i64 + self.dimensions.x as i64;
        let other_top: i64 = other.location.y as i64;
        let other_bottom: i64 = other.location.y as i64 + other.dimensions.y as i64;
        let other_left: i64 = other.location.x as i64;
        let other_right: i64 = other.location.x as i64 + other.dimensions.x as i64;
        let y_dist: i64 = signed_minimum(bottom - other_top, top - other_bottom);
        let x_dist: i64 = signed_minimum(right - other_left, left - other_right);
        if y_dist >= x_dist { y_dist } else { x_dist }
    }

    /// The signed distance to `other`: positive where the two are that many
    /// cells apart along the axis that keeps them apart, zero where they
    /// touch, negative where they overlap.
    pub fn collision_distance(&self, other: &Rectangle) -> (d: i32)
        requires
            i32::MIN <= self.spec_collision_distance(*other) <= i32::MAX,
        ensures
            d == self.spec_collision_distance(*other),
    {
        self.wide_collision_distance(other) as i32
    }

    /// Every cell covered, row by row, each row from left to right.
    pub fn locations(self) -> (cells: Vec<Location>)
        requires
            self.spec_area() <= usize::MAX,
            self.positive() ==> self.spec_bottom_edge() - 1 <= i32::MAX,
            self.positive() ==> self.spec_right_edge() - 1 <= i32::MAX,
        ensures
            cells@.len() == self.spec_area(),
            forall|r: int, c: int|
                0 <= r < self.dimensions.y && 0 <= c < self.dimensions.x ==> (#[trigger] cells@[r
                    * self.dimensions.x + c]) == (Location {
                    y: (self.location.y + r) as i32,
                    x: (self.location.x + c) as i32,
                }),
    {
        let mut cells: Vec<Location> = Vec::new();
        let height: i32 = self.dimensions.y;
        let width: i32 = self.dimensions.x;
        if height <= 0 || width <= 0 {
            return cells;
        }
        let mut y: i32 = 0;
        while y < height
            invariant
                0 <= y <= height,
                0 < width,
                height == self.dimensions.y,
                width == self.dimensions.x,
                self.spec_area() == height * width,
                self.spec_area() <= usize::MAX,
                self.spec_bottom_edge() - 1 <= i32::MAX,
                self.spec_right_edge() - 1 <= i32::MAX,
                cells@.len() == y * width,
                forall|r: int, c: int|
                    0 <= r < y && 0 <= c < width ==> (#[trigger] cells@[r * width + c]) == (
                    Location { y: (self.location.y + r) as i32, x: (self.location.x + c) as i32 }),
            decreases height - y,
        {
            let mut x: i32 = 0;
            while x < width
                invariant
                    0 <= y < height,
                    0 <= x <= width,
                    height == self.dimensions.y,
                    width == self.dimensions.x,
                    self.spec_bottom_edge() - 1 <= i32::MAX,
                    self.spec_right_edge() - 1 <= i32::MAX,
                    cells@.len() == y * width + x,
                    forall|r: int, c: int|
                        (0 <= r < y && 0 <= c < width) || (r == y && 0 <= c < x) ==> (
                        #[trigger] cells@[r * width + c]) == (Location {
                            y: (self.location.y + r) as i32,
                            x: (self.location.x + c) as i32,
                        }),
                decreases width - x,
            {
                let ghost before = cells@;
                cells.push(Location { y: self.location.y + y, x: self.location.x + x });
                proof {
                    assert forall|r: int, c: int|
                        (0 <= r < y && 0 <= c < width) || (r == y && 0 <= c < x + 1) implies (
                    #[trigger] cells@[r * width + c]) == (Location {
                        y: (self.location.y + r) as i32,
                        x: (self.location.x + c) as i32,
                    }) by {
                        if r < y {
                            lemma_row_major_index(r, c, y as int, width as int);
                            assert(cells@[r * width + c] == before[r * width + c]);
                        } else if c < x {
                            assert(cells@[r * width + c] == before[r * width + c]);
                        }
                    }
                }
                x = x + 1;
            }
            proof {
                assert((y + 1) * width == y * width + width) by (nonlinear_arith);
            }
            y = y + 1;
        }
        cells
    }
}

/// In a table `width` wide, the cell at row `r` and column `c` comes before
/// the first cell of any later row.
pub proof fn lemma_row_major_index(r: int, c: int, rows: int, width: int)
    requires
        0 <= r < rows,
        0 <= c < width,
    ensures
        0 <= r * width + c < rows * width,
{
    assert(r * width + c < rows * width) by (nonlinear_arith)
        requires
            0 <= r < rows,
            0 <= c < width,
    ;
    assert(0 <= r * width + c) by (nonlinear_arith)
        requires
            0 <= r,
            0 <= c,
            0 < width,
    ;
}

/// The collision distance does not depend on which of the two rectangles is
/// asked: `a.collision_distance(b) == b.collision_distance(a)`, whatever the
/// extents.
pub proof fn lemma_collision_distance_symmetric(a: Rectangle, b: Rectangle)
    ensures
        a.spec_collision_distance(b) == b.spec_collision_distance(a),
{
    lemma_signed_min_mirror(
        a.spec_bottom_edge() - b.spec_top_edge(),
        a.spec_top_edge() - b.spec_bottom_edge(),
    );
    lemma_signed_min_mirror(
        a.spec_right_edge() - b.spec_left_edge(),
        a.spec_left_edge() - b.spec_right_edge(),
    );
}

/// Negating both arguments and swapping them leaves `spec_signed_minimum` as it is.
pub proof fn lemma_signed_min_mirror(a: int, b: int)
    ensures
        spec_signed_minimum(a, b) == spec_signed_minimum(-b, -a),
{
}

/// With positive extents, each axis distance is the signed gap between the
/// two intervals on that axis, and the collision distance is the larger gap.
pub proof fn lemma_collision_distance_is_gap(a: Rectangle, b: Rectangle)
    requires
        a.positive(),
        b.positive(),
    ensures
        a.spec_row_distance(b) == spec_axis_gap(
            a.spec_top_edge(),
            a.spec_bottom_edge(),
            b.spec_top_edge(),
            b.spec_bottom_edge(),
        ),
        a.spec_column_distance(b) == spec_axis_gap(
            a.spec_left_edge(),
            a.spec_right_edge(),
            b.spec_left_edge(),
            b.spec_right_edge(),
        ),
{
}

/// With positive extents, the collision distance is negative exactly where
/// the two rectangles share a cell.
pub proof fn lemma_negative_distance_is_overlap(a: Rectangle, b: Rectangle)
    requires
        a.positive(),
        b.positive(),
    ensures
        a.spec_collision_distance(b) < 0 <==> exists|l: Location| a.covers(l) && b.covers(l),
{
    lemma_collision_distance_is_gap(a, b);
    if a.spec_collision_distance(b) < 0 {
        let y: int = if a.spec_top_edge() >= b.spec_top_edge() {
            a.spec_top_edge()
        } else {
            b.spec_top_edge()
        };
        let x: int = if a.spec_left_edge() >= b.spec_left_edge() {
            a.spec_left_edge()
        } else {
            b.spec_left_edge()
        };
        let shared = Location { y: y as i32, x: x as i32 };
        assert(a.covers(shared) && b.covers(shared));
    }
}

} // verus!
