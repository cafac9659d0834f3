use crate::grids::directions::{Direction4, Direction8};
use vstd::prelude::*;

verus! {

/// Unsigned-int coordinates.
#[derive(Debug, Copy, Clone, Eq, PartialEq, Hash, Structural)]
pub struct Coord {
    pub x: usize,
    pub y: usize,
}

/// Signed-int coordinates.
#[derive(Debug, Copy, Clone, Eq, PartialEq, Hash, Structural)]
pub struct ICoord {
    pub x: isize,
    pub y: isize,
}

impl Coord {
    /// The neighbor of this coordinate one `delta` away, if neither of its parts is negative.
    pub open spec fn stepped(self, delta: ICoord) -> Option<Coord> {
        if self.x + delta.x >= 0 && self.y + delta.y >= 0 {
            Some(Coord { x: (self.x + delta.x) as usize, y: (self.y + delta.y) as usize })
        } else {
            None
        }
    }

    /// The neighbors of this coordinate along `deltas`, in their order, without
    /// those that have a negative part.
    pub open spec fn neighbors(self, deltas: Seq<ICoord>) -> Seq<Coord>
        decreases deltas.len(),
    {
        if deltas.len() == 0 {
            Seq::empty()
        } else {
            let before = self.neighbors(deltas.drop_last());
            match self.stepped(deltas.last()) {
                Some(c) => before.push(c),
                None => before,
            }
        }
    }

    /// The sum of this coordinate and another, part by part.
    pub open spec fn plus(self, rhs: Coord) -> Coord {
        Coord { x: (self.x + rhs.x) as usize, y: (self.y + rhs.y) as usize }
    }

    /// Whether the sum of this coordinate and another fits the machine's integers.
    pub open spec fn can_add(self, rhs: Coord) -> bool {
        self.x + rhs.x <= usize::MAX && self.y + rhs.y <= usize::MAX
    }

    /// This coordinate with both parts multiplied by `factor`.
    pub open spec fn times(self, factor: usize) -> Coord {
        Coord { x: (self.x * factor) as usize, y: (self.y * factor) as usize }
    }

    /// Whether this coordinate times `factor` fits the machine's integers.
    pub open spec fn can_scale(self, factor: usize) -> bool {
        self.x * factor <= usize::MAX && self.y * factor <= usize::MAX
    }

    /// This coordinate as text, `(x, y)`.
    ///
    /// The text is made by `format!` of the standard library; nothing is
    /// claimed of it here.
    #[verifier::external_body]
    pub fn to_string(&self) -> String {
        format!("({}, {})", self.x, self.y)
    }

    /// Make a new coord.
    pub fn new(x: usize, y: usize) -> (r: Self)
        ensures
            r.x == x,
            r.y == y,
    {
        Self { x, y }
    }

    /// This coordinate as an index into a row-major array of the given width:
    /// `y * width + x`.
    pub fn to_2d_idx(self, width: usize) -> (r: usize)
        requires
            self.y * width + self.x <= usize::MAX,
        ensures
            r == self.y * width + self.x,
    {
        proof {
            assert(self.y * width >= 0) by (nonlinear_arith)
                requires
                    self.y >= 0,
                    width >= 0,
            ;
        }
        self.y * width + self.x
    }

    /// This coordinate with signed parts. A part that no signed integer can
    /// hold wraps around.
    pub fn to_icoord(self) -> (r: ICoord)
        ensures
            r == (ICoord { x: self.x as isize, y: self.y as isize }),
            self.x <= isize::MAX ==> r.x == self.x,
            self.y <= isize::MAX ==> r.y == self.y,
    {
        ICoord { x: self.x as isize, y: self.y as isize }
    }

    /// The orthogonal neighbors of this coordinate, clockwise from the one to the
    /// north. A neighbor with a negative part is left out, so there are 2, 3 or 4.
    pub fn neighbors4(self) -> (r: Vec<Coord>)
        requires
            self.x < isize::MAX,
            self.y < isize::MAX,
        ensures
            r@ == self.neighbors(Direction4::all_deltas()),
    {
        let dirs: [Direction4; 4] = [
            Direction4::North,
            Direction4::East,
            Direction4::South,
            Direction4::West,
        ];
        let ghost deltas = Direction4::all_deltas();
        let iself: ICoord = self.to_icoord();
        let mut out: Vec<Coord> = Vec::new();
        let mut i: usize = 0;
        while i < 4
            invariant
                0 <= i <= 4,
                deltas == Direction4::all_deltas(),
                forall|k: int| 0 <= k < 4 ==> (#[trigger] dirs@[k]).delta() == deltas[k],
                iself.x == self.x,
                iself.y == self.y,
                self.x < isize::MAX,
                self.y < isize::MAX,
                out@ == self.neighbors(deltas.take(i as int)),
            decreases 4 - i,
        {
            proof {
                assert(deltas.take(i + 1).drop_last() =~= deltas.take(i as int));
                assert(deltas.take(i + 1).last() == dirs@[i as int].delta());
            }
            let next: ICoord = iself + dirs[i];
            match next.to_coord() {
                Some(c) => {
                    out.push(c);
                },
                None => {},
            }
            i = i + 1;
        }
        proof {
            assert(deltas.take(4) =~= deltas);
        }
        out
    }

    /// The orthogonal and diagonal neighbors of this coordinate, clockwise from
    /// the one to the north. A neighbor with a negative part is left out, so
    /// there are 3, 5 or 8.
    pub fn neighbors8(self) -> (r: Vec<Coord>)
        requires
            self.x < isize::MAX,
            self.y < isize::MAX,
        ensures
            r@ == self.neighbors(Direction8::all_deltas()),
    {
        let dirs: [Direction8; 8] = [
            Direction8::North,
            Direction8::NorthEast,
            Direction8::East,
            Direction8::SouthEast,
            Direction8::South,
            Direction8::SouthWest,
            Direction8::West,
            Direction8::NorthWest,
        ];
        let ghost deltas = Direction8::all_deltas();
        let iself: ICoord = self.to_icoord();
        let mut out: Vec<Coord> = Vec::new();
        let mut i: usize = 0;
        while i < 8
            invariant
                0 <= i <= 8,
                deltas == Direction8::all_deltas(),
                forall|k: int| 0 <= k < 8 ==> (#[trigger] dirs@[k]).delta() == deltas[k],
                iself.x == self.x,
                iself.y == self.y,
                self.x < isize::MAX,
                self.y < isize::MAX,
                out@ == self.neighbors(deltas.take(i as int)),
            decreases 8 - i,
        {
            proof {
                assert(deltas.take(i + 1).drop_last() =~= deltas.take(i as int));
                assert(deltas.take(i + 1).last() == dirs@[i as int].delta());
            }
            let next: ICoord = iself + dirs[i];
            match next.to_coord() {
                Some(c) => {
                    out.push(c);
                },
                None => {},
            }
            i = i + 1;
        }
        proof {
            assert(deltas.take(8) =~= deltas);
        }
        out
    }
}

impl ICoord {
    /// This coordinate moved by `delta`.
    pub open spec fn moved(self, delta: ICoord) -> ICoord {
        ICoord { x: (self.x + delta.x) as isize, y: (self.y + delta.y) as isize }
    }

    /// Whether this coordinate moved by `delta` still fits the machine's integers.
    pub open spec fn can_move(self, delta: ICoord) -> bool {
        &&& isize::MIN <= self.x + delta.x <= isize::MAX
        &&& isize::MIN <= self.y + delta.y <= isize::MAX
    }

    /// This coordinate with both parts multiplied by `factor`.
    pub open spec fn times(self, factor: isize) -> ICoord {
        ICoord { x: (self.x * factor) as isize, y: (self.y * factor) as isize }
    }

    /// Whether this coordinate times `factor` fits the machine's integers.
    pub open spec fn can_scale(self, factor: isize) -> bool {
        &&& isize::MIN <= self.x * factor <= isize::MAX
        &&& isize::MIN <= self.y * factor <= isize::MAX
    }

    /// This coordinate as text, `(x, y)`.
    ///
    /// The text is made by `format!` of the standard library; nothing is
    /// claimed of it here.
    #[verifier::external_body]
    pub fn to_string(&self) -> String {
        format!("({}, {})", self.x, self.y)
    }

    /// Create a new ICoord.
    pub fn new(x: isize, y: isize) -> (r: Self)
        ensures
            r.x == x,
            r.y == y,
    {
        Self { x, y }
    }

    /// The quadrant this coordinate is in, zero counting as positive:
    /// 1 for +x +y, 2 for -x +y, 3 for -x -y, 4 for +x -y.
    pub fn quadrant(self) -> (r: usize)
        ensures
            self.x >= 0 && self.y >= 0 ==> r == 1,
            self.x < 0 && self.y >= 0 ==> r == 2,
            self.x < 0 && self.y < 0 ==> r == 3,
            self.x >= 0 && self.y < 0 ==> r == 4,
    {
        if self.x >= 0 {
            if self.y >= 0 {
                1
            } else {
                4
            }
        } else {
            if self.y >= 0 {
                2
            } else {
                3
            }
        }
    }

    /// This coordinate with unsigned parts, or none if a part is negative.
    pub fn to_coord(self) -> (r: Option<Coord>)
        ensures
            self.x >= 0 && self.y >= 0 ==> r == Some(
                Coord { x: self.x as usize, y: self.y as usize },
            ),
            self.x < 0 || self.y < 0 ==> r is None,
    {
        match Coord::try_from(self) {
            Ok(c) => Some(c),
            Err(_) => None,
        }
    }

    /// The orthogonal neighbors of this coordinate, clockwise from the one to the north.
    pub fn neighbors4(self) -> (r: [ICoord; 4])
        requires
            isize::MIN < self.x < isize::MAX,
            isize::MIN < self.y < isize::MAX,
        ensures
            forall|k: int|
                0 <= k < 4 ==> #[trigger] r@[k] == self.moved(Direction4::all_deltas()[k]),
    {
        [
            self + Direction4::North,
            self + Direction4::East,
            self + Direction4::South,
            self + Direction4::West,
        ]
    }

    /// The orthogonal and diagonal neighbors of this coordinate, clockwise from
    /// the one to the north.
    pub fn neighbors8(self) -> (r: [ICoord; 8])
        requires
            isize::MIN < self.x < isize::MAX,
            isize::MIN < self.y < isize::MAX,
        ensures
            forall|k: int|
                0 <= k < 8 ==> #[trigger] r@[k] == self.moved(Direction8::all_deltas()[k]),
    {
        [
            self + Direction8::North,
            self + Direction8::NorthEast,
            self + Direction8::East,
            self + Direction8::SouthEast,
            self + Direction8::South,
            self + Direction8::SouthWest,
            self + Direction8::West,
            self + Direction8::NorthWest,
        ]
    }
}

impl core::ops::Add for Coord {
    type Output = Coord;

    /// The sum, part by part.
    fn add(self, rhs: Coord) -> (r: Coord) {
        Coord { x: self.x + rhs.x, y: self.y + rhs.y }
    }
}

impl vstd::std_specs::ops::AddSpecImpl for Coord {
    open spec fn obeys_add_spec() -> bool {
        true
    }

    open spec fn add_req(self, rhs: Coord) -> bool {
        self.can_add(rhs)
    }

    open spec fn add_spec(self, rhs: Coord) -> Coord {
        self.plus(rhs)
    }
}

impl core::ops::AddAssign for Coord {
    /// Adds `rhs`, part by part.
    fn add_assign(&mut self, rhs: Coord)
        requires
            old(self).can_add(rhs),
        ensures
            *final(self) == old(self).plus(rhs),
    {
        self.x = self.x + rhs.x;
        self.y = self.y + rhs.y;
    }
}

impl core::ops::Mul<usize> for Coord {
    type Output = Coord;

    /// Both parts multiplied by `rhs`.
    fn mul(self, rhs: usize) -> (r: Coord) {
        Coord { x: self.x * rhs, y: self.y * rhs }
    }
}

impl vstd::std_specs::ops::MulSpecImpl<usize> for Coord {
    open spec fn obeys_mul_spec() -> bool {
        true
    }

    open spec fn mul_req(self, rhs: usize) -> bool {
        self.can_scale(rhs)
    }

    open spec fn mul_spec(self, rhs: usize) -> Coord {
        self.times(rhs)
    }
}

impl core::ops::MulAssign<usize> for Coord {
    /// Multiplies both parts by `rhs`.
    fn mul_assign(&mut self, rhs: usize)
        requires
            old(self).can_scale(rhs),
        ensures
            *final(self) == old(self).times(rhs),
    {
        self.x = self.x * rhs;
        self.y = self.y * rhs;
    }
}

impl core::ops::Add for ICoord {
    type Output = ICoord;

    /// The sum, part by part.
    fn add(self, rhs: ICoord) -> (r: ICoord) {
        ICoord { x: self.x + rhs.x, y: self.y + rhs.y }
    }
}

impl vstd::std_specs::ops::AddSpecImpl for ICoord {
    open spec fn obeys_add_spec() -> bool {
        true
    }

    open spec fn add_req(self, rhs: ICoord) -> bool {
        self.can_move(rhs)
    }

    open spec fn add_spec(self, rhs: ICoord) -> ICoord {
        self.moved(rhs)
    }
}

impl core::ops::AddAssign for ICoord {
    /// Adds `rhs`, part by part.
    fn add_assign(&mut self, rhs: ICoord)
        requires
            old(self).can_move(rhs),
        ensures
            *final(self) == old(self).moved(rhs),
    {
        self.x = self.x + rhs.x;
        self.y = self.y + rhs.y;
    }
}

impl core::ops::Add<Direction4> for ICoord {
    type Output = ICoord;

    /// This coordinate one step in the direction.
    fn add(self, rhs: Direction4) -> (r: ICoord) {
        self + rhs.deltas()
    }
}

impl vstd::std_specs::ops::AddSpecImpl<Direction4> for ICoord {
    open spec fn obeys_add_spec() -> bool {
        true
    }

    open spec fn add_req(self, rhs: Direction4) -> bool {
        self.can_move(rhs.delta())
    }

    open spec fn add_spec(self, rhs: Direction4) -> ICoord {
        self.moved(rhs.delta())
    }
}

impl core::ops::AddAssign<Direction4> for ICoord {
    /// Moves this coordinate one step in the direction.
    fn add_assign(&mut self, rhs: Direction4)
        requires
            old(self).can_move(rhs.delta()),
        ensures
            *final(self) == old(self).moved(rhs.delta()),
    {
        let d: ICoord = rhs.deltas();
        self.x = self.x + d.x;
        self.y = self.y + d.y;
    }
}

impl core::ops::Add<Direction8> for ICoord {
    type Output = ICoord;

    /// This coordinate one step in the direction.
    fn add(self, rhs: Direction8) -> (r: ICoord) {
        self + rhs.deltas()
    }
}

impl vstd::std_specs::ops::AddSpecImpl<Direction8> for ICoord {
    open spec fn obeys_add_spec() -> bool {
        true
    }

    open spec fn add_req(self, rhs: Direction8) -> bool {
        self.can_move(rhs.delta())
    }

    open spec fn add_spec(self, rhs: Direction8) -> ICoord {
        self.moved(rhs.delta())
    }
}

impl core::ops::AddAssign<Direction8> for ICoord {
    /// Moves this coordinate one step in the direction.
    fn add_assign(&mut self, rhs: Direction8)
        requires
            old(self).can_move(rhs.delta()),
        ensures
            *final(self) == old(self).moved(rhs.delta()),
    {
        let d: ICoord = rhs.deltas();
        self.x = self.x + d.x;
        self.y = self.y + d.y;
    }
}

impl core::ops::Mul<isize> for ICoord {
    type Output = ICoord;

    /// Both parts multiplied by `rhs`.
    fn mul(self, rhs: isize) -> (r: ICoord) {
        ICoord { x: self.x * rhs, y: self.y * rhs }
    }
}

impl vstd::std_specs::ops::MulSpecImpl<isize> for ICoord {
    open spec fn obeys_mul_spec() -> bool {
        true
    }

    open spec fn mul_req(self, rhs: isize) -> bool {
        self.can_scale(rhs)
    }

    open spec fn mul_spec(self, rhs: isize) -> ICoord {
        self.times(rhs)
    }
}

impl core::ops::MulAssign<isize> for ICoord {
    /// Multiplies both parts by `rhs`.
    fn mul_assign(&mut self, rhs: isize)
        requires
            old(self).can_scale(rhs),
        ensures
            *final(self) == old(self).times(rhs),
    {
        self.x = self.x * rhs;
        self.y = self.y * rhs;
    }
}

impl From<Coord> for ICoord {
    /// The coordinate with signed parts. A part that no signed integer can
    /// hold wraps around.
    fn from(value: Coord) -> (r: ICoord) {
        ICoord { x: value.x as isize, y: value.y as isize }
    }
}

impl vstd::std_specs::convert::FromSpecImpl<Coord> for ICoord {
    open spec fn obeys_from_spec() -> bool {
        true
    }

    open spec fn from_spec(value: Coord) -> ICoord {
        ICoord { x: value.x as isize, y: value.y as isize }
    }
}

/// Calls `usize::try_from` on a signed integer.
///
/// The standard library documents that this conversion gives the same number
/// where the target type can hold it, and an error where it cannot: an
/// unsigned integer of the same width holds every number that is not negative.
#[verifier::external_body]
fn to_unsigned(value: isize) -> (r: Result<usize, core::num::TryFromIntError>)
    ensures
        r is Ok <==> value >= 0,
        r is Ok ==> r.unwrap() == value,
{
    usize::try_from(value)
}

impl TryFrom<ICoord> for Coord {
    type Error = core::num::TryFromIntError;

    /// The coordinate with unsigned parts, or an error if a part is negative.
    fn try_from(value: ICoord) -> (r: Result<Coord, core::num::TryFromIntError>)
        ensures
            value.x >= 0 && value.y >= 0 ==> r == Ok::<Coord, core::num::TryFromIntError>(
                Coord { x: value.x as usize, y: value.y as usize },
            ),
            value.x < 0 || value.y < 0 ==> r is Err,
    {
        let x: usize = match to_unsigned(value.x) {
            Ok(x) => x,
            Err(e) => {
                return Err(e);
            },
        };
        let y: usize = match to_unsigned(value.y) {
            Ok(y) => y,
            Err(e) => {
                return Err(e);
            },
        };
        Ok(Coord { x, y })
    }
}

impl vstd::std_specs::convert::TryFromSpecImpl<ICoord> for Coord {
    /// The error of a failed conversion is not a value that a contract can
    /// name, so the conversion is stated in the `ensures` of `try_from`.
    open spec fn obeys_try_from_spec() -> bool {
        false
    }

    open spec fn try_from_spec(value: ICoord) -> Result<Coord, core::num::TryFromIntError> {
        if value.x >= 0 && value.y >= 0 {
            Ok(Coord { x: value.x as usize, y: value.y as usize })
        } else {
            Err(arbitrary())
        }
    }
}

} // verus!
