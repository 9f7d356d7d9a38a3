//! The vector value type used for positions and velocities.
use vstd::prelude::*;

verus! {

/// Fixed-point scale: the integer `x` stands for the real number `x / SCALE`.
pub const SCALE: i64 = 65536;

/// Quotient of `p` by `SCALE`, rounded toward zero.
pub open spec fn div_scale(p: int) -> int {
    if p >= 0 {
        p / (SCALE as int)
    } else {
        -((-p) / (SCALE as int))
    }
}

/// Fixed-point product of a coordinate and a factor.
pub open spec fn fx_mul(x: int, k: int) -> int {
    div_scale(x * k)
}

/// `x` brought into `[lo, hi]`.
pub open spec fn clamp_int(x: int, lo: int, hi: int) -> int {
    if x < lo {
        lo
    } else if x > hi {
        hi
    } else {
        x
    }
}

pub open spec fn seq_add(a: Seq<int>, b: Seq<int>) -> Seq<int> {
    Seq::new(a.len(), |j: int| a[j] + b[j])
}

pub open spec fn seq_sub(a: Seq<int>, b: Seq<int>) -> Seq<int> {
    Seq::new(a.len(), |j: int| a[j] - b[j])
}

pub open spec fn seq_scale(a: Seq<int>, k: int) -> Seq<int> {
    Seq::new(a.len(), |j: int| fx_mul(a[j], k))
}

pub open spec fn seq_clamp(a: Seq<int>, lo: Seq<int>, hi: Seq<int>) -> Seq<int> {
    Seq::new(a.len(), |j: int| clamp_int(a[j], lo[j], hi[j]))
}

/// Every component of `a` is representable as an `i64`.
pub open spec fn fits_i64(a: Seq<int>) -> bool {
    forall|j: int| 0 <= j < a.len() ==> i64::MIN <= #[trigger] a[j] <= i64::MAX
}

/// `a`, `lo` and `hi` have one length and `lo[j] <= a[j] <= hi[j]` for each `j`.
pub open spec fn in_box(a: Seq<int>, lo: Seq<int>, hi: Seq<int>) -> bool {
    &&& a.len() == lo.len()
    &&& a.len() == hi.len()
    &&& forall|j: int| 0 <= j < a.len() ==> lo[j] <= #[trigger] a[j] <= hi[j]
}

/// `lo` and `hi` have one length and `lo[j] <= hi[j]` for each `j`.
pub open spec fn valid_box(lo: Seq<int>, hi: Seq<int>) -> bool {
    &&& lo.len() == hi.len()
    &&& forall|j: int| 0 <= j < lo.len() ==> #[trigger] lo[j] <= hi[j]
}

/// Lexicographic order of two sequences of one length, component 0 first.
pub open spec fn lex_cmp(a: Seq<int>, b: Seq<int>) -> std::cmp::Ordering
    decreases a.len(),
{
    if a.len() == 0 || b.len() == 0 {
        std::cmp::Ordering::Equal
    } else if a[0] < b[0] {
        std::cmp::Ordering::Less
    } else if a[0] > b[0] {
        std::cmp::Ordering::Greater
    } else {
        lex_cmp(a.drop_first(), b.drop_first())
    }
}

/// A fixed-length vector of fixed-point coordinates, used for positions and
/// velocities alike. Every operation returns a new vector, except the `_assign`
/// ones, which change the receiver only.
#[derive(Debug)]
pub struct Particle {
    position: Vec<i64>,
}

/// Velocities share the representation of positions.
pub type Velocity = Particle;

impl View for Particle {
    type V = Seq<int>;

    closed spec fn view(&self) -> Seq<int> {
        self.position@.map_values(|x: i64| x as int)
    }
}

impl Particle {
    /// A vector holding `position`.
    pub fn new(position: Vec<i64>) -> (r: Particle)
        ensures
            r@ == position@.map_values(|x: i64| x as int),
    {
        Particle { position }
    }

    /// The zero vector of length `dim`.
    pub fn zeros(dim: usize) -> (r: Particle)
        ensures
            r@ == Seq::new(dim as nat, |j: int| 0int),
    {
        let mut position: Vec<i64> = Vec::with_capacity(dim);
        let mut i: usize = 0;
        while i < dim
            invariant
                i <= dim,
                position@.len() == i,
                forall|j: int| 0 <= j < i ==> position@[j] == 0,
            decreases dim - i,
        {
            position.push(0);
            i = i + 1;
        }
        let r = Particle { position };
        assert(r@ =~= Seq::new(dim as nat, |j: int| 0int));
        r
    }

    /// Number of components.
    pub fn dim(&self) -> (r: usize)
        ensures
            r == self@.len(),
    {
        self.position.len()
    }

    /// Component `index`.
    pub fn get(&self, index: usize) -> (r: i64)
        requires
            index < self@.len(),
        ensures
            r == self@[index as int],
    {
        self.position[index]
    }

    /// A copy of this vector.
    pub fn copy(&self) -> (r: Particle)
        ensures
            r@ == self@,
    {
        let mut position: Vec<i64> = Vec::with_capacity(self.position.len());
        let mut i: usize = 0;
        while i < self.position.len()
            invariant
                i <= self.position@.len(),
                position@ == self.position@.subrange(0, i as int),
            decreases self.position@.len() - i,
        {
            position.push(self.position[i]);
            i = i + 1;
            assert(position@ =~= self.position@.subrange(0, i as int));
        }
        assert(position@ =~= self.position@);
        Particle { position }
    }

    /// Pointwise sum.
    pub fn add(&self, other: &Particle) -> (r: Particle)
        requires
            self@.len() == other@.len(),
            fits_i64(seq_add(self@, other@)),
        ensures
            r@ == seq_add(self@, other@),
    {
        let mut position: Vec<i64> = Vec::with_capacity(self.position.len());
        let mut i: usize = 0;
        while i < self.position.len()
            invariant
                i <= self@.len(),
                self@.len() == other@.len(),
                fits_i64(seq_add(self@, other@)),
                position@.len() == i,
                forall|j: int| 0 <= j < i ==> position@[j] == self@[j] + other@[j],
            decreases self@.len() - i,
        {
            assert(i64::MIN <= seq_add(self@, other@)[i as int] <= i64::MAX);
            position.push(self.position[i] + other.position[i]);
            i = i + 1;
        }
        let r = Particle { position };
        assert(r@ =~= seq_add(self@, other@));
        r
    }

    /// Pointwise difference.
    pub fn sub(&self, other: &Particle) -> (r: Particle)
        requires
            self@.len() == other@.len(),
            fits_i64(seq_sub(self@, other@)),
        ensures
            r@ == seq_sub(self@, other@),
    {
        let mut position: Vec<i64> = Vec::with_capacity(self.position.len());
        let mut i: usize = 0;
        while i < self.position.len()
            invariant
                i <= self@.len(),
                self@.len() == other@.len(),
                fits_i64(seq_sub(self@, other@)),
                position@.len() == i,
                forall|j: int| 0 <= j < i ==> position@[j] == self@[j] - other@[j],
            decreases self@.len() - i,
        {
            assert(i64::MIN <= seq_sub(self@, other@)[i as int] <= i64::MAX);
            position.push(self.position[i] - other.position[i]);
            i = i + 1;
        }
        let r = Particle { position };
        assert(r@ =~= seq_sub(self@, other@));
        r
    }

    /// Adds `rhs` to this vector in place.
    pub fn add_assign(&mut self, rhs: &Particle)
        requires
            old(self)@.len() == rhs@.len(),
            fits_i64(seq_add(old(self)@, rhs@)),
        ensures
            final(self)@ == seq_add(old(self)@, rhs@),
    {
        let ghost start = self@;
        let mut i: usize = 0;
        while i < self.position.len()
            invariant
                i <= self@.len(),
                self@.len() == start.len(),
                start.len() == rhs@.len(),
                fits_i64(seq_add(start, rhs@)),
                self.position@.len() == start.len(),
                forall|j: int| 0 <= j < i ==> self.position@[j] == start[j] + rhs@[j],
                forall|j: int| i <= j < self.position@.len() ==> self.position@[j] == start[j],
            decreases start.len() - i,
        {
            assert(i64::MIN <= seq_add(start, rhs@)[i as int] <= i64::MAX);
            assert(self.position@[i as int] == self@[i as int]);
            let v = self.position[i] + rhs.position[i];
            self.position.set(i, v);
            i = i + 1;
        }
        assert(self@ =~= seq_add(start, rhs@));
    }

    /// Subtracts `rhs` from this vector in place.
    pub fn sub_assign(&mut self, rhs: &Particle)
        requires
            old(self)@.len() == rhs@.len(),
            fits_i64(seq_sub(old(self)@, rhs@)),
        ensures
            final(self)@ == seq_sub(old(self)@, rhs@),
    {
        let ghost start = self@;
        let mut i: usize = 0;
        while i < self.position.len()
            invariant
                i <= self@.len(),
                self@.len() == start.len(),
                start.len() == rhs@.len(),
                fits_i64(seq_sub(start, rhs@)),
                self.position@.len() == start.len(),
                forall|j: int| 0 <= j < i ==> self.position@[j] == start[j] - rhs@[j],
                forall|j: int| i <= j < self.position@.len() ==> self.position@[j] == start[j],
            decreases start.len() - i,
        {
            assert(i64::MIN <= seq_sub(start, rhs@)[i as int] <= i64::MAX);
            assert(self.position@[i as int] == self@[i as int]);
            let v = self.position[i] - rhs.position[i];
            self.position.set(i, v);
            i = i + 1;
        }
        assert(self@ =~= seq_sub(start, rhs@));
    }

    /// Each component multiplied by the fixed-point factor `k`, rounded toward zero.
    pub fn mul(&self, k: i64) -> (r: Particle)
        requires
            fits_i64(seq_scale(self@, k as int)),
        ensures
            r@ == seq_scale(self@, k as int),
    {
        let mut position: Vec<i64> = Vec::with_capacity(self.position.len());
        let mut i: usize = 0;
        while i < self.position.len()
            invariant
                i <= self@.len(),
                fits_i64(seq_scale(self@, k as int)),
                position@.len() == i,
                forall|j: int| 0 <= j < i ==> position@[j] == fx_mul(self@[j], k as int),
            decreases self@.len() - i,
        {
            let x = self.position[i];
            assert(i64::MIN <= seq_scale(self@, k as int)[i as int] <= i64::MAX);
            let p: i128 = (x as i128) * (k as i128);
            let q: i128 = p / (SCALE as i128);
            position.push(q as i64);
            i = i + 1;
        }
        let r = Particle { position };
        assert(r@ =~= seq_scale(self@, k as int));
        r
    }

    /// Each component `j` clamped into `[min[j], max[j]]`.
    pub fn restrict(&self, min: &Particle, max: &Particle) -> (r: Particle)
        requires
            self@.len() == min@.len(),
            valid_box(min@, max@),
        ensures
            r@ == seq_clamp(self@, min@, max@),
            in_box(r@, min@, max@),
    {
        let mut position: Vec<i64> = Vec::with_capacity(self.position.len());
        let mut i: usize = 0;
        while i < self.position.len()
            invariant
                i <= self@.len(),
                self@.len() == min@.len(),
                valid_box(min@, max@),
                position@.len() == i,
                forall|j: int|
                    0 <= j < i ==> position@[j] == clamp_int(self@[j], min@[j], max@[j]),
            decreases self@.len() - i,
        {
            let x = self.position[i];
            let lo = min.position[i];
            let hi = max.position[i];
            let c = if x < lo {
                lo
            } else if x > hi {
                hi
            } else {
                x
            };
            position.push(c);
            i = i + 1;
        }
        let r = Particle { position };
        assert(r@ =~= seq_clamp(self@, min@, max@));
        r
    }

    /// Lexicographic comparison, component 0 most significant.
    pub fn compare(&self, other: &Particle) -> (r: std::cmp::Ordering)
        requires
            self@.len() == other@.len(),
        ensures
            r == lex_cmp(self@, other@),
    {
        let mut i: usize = 0;
        assert(self@.skip(0) =~= self@);
        assert(other@.skip(0) =~= other@);
        while i < self.position.len()
            invariant
                i <= self@.len(),
                self@.len() == other@.len(),
                lex_cmp(self@, other@) == lex_cmp(self@.skip(i as int), other@.skip(i as int)),
            decreases self@.len() - i,
        {
            let a = self.position[i];
            let b = other.position[i];
            assert(self@.skip(i as int).drop_first() =~= self@.skip(i + 1));
            assert(other@.skip(i as int).drop_first() =~= other@.skip(i + 1));
            if a < b {
                return std::cmp::Ordering::Less;
            } else if a > b {
                return std::cmp::Ordering::Greater;
            }
            i = i + 1;
        }
        std::cmp::Ordering::Equal
    }
}

impl PartialEq for Particle {
    fn eq(&self, other: &Particle) -> (r: bool) {
        let n = self.position.len();
        if n != other.position.len() {
            assert(self@.len() != other@.len());
            return false;
        }
        let mut i: usize = 0;
        while i < n
            invariant
                i <= n,
                n == self@.len(),
                n == other@.len(),
                forall|j: int| 0 <= j < i ==> self@[j] == other@[j],
            decreases n - i,
        {
            if self.position[i] != other.position[i] {
                assert(self@[i as int] != other@[i as int]);
                return false;
            }
            i = i + 1;
        }
        assert(self@ =~= other@);
        true
    }
}

impl vstd::std_specs::cmp::PartialEqSpecImpl for Particle {
    open spec fn obeys_eq_spec() -> bool {
        true
    }

    open spec fn eq_spec(&self, other: &Particle) -> bool {
        self@ == other@
    }
}

/// Vectors of one dimension are ordered lexicographically; vectors of different
/// dimensions are not comparable.
impl PartialOrd for Particle {
    fn partial_cmp(&self, other: &Particle) -> (r: Option<std::cmp::Ordering>) {
        if self.position.len() != other.position.len() {
            None
        } else {
            Some(self.compare(other))
        }
    }
}

impl vstd::std_specs::cmp::PartialOrdSpecImpl for Particle {
    open spec fn obeys_partial_cmp_spec() -> bool {
        true
    }

    open spec fn partial_cmp_spec(&self, other: &Particle) -> Option<std::cmp::Ordering> {
        if self@.len() == other@.len() {
            Some(lex_cmp(self@, other@))
        } else {
            None
        }
    }
}

impl Eq for Particle {

}

} // verus!
