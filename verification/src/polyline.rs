use vstd::prelude::*;
use crate::failure::{all_pass, decided, first_failure, first_rejected, ContractViolation};

verus! {

/// A polyline vertex: a position and the bulge of the segment that starts at it.
#[derive(Clone, Copy, Debug, PartialEq)]
pub struct Vertex<T> {
    pub x: T,
    pub y: T,
    pub bulge: T,
}

/// The vertexes that a flat sequence of `(x, y, bulge)` triplets holds, in order.
pub open spec fn triplets<T>(data: Seq<T>) -> Seq<Vertex<T>> {
    Seq::new(
        (data.len() / 3) as nat,
        |i: int| Vertex { x: data[3 * i], y: data[3 * i + 1], bulge: data[3 * i + 2] },
    )
}

/// The flat sequence `x0, y0, bulge0, x1, y1, bulge1, ...` of a vertex sequence.
pub open spec fn flat_triplets<T>(vertexes: Seq<Vertex<T>>) -> Seq<T> {
    Seq::new(
        3 * vertexes.len(),
        |k: int|
            if k % 3 == 0 {
                vertexes[k / 3].x
            } else if k % 3 == 1 {
                vertexes[k / 3].y
            } else {
                vertexes[k / 3].bulge
            },
    )
}

/// The flat sequence `x0, y0, x1, y1, ...` of the positions of a vertex sequence.
pub open spec fn flat_positions<T>(vertexes: Seq<Vertex<T>>) -> Seq<T> {
    Seq::new(
        2 * vertexes.len(),
        |k: int|
            if k % 2 == 0 {
                vertexes[k / 2].x
            } else {
                vertexes[k / 2].y
            },
    )
}

/// The vertex sequence that starts `count` places further along a closed loop.
pub open spec fn cycled<T>(vertexes: Seq<Vertex<T>>, count: nat) -> Seq<Vertex<T>> {
    Seq::new(vertexes.len(), |i: int| vertexes[(i + count) % (vertexes.len() as int)])
}

/// The number of segments of a vertex sequence: one from each vertex to the
/// next, and one from the last back to the first when closed. Fewer than two
/// vertexes make no segment.
pub open spec fn segment_total<T>(vertexes: Seq<Vertex<T>>, closed: bool) -> nat {
    if vertexes.len() < 2 {
        0
    } else if closed {
        vertexes.len()
    } else {
        (vertexes.len() - 1) as nat
    }
}

/// Whether `turned` traces `vertexes` in the opposite direction: the
/// positions in reverse order, each segment's bulge negated and moved to the
/// vertex that now starts the segment. The last vertex of a closed polyline
/// starts the closing segment reversed; that of an open one starts no segment
/// and keeps the bulge it had as first vertex. `negated(b, r)` says that `r`
/// is the negation of `b`. Fewer than two vertexes stay as they are.
pub open spec fn is_inverted<T>(
    vertexes: Seq<Vertex<T>>,
    closed: bool,
    negated: spec_fn(T, T) -> bool,
    turned: Seq<Vertex<T>>,
) -> bool {
    let n = vertexes.len() as int;
    if n < 2 {
        turned == vertexes
    } else {
        &&& turned.len() == n
        &&& forall|i: int|
            0 <= i < n ==> (#[trigger] turned[i]).x == vertexes[n - 1 - i].x && turned[i].y
                == vertexes[n - 1 - i].y
        &&& forall|i: int|
            0 <= i < n - 1 ==> negated(vertexes[n - 2 - i].bulge, (#[trigger] turned[i]).bulge)
        &&& if closed {
            negated(vertexes[n - 1].bulge, turned[n - 1].bulge)
        } else {
            turned[n - 1].bulge == vertexes[0].bulge
        }
    }
}

/// Whether `moved` is `vertexes` with each `x` mapped by `on_x` and each `y`
/// by `on_y`, the bulges kept: `on_x(a, b)` says that `a` maps to `b`.
pub open spec fn is_transformed<T>(
    vertexes: Seq<Vertex<T>>,
    on_x: spec_fn(T, T) -> bool,
    on_y: spec_fn(T, T) -> bool,
    moved: Seq<Vertex<T>>,
) -> bool {
    &&& moved.len() == vertexes.len()
    &&& forall|i: int|
        0 <= i < vertexes.len() ==> on_x(vertexes[i].x, (#[trigger] moved[i]).x) && on_y(
            vertexes[i].y,
            moved[i].y,
        ) && moved[i].bulge == vertexes[i].bulge
}

/// An ordered sequence of vertexes, open or closed. When closed, an implicit
/// last segment joins the last vertex to the first.
#[derive(Clone, Debug, PartialEq)]
pub struct Polyline<T> {
    vertexes: Vec<Vertex<T>>,
    closed: bool,
}

impl<T> View for Polyline<T> {
    type V = Seq<Vertex<T>>;

    closed spec fn view(&self) -> Seq<Vertex<T>> {
        self.vertexes@
    }
}

impl<T: Copy> Polyline<T> {
    /// Whether the polyline is closed.
    pub closed spec fn closed(&self) -> bool {
        self.closed
    }

    /// Builds a polyline from flat `(x, y, bulge)` triplets. Data that does
    /// not divide into triplets is refused, and so is data with a value that
    /// `finite` does not admit: a coordinate or a bulge that is no finite
    /// number.
    pub fn new<F: Fn(T) -> bool>(vertex_data: &[T], is_closed: bool, finite: F) -> (result: Result<
        Self,
        ContractViolation,
    >)
        requires
            forall|a: T| finite.requires((a,)),
            decided(finite),
        ensures
            result.is_ok() <==> vertex_data@.len() % 3 == 0 && all_pass(
                vertex_data@,
                |a: T, r: bool| finite.ensures((a,), r),
            ),
            result matches Ok(p) ==> p@ == triplets(vertex_data@) && p.closed() == is_closed,
            result matches Err(e) ==> if vertex_data@.len() % 3 != 0 {
                e == (ContractViolation::VertexData { len: vertex_data.len() })
            } else {
                e matches ContractViolation::NonFinite { index } && first_failure(
                    vertex_data@,
                    |a: T, r: bool| finite.ensures((a,), r),
                    index as int,
                )
            },
    {
        let len: usize = vertex_data.len();
        if len % 3 != 0 {
            return Err(ContractViolation::VertexData { len });
        }
        match first_rejected(vertex_data, finite) {
            Some(index) => {
                assert(!finite.ensures((vertex_data@[index as int],), true));
                Err(ContractViolation::NonFinite { index })
            },
            None => Ok(Self::framed(vertex_data, is_closed)),
        }
    }

    fn framed(vertex_data: &[T], is_closed: bool) -> (result: Self)
        requires
            vertex_data@.len() % 3 == 0,
        ensures
            result@ == triplets(vertex_data@),
            result.closed() == is_closed,
    {
        let len: usize = vertex_data.len();
        let n: usize = len / 3;
        let mut vertexes: Vec<Vertex<T>> = Vec::new();
        let mut i: usize = 0;
        while i < n
            invariant
                i <= n,
                len == vertex_data@.len(),
                n == vertex_data@.len() / 3,
                vertex_data@.len() % 3 == 0,
                vertexes@.len() == i,
                forall|j: int| 0 <= j < i ==> vertexes@[j] == triplets(vertex_data@)[j],
            decreases n - i,
        {
            assert(3 * i + 2 < vertex_data@.len());
            let v = Vertex {
                x: vertex_data[3 * i],
                y: vertex_data[3 * i + 1],
                bulge: vertex_data[3 * i + 2],
            };
            vertexes.push(v);
            i += 1;
        }
        assert(vertexes@ =~= triplets(vertex_data@));
        Polyline { vertexes, closed: is_closed }
    }

    /// Builds a polyline from a vertex sequence, or refuses one with a
    /// value that `finite` does not admit; the place named is that of the
    /// value in the flat `(x, y, bulge)` data of the sequence.
    pub fn from_vertexes<F: Fn(T) -> bool>(vertexes: Vec<Vertex<T>>, is_closed: bool, finite: F) -> (result:
        Result<Self, ContractViolation>)
        requires
            forall|a: T| finite.requires((a,)),
            decided(finite),
        ensures
            result.is_ok() <==> all_pass(
                flat_triplets(vertexes@),
                |a: T, r: bool| finite.ensures((a,), r),
            ),
            result matches Ok(p) ==> p@ == vertexes@ && p.closed() == is_closed,
            result matches Err(e) ==> e matches ContractViolation::NonFinite { index }
                && first_failure(
                flat_triplets(vertexes@),
                |a: T, r: bool| finite.ensures((a,), r),
                index as int,
            ),
    {
        let data = pline_vertexes_to_data(&vertexes);
        Self::new(data.as_slice(), is_closed, finite)
    }

    /// Tests every coordinate and bulge that the polyline holds, and names
    /// the first that `finite` does not admit by its place in the flat
    /// `(x, y, bulge)` data. A polyline that passes may be handed to the
    /// geometry operations.
    pub fn check<F: Fn(T) -> bool>(&self, finite: F) -> (result: Result<(), ContractViolation>)
        requires
            forall|a: T| finite.requires((a,)),
            decided(finite),
        ensures
            result.is_ok() <==> all_pass(
                flat_triplets(self@),
                |a: T, r: bool| finite.ensures((a,), r),
            ),
            result matches Err(e) ==> e matches ContractViolation::NonFinite { index }
                && first_failure(
                flat_triplets(self@),
                |a: T, r: bool| finite.ensures((a,), r),
                index as int,
            ),
    {
        let data = pline_vertexes_to_data(&self.vertexes);
        match first_rejected(data.as_slice(), finite) {
            Some(index) => {
                assert(!finite.ensures((data@[index as int],), true));
                Err(ContractViolation::NonFinite { index })
            },
            None => Ok(()),
        }
    }

    /// Appends a vertex, or refuses one with a value that `finite` does not
    /// admit and leaves the polyline as it was; the place named is 0 for
    /// `x`, 1 for `y` and 2 for `bulge`.
    pub fn add<F: Fn(T) -> bool>(&mut self, x: T, y: T, bulge: T, finite: F) -> (result: Result<
        (),
        ContractViolation,
    >)
        requires
            forall|a: T| finite.requires((a,)),
            decided(finite),
        ensures
            final(self).closed() == old(self).closed(),
            result.is_ok() <==> all_pass(seq![x, y, bulge], |a: T, r: bool| finite.ensures((a,), r)),
            result.is_ok() ==> final(self)@ == old(self)@.push(Vertex { x, y, bulge }),
            result.is_err() ==> final(self)@ == old(self)@,
            result matches Err(e) ==> e matches ContractViolation::NonFinite { index }
                && first_failure(
                seq![x, y, bulge],
                |a: T, r: bool| finite.ensures((a,), r),
                index as int,
            ),
    {
        let ghost given = seq![x, y, bulge];
        assert(given[0] == x && given[1] == y && given[2] == bulge);
        if !finite(x) {
            assert(!finite.ensures((given[0],), true));
            Err(ContractViolation::NonFinite { index: 0 })
        } else if !finite(y) {
            assert(!finite.ensures((given[1],), true));
            Err(ContractViolation::NonFinite { index: 1 })
        } else if !finite(bulge) {
            assert(!finite.ensures((given[2],), true));
            Err(ContractViolation::NonFinite { index: 2 })
        } else {
            self.vertexes.push(Vertex { x, y, bulge });
            Ok(())
        }
    }

    /// Removes every vertex and keeps the closed flag.
    pub fn clear(&mut self)
        ensures
            final(self)@ == Seq::<Vertex<T>>::empty(),
            final(self).closed() == old(self).closed(),
    {
        self.vertexes.clear();
    }

    /// The number of vertexes.
    pub fn length(&self) -> (n: usize)
        ensures
            n == self@.len(),
    {
        self.vertexes.len()
    }

    /// Whether the polyline has no vertex.
    pub fn is_empty(&self) -> (e: bool)
        ensures
            e == (self@.len() == 0),
    {
        self.vertexes.len() == 0
    }

    /// The vertex at `index`.
    pub fn vertex(&self, index: usize) -> (v: Vertex<T>)
        requires
            index < self@.len(),
        ensures
            v == self@[index as int],
    {
        self.vertexes[index]
    }

    /// The number of segments.
    pub fn segment_count(&self) -> (n: usize)
        ensures
            n == segment_total(self@, self.closed()),
    {
        let count: usize = self.vertexes.len();
        if count < 2 {
            0
        } else if self.closed {
            count
        } else {
            count - 1
        }
    }

    /// The segment that starts at vertex `index`: that vertex and the next,
    /// which for the closing segment is the first.
    pub fn segment(&self, index: usize) -> (ends: (Vertex<T>, Vertex<T>))
        requires
            index < segment_total(self@, self.closed()),
        ensures
            ends.0 == self@[index as int],
            ends.1 == self@[(index + 1) % (self@.len() as int)],
    {
        let count: usize = self.vertexes.len();
        let next: usize = if index + 1 >= count {
            0
        } else {
            index + 1
        };
        proof {
            if index + 1 == count {
                vstd::arithmetic::div_mod::lemma_mod_self_0(count as int);
            } else {
                vstd::arithmetic::div_mod::lemma_small_mod((index + 1) as nat, count as nat);
            }
        }
        (self.vertexes[index], self.vertexes[next])
    }

    /// Rotates the vertexes of a closed polyline so that the vertex at
    /// `count`, counted round the loop, comes first.
    pub fn cycle_vertexes(&mut self, count: usize)
        requires
            old(self).closed(),
        ensures
            final(self)@ == cycled(old(self)@, count as nat),
            final(self).closed(),
    {
        let n: usize = self.vertexes.len();
        if n == 0 {
            assert(self@ =~= cycled(self@, count as nat));
            return ;
        }
        let shift: usize = count % n;
        let mut turned: Vec<Vertex<T>> = Vec::new();
        let mut i: usize = 0;
        while i < n
            invariant
                0 < n == self.vertexes@.len(),
                shift == count % n,
                i <= n,
                turned@.len() == i,
                forall|j: int| 0 <= j < i ==> turned@[j] == cycled(self.vertexes@, count as nat)[j],
            decreases n - i,
        {
            let from: usize = if i < n - shift {
                i + shift
            } else {
                i - (n - shift)
            };
            assert(from as int == (i as int + count as int) % (n as int)) by {
                lemma_cycle_index(i as int, count as int, n as int);
            }
            turned.push(self.vertexes[from]);
            i += 1;
        }
        assert(turned@ =~= cycled(self.vertexes@, count as nat));
        self.vertexes = turned;
    }

    /// Reverses the direction of the polyline; `negate` gives the negation
    /// of a bulge.
    pub fn invert_direction<F: Fn(T) -> T>(&mut self, negate: F)
        requires
            forall|b: T| negate.requires((b,)),
        ensures
            is_inverted(
                old(self)@,
                old(self).closed(),
                (|b: T, r: T| negate.ensures((b,), r)),
                final(self)@,
            ),
            final(self).closed() == old(self).closed(),
    {
        let n: usize = self.vertexes.len();
        if n < 2 {
            return ;
        }
        let ghost negated = |b: T, r: T| negate.ensures((b,), r);
        let mut turned: Vec<Vertex<T>> = Vec::new();
        let mut i: usize = 0;
        while i < n
            invariant
                2 <= n == self.vertexes@.len(),
                i <= n,
                forall|b: T| negate.requires((b,)),
                negated == (|b: T, r: T| negate.ensures((b,), r)),
                turned@.len() == i,
                forall|j: int|
                    0 <= j < i ==> (#[trigger] turned@[j]).x == self.vertexes@[n - 1 - j].x
                        && turned@[j].y == self.vertexes@[n - 1 - j].y,
                forall|j: int|
                    0 <= j < i && j < n - 1 ==> negated(
                        self.vertexes@[n - 2 - j].bulge,
                        (#[trigger] turned@[j]).bulge,
                    ),
                i == n ==> if self.closed {
                    negated(self.vertexes@[n - 1].bulge, turned@[n - 1].bulge)
                } else {
                    turned@[n - 1].bulge == self.vertexes@[0].bulge
                },
            decreases n - i,
        {
            let at = self.vertexes[n - 1 - i];
            let bulge = if i < n - 1 {
                negate(self.vertexes[n - 2 - i].bulge)
            } else if self.closed {
                negate(self.vertexes[n - 1].bulge)
            } else {
                self.vertexes[0].bulge
            };
            turned.push(Vertex { x: at.x, y: at.y, bulge });
            i += 1;
        }
        self.vertexes = turned;
    }

    /// Scales every position about the origin and keeps the bulges;
    /// `scaled` gives the product of a coordinate with the factor.
    pub fn scale<F: Fn(T) -> T + Copy>(&mut self, scaled: F)
        requires
            forall|a: T| scaled.requires((a,)),
        ensures
            is_transformed(
                old(self)@,
                (|a: T, b: T| scaled.ensures((a,), b)),
                (|a: T, b: T| scaled.ensures((a,), b)),
                final(self)@,
            ),
            final(self).closed() == old(self).closed(),
    {
        self.transform(scaled, scaled);
    }

    /// Moves every position and keeps the bulges; `shifted_x` and
    /// `shifted_y` give a coordinate moved by the offset along its axis.
    pub fn translate<F: Fn(T) -> T, G: Fn(T) -> T>(&mut self, shifted_x: F, shifted_y: G)
        requires
            forall|a: T| shifted_x.requires((a,)),
            forall|a: T| shifted_y.requires((a,)),
        ensures
            is_transformed(
                old(self)@,
                (|a: T, b: T| shifted_x.ensures((a,), b)),
                (|a: T, b: T| shifted_y.ensures((a,), b)),
                final(self)@,
            ),
            final(self).closed() == old(self).closed(),
    {
        self.transform(shifted_x, shifted_y);
    }

    /// Maps every position, `x` by `on_x` and `y` by `on_y`, and keeps the
    /// bulges: a scaling or a translation leaves the sweep of each arc as
    /// it is.
    pub fn transform<F: Fn(T) -> T, G: Fn(T) -> T>(&mut self, on_x: F, on_y: G)
        requires
            forall|a: T| on_x.requires((a,)),
            forall|a: T| on_y.requires((a,)),
        ensures
            is_transformed(
                old(self)@,
                (|a: T, b: T| on_x.ensures((a,), b)),
                (|a: T, b: T| on_y.ensures((a,), b)),
                final(self)@,
            ),
            final(self).closed() == old(self).closed(),
    {
        let n: usize = self.vertexes.len();
        let mut moved: Vec<Vertex<T>> = Vec::new();
        let mut i: usize = 0;
        while i < n
            invariant
                n == self.vertexes@.len(),
                i <= n,
                forall|a: T| on_x.requires((a,)),
                forall|a: T| on_y.requires((a,)),
                moved@.len() == i,
                forall|j: int|
                    0 <= j < i ==> on_x.ensures((self.vertexes@[j].x,), (#[trigger] moved@[j]).x)
                        && on_y.ensures((self.vertexes@[j].y,), moved@[j].y) && moved@[j].bulge
                        == self.vertexes@[j].bulge,
            decreases n - i,
        {
            let v = self.vertexes[i];
            moved.push(Vertex { x: on_x(v.x), y: on_y(v.y), bulge: v.bulge });
            i += 1;
        }
        self.vertexes = moved;
    }

    /// The vertexes as flat `(x, y, bulge)` triplets.
    pub fn vertex_data(&self) -> (data: Vec<T>)
        ensures
            data@ == flat_triplets(self@),
            data@.len() % 3 == 0,
            triplets(data@) == self@,
    {
        pline_vertexes_to_data(&self.vertexes)
    }

    /// The vertex positions as flat `(x, y)` pairs.
    pub fn position_data(&self) -> (data: Vec<T>)
        ensures
            data@ == flat_positions(self@),
    {
        let n: usize = self.vertexes.len();
        let mut data: Vec<T> = Vec::new();
        let mut i: usize = 0;
        while i < n
            invariant
                n == self.vertexes@.len(),
                i <= n,
                data@.len() == 2 * i,
                forall|k: int| 0 <= k < 2 * i ==> data@[k] == flat_positions(self.vertexes@)[k],
            decreases n - i,
        {
            let v = self.vertexes[i];
            data.push(v.x);
            data.push(v.y);
            i += 1;
        }
        assert(data@ =~= flat_positions(self.vertexes@));
        data
    }

    /// Whether the polyline is closed.
    pub fn is_closed(&self) -> (c: bool)
        ensures
            c == self.closed(),
    {
        self.closed
    }

    /// Sets the closed flag and keeps the vertexes.
    pub fn set_is_closed(&mut self, is_closed: bool)
        ensures
            final(self)@ == old(self)@,
            final(self).closed() == is_closed,
    {
        self.closed = is_closed;
    }
}

/// The vertexes as flat `(x, y, bulge)` triplets.
pub fn pline_vertexes_to_data<T: Copy>(vertexes: &Vec<Vertex<T>>) -> (data: Vec<T>)
    ensures
        data@ == flat_triplets(vertexes@),
        data@.len() % 3 == 0,
        triplets(data@) == vertexes@,
{
    let n: usize = vertexes.len();
    let mut data: Vec<T> = Vec::new();
    let mut i: usize = 0;
    while i < n
        invariant
            n == vertexes@.len(),
            i <= n,
            data@.len() == 3 * i,
            forall|k: int| 0 <= k < 3 * i ==> data@[k] == flat_triplets(vertexes@)[k],
        decreases n - i,
    {
        let v = vertexes[i];
        data.push(v.x);
        data.push(v.y);
        data.push(v.bulge);
        i += 1;
    }
    assert(data@ =~= flat_triplets(vertexes@));
    proof {
        lemma_triplets_of_flat(vertexes@);
    }
    data
}

/// Stepping `count` places round a loop of `n` from `i` lands on
/// `i + count % n`, less `n` where that passes the end.
pub proof fn lemma_cycle_index(i: int, count: int, n: int)
    requires
        0 <= i < n,
        0 <= count,
    ensures
        (i + count) % n == if i < n - count % n {
            i + count % n
        } else {
            i - (n - count % n)
        },
{
    let s = count % n;
    let q = count / n;
    assert(count == q * n + s && 0 <= s < n) by (nonlinear_arith)
        requires
            0 < n,
            0 <= count,
            s == count % n,
            q == count / n,
    ;
    if i < n - s {
        assert((i + count) % n == i + s) by (nonlinear_arith)
            requires
                count == q * n + s,
                0 <= i + s < n,
        ;
    } else {
        assert((i + count) % n == i + s - n) by (nonlinear_arith)
            requires
                count == q * n + s,
                0 <= i + s - n < n,
        ;
    }
}

/// Flattening a vertex sequence and reading it back as triplets gives the
/// same sequence: same count, same coordinates and bulges.
pub proof fn lemma_triplets_of_flat<T>(vertexes: Seq<Vertex<T>>)
    ensures
        flat_triplets(vertexes).len() % 3 == 0,
        triplets(flat_triplets(vertexes)) == vertexes,
{
    assert(triplets(flat_triplets(vertexes)) =~= vertexes);
}

/// Reading flat triplets as vertexes and flattening them again gives the
/// same data.
pub proof fn lemma_flat_of_triplets<T>(data: Seq<T>)
    requires
        data.len() % 3 == 0,
    ensures
        flat_triplets(triplets(data)) == data,
{
    assert(flat_triplets(triplets(data)) =~= data);
}

/// Inverting the direction of a closed polyline twice gives the polyline
/// back, where negating twice gives a bulge back.
pub proof fn lemma_invert_twice<T>(
    vertexes: Seq<Vertex<T>>,
    negate: spec_fn(T) -> T,
    once: Seq<Vertex<T>>,
    twice: Seq<Vertex<T>>,
)
    requires
        forall|b: T| #[trigger] negate(negate(b)) == b,
        is_inverted(vertexes, true, |b: T, r: T| r == negate(b), once),
        is_inverted(once, true, |b: T, r: T| r == negate(b), twice),
    ensures
        twice == vertexes,
{
    let n = vertexes.len() as int;
    if n >= 2 {
        assert forall|i: int| 0 <= i < n implies twice[i] == vertexes[i] by {
            assert(twice[i].x == once[n - 1 - i].x);
            assert(once[n - 1 - i].x == vertexes[i].x);
            assert(once[n - 1 - i].y == vertexes[i].y);
            if i < n - 1 {
                assert(twice[i].bulge == negate(once[n - 2 - i].bulge));
                assert(once[n - 2 - i].bulge == negate(vertexes[i].bulge));
            } else {
                assert(once[n - 1].bulge == negate(vertexes[n - 1].bulge));
            }
        }
        assert(twice =~= vertexes);
    }
}

/// Cycling forward by `a` and then by `b` is cycling by `a + b`.
pub proof fn lemma_cycled_twice<T>(vertexes: Seq<Vertex<T>>, a: nat, b: nat)
    ensures
        cycled(cycled(vertexes, a), b) == cycled(vertexes, a + b),
{
    let n = vertexes.len() as int;
    assert forall|i: int| 0 <= i < n implies #[trigger] cycled(cycled(vertexes, a), b)[i] == cycled(
        vertexes,
        a + b,
    )[i] by {
        let j = (i + b) % n;
        vstd::arithmetic::div_mod::lemma_mod_bound(i + b, n);
        vstd::arithmetic::div_mod::lemma_add_mod_noop(i + b, a as int, n);
        vstd::arithmetic::div_mod::lemma_small_mod((a as int % n) as nat, n as nat);
        vstd::arithmetic::div_mod::lemma_mod_bound(a as int, n);
        vstd::arithmetic::div_mod::lemma_add_mod_noop(j, a as int, n);
        vstd::arithmetic::div_mod::lemma_small_mod(j as nat, n as nat);
        assert((j + a) % n == (i + b + a) % n);
    }
    assert(cycled(cycled(vertexes, a), b) =~= cycled(vertexes, a + b));
}

/// Cycling by the vertex count, or by nothing, leaves the sequence as it is.
pub proof fn lemma_cycled_full_turn<T>(vertexes: Seq<Vertex<T>>)
    ensures
        cycled(vertexes, 0) == vertexes,
        cycled(vertexes, vertexes.len()) == vertexes,
{
    let n = vertexes.len() as int;
    assert forall|i: int| 0 <= i < n implies #[trigger] cycled(vertexes, 0)[i] == vertexes[i] by {
        lemma_cycle_index(i, 0, n);
    }
    assert forall|i: int| 0 <= i < n implies #[trigger] cycled(vertexes, vertexes.len())[i]
        == vertexes[i] by {
        lemma_cycle_index(i, n, n);
    }
    assert(cycled(vertexes, 0) =~= vertexes);
    assert(cycled(vertexes, vertexes.len()) =~= vertexes);
}

} // verus!
