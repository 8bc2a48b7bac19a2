use vstd::prelude::*;
use crate::failure::{all_pass, decided, first_failure, first_rejected, ContractViolation};

verus! {

/// An axis-aligned bounding box.
#[derive(Clone, Copy, Debug, PartialEq)]
pub struct Aabb<T> {
    pub min_x: T,
    pub min_y: T,
    pub max_x: T,
    pub max_y: T,
}

/// The boxes that a flat sequence of `(min_x, min_y, max_x, max_y)`
/// quadruples holds, in order.
pub open spec fn quads<T>(data: Seq<T>) -> Seq<Aabb<T>> {
    Seq::new(
        (data.len() / 4) as nat,
        |i: int|
            Aabb {
                min_x: data[4 * i],
                min_y: data[4 * i + 1],
                max_x: data[4 * i + 2],
                max_y: data[4 * i + 3],
            },
    )
}

/// The flat sequence `min_x0, min_y0, max_x0, max_y0, min_x1, ...` of a
/// sequence of boxes.
pub open spec fn flat_quads<T>(boxes: Seq<Aabb<T>>) -> Seq<T> {
    Seq::new(
        4 * boxes.len(),
        |k: int|
            if k % 4 == 0 {
                boxes[k / 4].min_x
            } else if k % 4 == 1 {
                boxes[k / 4].min_y
            } else if k % 4 == 2 {
                boxes[k / 4].max_x
            } else {
                boxes[k / 4].max_y
            },
    )
}

/// Level boundaries counted in boxes, recounted in scalars: four to a box.
pub open spec fn scaled_bounds(bounds: Seq<usize>) -> Seq<u32> {
    Seq::new(bounds.len(), |i: int| (4 * bounds[i]) as u32)
}

/// Whether every level boundary, counted in scalars, fits in 32 bits.
pub open spec fn bounds_fit(bounds: Seq<usize>) -> bool {
    forall|i: int| 0 <= i < bounds.len() ==> 4 * #[trigger] bounds[i] <= u32::MAX
}

/// What a visitor tells a traversal after each item.
#[derive(Clone, Copy, Debug, PartialEq, Eq, Structural)]
pub enum Control {
    /// Go on to the next item.
    Continue,
    /// Stop the whole traversal.
    Break,
}

/// Whether `found` is what a nearest-neighbour search keeps of `visits`, the
/// items in ascending distance, each with whether it lies within the
/// distance limit: the items of the longest run from the start that lies
/// within the limit, cut off after `max_results`.
pub open spec fn is_nearest(visits: Seq<(usize, bool)>, max_results: nat, found: Seq<usize>) -> bool {
    &&& found.len() <= max_results
    &&& found.len() <= visits.len()
    &&& forall|i: int| 0 <= i < found.len() ==> (#[trigger] visits[i]).1 && found[i] == visits[i].0
    &&& (found.len() == max_results || found.len() == visits.len() || !visits[found.len() as int].1)
}

/// The state of a nearest-neighbour search: the items kept so far, in the
/// order visited, and the number wanted.
#[derive(Clone, Debug)]
pub struct NeighborSearch {
    found: Vec<usize>,
    max_results: u32,
}

impl View for NeighborSearch {
    type V = Seq<usize>;

    closed spec fn view(&self) -> Seq<usize> {
        self.found@
    }
}

impl NeighborSearch {
    /// The number of results wanted.
    pub closed spec fn limit(&self) -> nat {
        self.max_results as nat
    }

    /// Whether the search wants no further item.
    pub open spec fn done(&self) -> bool {
        self@.len() >= self.limit()
    }

    /// Whether the search has kept no more items than wanted.
    pub open spec fn wf(&self) -> bool {
        self@.len() <= self.limit()
    }

    /// A search for `max_results` items that has kept none yet.
    pub fn new(max_results: u32) -> (search: Self)
        ensures
            search@ == Seq::<usize>::empty(),
            search.limit() == max_results,
            search.wf(),
    {
        NeighborSearch { found: Vec::new(), max_results }
    }

    /// Whether the search wants no further item. A search for no results is
    /// done from the start.
    pub fn is_done(&self) -> (d: bool)
        ensures
            d == self.done(),
    {
        self.found.len() >= self.max_results as usize
    }

    /// Takes the next item in ascending distance. One within the distance
    /// limit is kept, and the traversal goes on while fewer than the wanted
    /// number are kept; one beyond the limit is dropped and ends it.
    pub fn visit(&mut self, index: usize, in_range: bool) -> (control: Control)
        requires
            !old(self).done(),
        ensures
            final(self).wf(),
            final(self).limit() == old(self).limit(),
            in_range ==> final(self)@ == old(self)@.push(index),
            !in_range ==> final(self)@ == old(self)@,
            control == Control::Continue <==> in_range && !final(self).done(),
    {
        if in_range {
            self.found.push(index);
            if self.found.len() < self.max_results as usize {
                Control::Continue
            } else {
                Control::Break
            }
        } else {
            Control::Break
        }
    }

    /// The items kept, nearest first.
    pub fn into_found(self) -> (found: Vec<usize>)
        ensures
            found@ == self@,
            self.wf() ==> found@.len() <= self.limit(),
    {
        self.found
    }
}

/// The boxes that a static spatial index is built over, in the order of
/// their item numbers, and the fan-out of its nodes.
#[derive(Clone, Debug, PartialEq)]
pub struct StaticAABB2DIndex<T> {
    items: Vec<Aabb<T>>,
    node_size: usize,
}

impl<T> View for StaticAABB2DIndex<T> {
    type V = Seq<Aabb<T>>;

    closed spec fn view(&self) -> Seq<Aabb<T>> {
        self.items@
    }
}

impl<T: Copy> StaticAABB2DIndex<T> {
    /// The fan-out asked for.
    pub closed spec fn fan_out(&self) -> usize {
        self.node_size
    }

    /// Frames flat `(min_x, min_y, max_x, max_y)` quadruples as the item
    /// boxes of an index with the given fan-out. Data that does not divide
    /// into quadruples is refused, and so is data with a value that `finite`
    /// does not admit.
    pub fn new<F: Fn(T) -> bool>(aabb_data: &[T], node_size: usize, finite: F) -> (result: Result<
        Self,
        ContractViolation,
    >)
        requires
            forall|a: T| finite.requires((a,)),
            decided(finite),
        ensures
            result.is_ok() <==> aabb_data@.len() % 4 == 0 && all_pass(
                aabb_data@,
                |a: T, r: bool| finite.ensures((a,), r),
            ),
            result matches Ok(index) ==> index@ == quads(aabb_data@) && index.fan_out()
                == node_size,
            result matches Err(e) ==> if aabb_data@.len() % 4 != 0 {
                e == (ContractViolation::BoxData { len: aabb_data.len() })
            } else {
                e matches ContractViolation::NonFinite { index } && first_failure(
                    aabb_data@,
                    |a: T, r: bool| finite.ensures((a,), r),
                    index as int,
                )
            },
    {
        let len: usize = aabb_data.len();
        if len % 4 != 0 {
            return Err(ContractViolation::BoxData { len });
        }
        match first_rejected(aabb_data, finite) {
            Some(index) => {
                assert(!finite.ensures((aabb_data@[index as int],), true));
                Err(ContractViolation::NonFinite { index })
            },
            None => Ok(Self::framed(aabb_data, node_size)),
        }
    }

    fn framed(aabb_data: &[T], node_size: usize) -> (index: Self)
        requires
            aabb_data@.len() % 4 == 0,
        ensures
            index@ == quads(aabb_data@),
            index.fan_out() == node_size,
    {
        let len: usize = aabb_data.len();
        let n: usize = len / 4;
        let mut items: Vec<Aabb<T>> = Vec::new();
        let mut i: usize = 0;
        while i < n
            invariant
                i <= n,
                len == aabb_data@.len(),
                n == aabb_data@.len() / 4,
                aabb_data@.len() % 4 == 0,
                items@.len() == i,
                forall|j: int| 0 <= j < i ==> items@[j] == quads(aabb_data@)[j],
            decreases n - i,
        {
            assert(4 * i + 3 < aabb_data@.len());
            let b = Aabb {
                min_x: aabb_data[4 * i],
                min_y: aabb_data[4 * i + 1],
                max_x: aabb_data[4 * i + 2],
                max_y: aabb_data[4 * i + 3],
            };
            items.push(b);
            i += 1;
        }
        assert(items@ =~= quads(aabb_data@));
        StaticAABB2DIndex { items, node_size }
    }

    /// The number of item boxes.
    pub fn count(&self) -> (n: usize)
        ensures
            n == self@.len(),
    {
        self.items.len()
    }

    /// The box of item `index`.
    pub fn item_box(&self, index: usize) -> (b: Aabb<T>)
        requires
            index < self@.len(),
        ensures
            b == self@[index as int],
    {
        self.items[index]
    }

    /// The fan-out asked for.
    pub fn node_size(&self) -> (n: usize)
        ensures
            n == self.fan_out(),
    {
        self.node_size
    }

    /// The level boundaries of a built tree, given in boxes, as positions in
    /// its flat box data.
    pub fn level_bounds(bounds: &[usize]) -> (scaled: Vec<u32>)
        requires
            bounds_fit(bounds@),
        ensures
            scaled@ == scaled_bounds(bounds@),
            forall|i: int| 0 <= i < bounds@.len() ==> scaled@[i] == 4 * bounds@[i],
    {
        let n: usize = bounds.len();
        let mut scaled: Vec<u32> = Vec::new();
        let mut i: usize = 0;
        while i < n
            invariant
                n == bounds@.len(),
                i <= n,
                bounds_fit(bounds@),
                scaled@.len() == i,
                forall|j: int| 0 <= j < i ==> scaled@[j] == 4 * bounds@[j],
            decreases n - i,
        {
            let b: usize = bounds[i];
            assert(4 * bounds@[i as int] <= u32::MAX);
            scaled.push(4 * (b as u32));
            i += 1;
        }
        assert(scaled@ =~= scaled_bounds(bounds@));
        scaled
    }

    /// The boxes of a built tree, in its construction order, as flat
    /// `(min_x, min_y, max_x, max_y)` quadruples.
    pub fn all_boxes(boxes: &[Aabb<T>]) -> (data: Vec<T>)
        ensures
            data@ == flat_quads(boxes@),
            data@.len() % 4 == 0,
            quads(data@) == boxes@,
    {
        let n: usize = boxes.len();
        let mut data: Vec<T> = Vec::new();
        let mut i: usize = 0;
        while i < n
            invariant
                n == boxes@.len(),
                i <= n,
                data@.len() == 4 * i,
                forall|k: int| 0 <= k < 4 * i ==> data@[k] == flat_quads(boxes@)[k],
            decreases n - i,
        {
            let b = boxes[i];
            data.push(b.min_x);
            data.push(b.min_y);
            data.push(b.max_x);
            data.push(b.max_y);
            i += 1;
        }
        assert(data@ =~= flat_quads(boxes@));
        proof {
            lemma_quads_of_flat(boxes@);
        }
        data
    }

    /// The nearest items among `visits`, the items in ascending distance,
    /// each with whether it lies within the distance limit: at most
    /// `max_results` of them, up to the first one beyond the limit.
    pub fn neighbors(visits: &[(usize, bool)], max_results: u32) -> (found: Vec<usize>)
        ensures
            is_nearest(visits@, max_results as nat, found@),
    {
        let mut search = NeighborSearch::new(max_results);
        let mut i: usize = 0;
        let mut going: bool = !search.is_done();
        while going && i < visits.len()
            invariant
                search.limit() == max_results,
                i <= visits@.len(),
                search@.len() <= i,
                search@.len() <= max_results,
                forall|j: int|
                    0 <= j < search@.len() ==> (#[trigger] visits@[j]).1 && search@[j]
                        == visits@[j].0,
                going ==> search@.len() == i && !search.done(),
                !going ==> search.done() || (search@.len() < visits@.len()
                    && !visits@[search@.len() as int].1),
            decreases visits@.len() - i,
        {
            let (index, in_range) = visits[i];
            let control = search.visit(index, in_range);
            going = control == Control::Continue;
            i += 1;
        }
        search.into_found()
    }
}

/// A nearest-neighbour search has one outcome: two results of the same
/// visits and the same number wanted are equal.
pub proof fn lemma_nearest_unique(
    visits: Seq<(usize, bool)>,
    max_results: nat,
    a: Seq<usize>,
    b: Seq<usize>,
)
    requires
        is_nearest(visits, max_results, a),
        is_nearest(visits, max_results, b),
    ensures
        a == b,
{
    if a.len() < b.len() {
        assert(visits[a.len() as int].1);
    } else if b.len() < a.len() {
        assert(visits[b.len() as int].1);
    }
    assert forall|i: int| 0 <= i < a.len() implies a[i] == b[i] by {
        assert(a[i] == visits[i].0);
    }
    assert(a =~= b);
}

/// A nearest-neighbour search keeps at most the number wanted, and what it
/// keeps comes before every other item in the order of distance: it is the
/// start of that order.
pub proof fn lemma_nearest_is_prefix(
    visits: Seq<(usize, bool)>,
    max_results: nat,
    found: Seq<usize>,
)
    requires
        is_nearest(visits, max_results, found),
    ensures
        found.len() <= max_results,
        found == visits.take(found.len() as int).map(|i: int, v: (usize, bool)| v.0),
{
    assert(found =~= visits.take(found.len() as int).map(|i: int, v: (usize, bool)| v.0));
}

/// With the visits in ascending distance, every item that a
/// nearest-neighbour search keeps is at most as far as every item that it
/// leaves, and every item within the limit that it leaves was left because
/// the number wanted was reached.
pub proof fn lemma_nearest_closer(
    visits: Seq<(usize, bool)>,
    distances: Seq<int>,
    limit: int,
    max_results: nat,
    found: Seq<usize>,
)
    requires
        is_nearest(visits, max_results, found),
        distances.len() == visits.len(),
        forall|i: int, j: int| 0 <= i <= j < distances.len() ==> distances[i] <= distances[j],
        forall|i: int| 0 <= i < visits.len() ==> (#[trigger] visits[i]).1 == (distances[i] < limit),
    ensures
        forall|i: int, j: int|
            0 <= i < found.len() <= j < visits.len() ==> distances[i] <= distances[j],
        forall|j: int|
            found.len() <= j < visits.len() && (#[trigger] visits[j]).1 ==> found.len()
                == max_results,
{
    assert forall|j: int| found.len() <= j < visits.len() && (#[trigger] visits[j]).1 implies found.len()
        == max_results by {
        if found.len() != max_results {
            let m = found.len() as int;
            assert(!visits[m].1);
            assert(distances[m] <= distances[j]);
        }
    }
}

/// Where the visits name each item once at most, and only items below
/// `count`, what a nearest-neighbour search keeps has at most the number
/// wanted, names only items below `count`, and names none twice.
pub proof fn lemma_nearest_distinct(
    visits: Seq<(usize, bool)>,
    count: nat,
    max_results: nat,
    found: Seq<usize>,
)
    requires
        is_nearest(visits, max_results, found),
        forall|p: int| 0 <= p < visits.len() ==> (#[trigger] visits[p]).0 < count,
        forall|p: int, q: int|
            0 <= p < q < visits.len() ==> (#[trigger] visits[p]).0 != (#[trigger] visits[q]).0,
    ensures
        found.len() <= max_results,
        max_results == 0 ==> found.len() == 0,
        forall|a: int| 0 <= a < found.len() ==> (#[trigger] found[a]) < count,
        forall|a: int, b: int|
            0 <= a < b < found.len() ==> (#[trigger] found[a]) != (#[trigger] found[b]),
{
    assert forall|a: int| 0 <= a < found.len() implies (#[trigger] found[a]) < count by {
        assert(found[a] == visits[a].0);
    }
    assert forall|a: int, b: int| 0 <= a < b < found.len() implies (#[trigger] found[a])
        != (#[trigger] found[b]) by {
        assert(found[a] == visits[a].0);
        assert(found[b] == visits[b].0);
    }
}

/// Whether some visit names `item`.
pub open spec fn is_visited(visits: Seq<(usize, bool)>, item: int) -> bool {
    exists|p: int| 0 <= p < visits.len() && (#[trigger] visits[p]).0 == item
}

/// Where the visits name every item, each within the limit, in ascending
/// order of the items' distances, a nearest-neighbour search keeps the
/// number wanted or all there are, and every item kept is at most as far as
/// every item left: nothing nearer is left out.
pub proof fn lemma_nearest_of_all(
    visits: Seq<(usize, bool)>,
    distance: Seq<int>,
    max_results: nat,
    found: Seq<usize>,
)
    requires
        is_nearest(visits, max_results, found),
        forall|p: int|
            0 <= p < visits.len() ==> (#[trigger] visits[p]).1 && visits[p].0 < distance.len(),
        forall|j: int| 0 <= j < distance.len() ==> #[trigger] is_visited(visits, j),
        forall|p: int, q: int|
            0 <= p <= q < visits.len() ==> distance[(#[trigger] visits[p]).0 as int]
                <= distance[(#[trigger] visits[q]).0 as int],
    ensures
        found.len() == max_results || found.len() == visits.len(),
        forall|a: int, j: int|
            0 <= a < found.len() && 0 <= j < distance.len() && !found.contains(j as usize)
                ==> distance[(#[trigger] found[a]) as int] <= #[trigger] distance[j],
{
    if found.len() != max_results && found.len() != visits.len() {
        assert(visits[found.len() as int].1);
    }
    assert forall|a: int, j: int|
        0 <= a < found.len() && 0 <= j < distance.len() && !found.contains(
            j as usize,
        ) implies distance[(#[trigger] found[a]) as int] <= #[trigger] distance[j] by {
        assert(is_visited(visits, j));
        let p = choose|p: int| 0 <= p < visits.len() && (#[trigger] visits[p]).0 == j;
        assert(found[a] == visits[a].0);
        if p < found.len() {
            assert(found[p] == visits[p].0);
            assert(found[p] == j as usize);
            assert(found.contains(j as usize));
        } else {
            assert(distance[visits[a].0 as int] <= distance[visits[p].0 as int]);
        }
    }
}

/// Flattening boxes and reading the data back as quadruples gives the same
/// boxes.
pub proof fn lemma_quads_of_flat<T>(boxes: Seq<Aabb<T>>)
    ensures
        flat_quads(boxes).len() % 4 == 0,
        quads(flat_quads(boxes)) == boxes,
{
    assert(quads(flat_quads(boxes)) =~= boxes);
}

} // verus!
