use vstd::prelude::*;
use indexmap::IndexMap;
use crate::domain::dot::Dot;

verus! {

#[verifier::external_type_specification]
#[verifier::external_body]
#[verifier::reject_recursive_types(K)]
#[verifier::reject_recursive_types(V)]
#[verifier::reject_recursive_types(S)]
pub struct ExIndexMap<K, V, S>(IndexMap<K, V, S>);

/// The side of the rope an edge runs along.
#[derive(Debug, Clone, Copy, PartialEq, Eq, Hash, Structural)]
pub enum Side {
    Upper,
    Lower,
}

/// The points of each side, by side, in the order the sides were put in.
pub type SideMap = IndexMap<Side, Vec<Dot<usize>>>;

/// What an index map of sides holds: the points of each side present.
pub uninterp spec fn side_points(sides: SideMap) -> Map<Side, Seq<Dot<usize>>>;

/// No side at all.
pub open spec fn no_sides() -> Map<Side, Seq<Dot<usize>>> {
    Map::empty()
}

/// Exactly the two given sides with their points.
pub open spec fn two_sides(first: (Side, Seq<Dot<usize>>), second: (Side, Seq<Dot<usize>>)) -> Map<Side, Seq<Dot<usize>>> {
    Map::empty().insert(first.0, first.1).insert(second.0, second.1)
}

/// `IndexMap::from` on an array of two entries with different keys: the map holds
/// exactly these two entries.
#[verifier::external_body]
fn index_map_from_pair(
    first: (Side, Vec<Dot<usize>>),
    second: (Side, Vec<Dot<usize>>),
) -> (res: SideMap)
    requires
        first.0 != second.0,
    ensures
        side_points(res) == two_sides((first.0, first.1@), (second.0, second.1@)),
{
    IndexMap::from([first, second])
}

/// `IndexMap::new`: an empty map.
#[verifier::external_body]
fn index_map_new() -> (res: SideMap)
    ensures
        side_points(res) == no_sides(),
{
    IndexMap::new()
}

/// `IndexMap::get`: the value of `side`, when the map holds one.
#[verifier::external_body]
fn index_map_get<'a>(sides: &'a SideMap, side: &Side) -> (res: Option<&'a Vec<Dot<usize>>>)
    ensures
        res is Some <==> side_points(*sides).contains_key(*side),
        res matches Some(points) ==> points@ == side_points(*sides)[*side],
{
    sides.get(side)
}

/// `Clone::clone` of an index map: the same keys with equal values.
#[verifier::external_body]
fn index_map_clone(sides: &SideMap) -> (res: SideMap)
    ensures
        side_points(res) == side_points(*sides),
{
    sides.clone()
}

/// `PartialEq::eq` of two index maps: they hold the same keys with equal values,
/// whatever their order.
#[verifier::external_body]
fn index_map_eq(a: &SideMap, b: &SideMap) -> (res: bool)
    ensures
        res == (side_points(*a) == side_points(*b)),
{
    a == b
}

/// The points found along the upper and the lower edge of the rope.
#[derive(Debug)]
#[verifier::reject_recursive_types(T)]
pub struct Edges<T> {
    sides: IndexMap<Side, Vec<Dot<T>>>,
}

impl View for Edges<usize> {
    /// The points of each side present.
    type V = Map<Side, Seq<Dot<usize>>>;

    closed spec fn view(&self) -> Map<Side, Seq<Dot<usize>>> {
        side_points(self.sides)
    }
}

/// The points of `side`, or none when the edges have no such side.
pub open spec fn side_of(edges: Map<Side, Seq<Dot<usize>>>, side: Side) -> Seq<Dot<usize>> {
    if edges.contains_key(side) {
        edges[side]
    } else {
        Seq::empty()
    }
}

impl Edges<usize> {
    /// The edges made of the `upper` and the `lower` points.
    pub fn new(upper: Vec<Dot<usize>>, lower: Vec<Dot<usize>>) -> (res: Self)
        ensures
            res@ == map![Side::Upper => upper@, Side::Lower => lower@],
    {
        Edges { sides: index_map_from_pair((Side::Upper, upper), (Side::Lower, lower)) }
    }

    /// A copy of the points of `side`; none when the edges have no such side.
    pub fn get(&self, side: Side) -> (res: Vec<Dot<usize>>)
        ensures
            res@ == side_of(self@, side),
    {
        match index_map_get(&self.sides, &side) {
            Some(points) => {
                let mut copy: Vec<Dot<usize>> = Vec::new();
                let mut i: usize = 0;
                while i < points.len()
                    invariant
                        i <= points@.len(),
                        copy@ == points@.take(i as int),
                    decreases points@.len() - i,
                {
                    copy.push(points[i]);
                    assert(points@.take(i + 1) == points@.take(i as int).push(points@[i as int]));
                    i += 1;
                }
                assert(points@.take(points@.len() as int) == points@);
                copy
            },
            None => Vec::new(),
        }
    }

    /// The same points on the same sides.
    pub fn eq(&self, other: &Self) -> (res: bool)
        ensures
            res == (self@ == other@),
    {
        index_map_eq(&self.sides, &other.sides)
    }
}

impl Default for Edges<usize> {
    /// Edges without any side.
    fn default() -> (res: Self)
        ensures
            res@ == Map::<Side, Seq<Dot<usize>>>::empty(),
    {
        Edges { sides: index_map_new() }
    }
}

impl Clone for Edges<usize> {
    /// The same points on the same sides.
    fn clone(&self) -> (res: Self)
        ensures
            res@ == self@,
    {
        Edges { sides: index_map_clone(&self.sides) }
    }
}

/// Reading a side of new edges gives back the points it was made with.
pub proof fn lemma_edges_read_back(upper: Seq<Dot<usize>>, lower: Seq<Dot<usize>>)
    ensures
        side_of(map![Side::Upper => upper, Side::Lower => lower], Side::Upper) == upper,
        side_of(map![Side::Upper => upper, Side::Lower => lower], Side::Lower) == lower,
        side_of(Map::<Side, Seq<Dot<usize>>>::empty(), Side::Upper) == Seq::<Dot<usize>>::empty(),
{
    assert(map![Side::Upper => upper, Side::Lower => lower].contains_key(Side::Upper));
    assert(map![Side::Upper => upper, Side::Lower => lower].contains_key(Side::Lower));
}

} // verus!
