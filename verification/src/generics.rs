use vstd::prelude::*;
use vstd::std_specs::cmp::PartialOrdSpec;

verus! {

/// A point whose two coordinates may have different types.
pub struct Point<T, U> {
    pub x: T,
    pub y: U,
}

impl<T, U> Point<T, U> {
    /// Mixes two points: keeps this point's `x` and takes the other's `y`.
    pub fn mixup<V, W>(self, other: Point<V, W>) -> (r: Point<T, W>)
        ensures
            r.x == self.x,
            r.y == other.y,
    {
        Point { x: self.x, y: other.y }
    }
}

/// The running maximum of a left-to-right scan: starting from `acc`, each
/// element that compares strictly greater than the value held so far
/// replaces it.
pub open spec fn fold_largest<T: PartialOrd>(s: Seq<T>, acc: T) -> T
    decreases s.len(),
{
    if s.len() == 0 {
        acc
    } else {
        let next = if s[0].partial_cmp_spec(&acc) == Some(core::cmp::Ordering::Greater) {
            s[0]
        } else {
            acc
        };
        fold_largest(s.drop_first(), next)
    }
}

/// Scanning one more element folds it into the running maximum.
proof fn lemma_fold_largest_push<T: PartialOrd>(s: Seq<T>, acc: T, v: T)
    ensures
        fold_largest(s.push(v), acc) == (if v.partial_cmp_spec(&fold_largest(s, acc)) == Some(
            core::cmp::Ordering::Greater,
        ) {
            v
        } else {
            fold_largest(s, acc)
        }),
    decreases s.len(),
{
    if s.len() == 0 {
        let next = if v.partial_cmp_spec(&acc) == Some(core::cmp::Ordering::Greater) {
            v
        } else {
            acc
        };
        assert(s.push(v)[0] == v);
        assert(s.push(v).drop_first() =~= Seq::<T>::empty());
        assert(fold_largest(Seq::<T>::empty(), next) == next);
        assert(fold_largest(s.push(v), acc) == next);
    } else {
        assert(s.push(v)[0] == s[0]);
        assert(s.push(v).drop_first() =~= s.drop_first().push(v));
        let next = if s[0].partial_cmp_spec(&acc) == Some(core::cmp::Ordering::Greater) {
            s[0]
        } else {
            acc
        };
        lemma_fold_largest_push(s.drop_first(), next, v);
    }
}

/// The element a left-to-right scan reports as largest. For types whose
/// comparison operators obey their mathematical specification, the result
/// is exactly the running maximum of the scan.
pub fn largest<T: PartialOrd + Copy>(list: &[T]) -> (r: T)
    requires
        list@.len() > 0,
    ensures
        T::obeys_partial_cmp_spec() ==> r == fold_largest(list@, list@[0]),
{
    let mut largest = list[0];
    let mut i: usize = 0;
    while i < list.len()
        invariant
            i <= list@.len(),
            list@.len() > 0,
            T::obeys_partial_cmp_spec() ==> largest == fold_largest(
                list@.subrange(0, i as int),
                list@[0],
            ),
        decreases list@.len() - i,
    {
        let item = list[i];
        proof {
            assert(list@.subrange(0, i as int + 1) =~= list@.subrange(0, i as int).push(
                list@[i as int],
            ));
            lemma_fold_largest_push(list@.subrange(0, i as int), list@[0], list@[i as int]);
        }
        if item > largest {
            largest = item;
        }
        i = i + 1;
    }
    proof {
        assert(list@.subrange(0, list@.len() as int) =~= list@);
    }
    largest
}

/// A pair of two values of one type.
pub struct Pair<T> {
    pub x: T,
    pub y: T,
}

impl<T> Pair<T> {
    /// Packs two values into a pair.
    pub fn new(x: T, y: T) -> (p: Self)
        ensures
            p.x == x,
            p.y == y,
    {
        Self { x, y }
    }
}

impl<T: core::fmt::Display + PartialOrd> Pair<T> {
    /// Which member the comparison reports as the largest: true when `x`
    /// is at least `y`; the caller displays the winner.
    pub fn cmp_display(&self) -> (r: bool)
        ensures
            T::obeys_partial_cmp_spec() ==> (r <==> self.x.partial_cmp_spec(&self.y) matches Some(
                core::cmp::Ordering::Greater
                | core::cmp::Ordering::Equal,
            )),
    {
        self.x >= self.y
    }
}

/// A slice of a longer text, held by reference.
#[derive(Debug)]
pub struct ImportantExcerpt<'a> {
    pub part: &'a str,
}

impl<'a> ImportantExcerpt<'a> {
    /// The fixed rank of every excerpt.
    pub fn level(&self) -> (r: i32)
        ensures
            r == 3,
    {
        3
    }

    /// Hands the held part back; the caller voices the announcement.
    pub fn announce_and_return_part(&self, _announcement: &str) -> (r: &str)
        ensures
            r@ == self.part@,
    {
        self.part
    }
}

} // verus!
