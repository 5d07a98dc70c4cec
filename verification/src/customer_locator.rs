//! The locator: answers "which customers fall within radius R of a
//! reference point".
//!
//! A `CustomerLocator` owns one customer list for its lifetime and is never
//! mutated after construction.  The distance of each record from a
//! reference point is a binary64 value that the caller computes (it is
//! trigonometric floating-point work); the locator takes those distances,
//! one per record, and keeps exactly the records whose distance is
//! strictly below the radius — the boundary is open, and a NaN distance
//! never passes.  The filter is order-stable and works on copies: the
//! locator's own list is left untouched.

use vstd::prelude::*;

use crate::customer::{views, Customer, CustomerList, CustomerView};
use crate::customer_datasource::CustomerDatasource;
use crate::ieee754::{lt_bits, same_value, value_lt};
use crate::units::Kilometers;

verus! {

/// The records of `cs` whose paired distance in `ds` is strictly below
/// `radius`, in their original order.  Comparison is IEEE "less than" on
/// the encoded values, so a record at exactly the radius, or at a NaN
/// distance, is dropped.
pub open spec fn within_filter(cs: Seq<Customer>, ds: Seq<Kilometers>, radius: u64) -> Seq<Customer>
    recommends
        cs.len() == ds.len(),
    decreases cs.len(),
{
    if cs.len() == 0 {
        cs
    } else {
        let rest = within_filter(cs.drop_last(), ds.drop_last(), radius);
        if value_lt(ds.last().0, radius) {
            rest.push(cs.last())
        } else {
            rest
        }
    }
}

/// Looks up customers around a reference location.
#[derive(Debug)]
pub struct CustomerLocator {
    customers: CustomerList,
}

impl View for CustomerLocator {
    type V = Seq<Customer>;

    closed spec fn view(&self) -> Seq<Customer> {
        self.customers@
    }
}

impl CustomerLocator {
    /// Constructs a locator that owns the given list.
    pub fn new(customers: CustomerList) -> (r: CustomerLocator)
        ensures
            r@ == customers@,
    {
        CustomerLocator { customers }
    }

    /// Builds a locator by draining a data source once: on success the
    /// locator holds exactly the records the source produced; on failure
    /// the source's error is handed through unchanged.
    pub fn from_source<S: CustomerDatasource>(source: S) -> (r: Result<CustomerLocator, S::Err>)
        ensures
            match r {
                Ok(locator) => source.fetch_result() == Some(views(locator@)),
                Err(_) => source.fetch_result() is None,
            },
    {
        match source.customers() {
            Ok(customer_list) => Ok(Self::new(customer_list)),
            Err(err) => Err(err),
        }
    }

    /// The list the locator owns, for reading: callers walk it to compute
    /// the distance of each record from a reference point.
    pub fn customers(&self) -> (r: &CustomerList)
        ensures
            r@ == self@,
    {
        &self.customers
    }

    /// The records whose distance from the reference point is strictly
    /// below `radius`, in their original order, as independent copies.
    ///
    /// `distances` pairs each owned record with its distance from the
    /// reference point, a binary64 kilometer count the caller computed.
    /// A record at exactly `radius` is excluded — the boundary is open —
    /// and a NaN distance never passes.  The locator itself is untouched:
    /// the call may be repeated with other radii and distances.
    pub fn locate_within(&self, radius: &Kilometers, distances: &Vec<Kilometers>) -> (r: CustomerList)
        requires
            distances@.len() == self@.len(),
        ensures
            views(r@) == views(within_filter(self@, distances@, radius.0)),
    {
        let mut kept: Vec<Customer> = Vec::new();
        let n = self.customers.len();
        let mut i: usize = 0;
        while i < n
            invariant
                0 <= i <= n,
                n == self@.len(),
                n == distances@.len(),
                views(kept@) == views(within_filter(self@.take(i as int), distances@.take(i as int), radius.0)),
            decreases n - i,
        {
            let ghost prev: Seq<Customer> = kept@;
            if lt_bits(distances[i].0, radius.0) {
                kept.push(self.customers.get(i).duplicate());
            }
            proof {
                let cs1 = self@.take(i + 1);
                let ds1 = distances@.take(i + 1);
                assert(cs1.drop_last() =~= self@.take(i as int));
                assert(ds1.drop_last() =~= distances@.take(i as int));
                assert(cs1.last() == self@[i as int]);
                if value_lt(distances@[i as int].0, radius.0) {
                    assert(views(kept@) =~= views(prev).push(self@[i as int]@));
                    assert(views(within_filter(cs1, ds1, radius.0)) =~= views(
                        within_filter(cs1.drop_last(), ds1.drop_last(), radius.0),
                    ).push(cs1.last()@));
                }
            }
            i = i + 1;
        }
        proof {
            assert(self@.take(n as int) =~= self@);
            assert(distances@.take(n as int) =~= distances@);
        }
        CustomerList::from_vec(kept)
    }
}

impl PartialEq for CustomerLocator {
    fn eq(&self, other: &CustomerLocator) -> (r: bool) {
        self.customers == other.customers
    }
}

impl vstd::std_specs::cmp::PartialEqSpecImpl for CustomerLocator {
    open spec fn obeys_eq_spec() -> bool {
        true
    }

    open spec fn eq_spec(&self, other: &CustomerLocator) -> bool {
        crate::customer::list_eq(self@, other@)
    }
}

/// A record whose distance is strictly below the radius is kept by the
/// filter — the other face of the open boundary: any distance even one
/// ulp inside the radius suffices.
pub proof fn lemma_within_radius_included(
    cs: Seq<Customer>,
    ds: Seq<Kilometers>,
    radius: Kilometers,
    i: int,
)
    requires
        cs.len() == ds.len(),
        0 <= i < cs.len(),
        value_lt(ds[i].0, radius.0),
    ensures
        within_filter(cs, ds, radius.0).contains(cs[i]),
    decreases cs.len(),
{
    if i == cs.len() - 1 {
        let rest = within_filter(cs.drop_last(), ds.drop_last(), radius.0);
        assert(within_filter(cs, ds, radius.0) == rest.push(cs[i]));
        assert(rest.push(cs[i])[rest.len() as int] == cs[i]);
    } else {
        lemma_within_radius_included(cs.drop_last(), ds.drop_last(), radius, i);
        let rest = within_filter(cs.drop_last(), ds.drop_last(), radius.0);
        let j = choose|j: int| 0 <= j < rest.len() && rest[j] == cs.drop_last()[i];
        if value_lt(ds.last().0, radius.0) {
            assert(within_filter(cs, ds, radius.0)[j] == cs[i]);
        } else {
            assert(within_filter(cs, ds, radius.0)[j] == cs[i]);
        }
    }
}

/// The boundary of the radius filter is open: a record whose distance
/// equals the radius exactly contributes nothing — removing it, and its
/// distance, from the inputs leaves the filter's result unchanged.
pub proof fn lemma_radius_boundary_excluded(
    cs: Seq<Customer>,
    ds: Seq<Kilometers>,
    radius: Kilometers,
    i: int,
)
    requires
        cs.len() == ds.len(),
        0 <= i < cs.len(),
        same_value(ds[i].0, radius.0),
    ensures
        within_filter(cs, ds, radius.0) == within_filter(cs.remove(i), ds.remove(i), radius.0),
    decreases cs.len(),
{
    crate::ieee754::lemma_eq_excludes_lt(ds[i].0, radius.0);
    if i == cs.len() - 1 {
        assert(cs.remove(i) =~= cs.drop_last());
        assert(ds.remove(i) =~= ds.drop_last());
    } else {
        lemma_radius_boundary_excluded(cs.drop_last(), ds.drop_last(), radius, i);
        assert(cs.remove(i).drop_last() =~= cs.drop_last().remove(i));
        assert(ds.remove(i).drop_last() =~= ds.drop_last().remove(i));
        assert(cs.remove(i).last() == cs.last());
        assert(ds.remove(i).last() == ds.last());
    }
}

} // verus!
