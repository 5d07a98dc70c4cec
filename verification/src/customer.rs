//! Customer records and the ordered collection that holds them.
//!
//! A `Customer` is a named, identified point of interest; its coordinates
//! are binary64 bit patterns, like every scalar in the library.  A
//! `CustomerList` preserves the order it was built with; its only mutation
//! is `sort_by_user_id`, a stable in-place sort, stated here as: the result
//! is sorted by id, and for every id the subsequence of records carrying
//! that id is unchanged — which pins the output down uniquely.

use vstd::prelude::*;
use vstd::seq_lib::*;

use crate::ieee754::{eq_bits, same_value};
use crate::location::Location;

verus! {

/// A single entry of customer data: an id, a name, and the bit patterns of
/// the binary64 latitude and longitude degree values.
#[derive(Debug, Clone)]
pub struct Customer {
    pub user_id: i64,
    pub name: String,
    pub latitude: u64,
    pub longitude: u64,
}

/// The abstract value of a `Customer`: the name as its character sequence.
pub ghost struct CustomerView {
    pub user_id: i64,
    pub name: Seq<char>,
    pub latitude: u64,
    pub longitude: u64,
}

impl View for Customer {
    type V = CustomerView;

    open spec fn view(&self) -> CustomerView {
        CustomerView {
            user_id: self.user_id,
            name: self.name@,
            latitude: self.latitude,
            longitude: self.longitude,
        }
    }
}

/// The abstract values of a sequence of customers.
pub open spec fn views(s: Seq<Customer>) -> Seq<CustomerView> {
    s.map_values(|c: Customer| c@)
}

/// Field-wise equality of two customers, with IEEE equality on the
/// coordinates: a record with a NaN coordinate equals nothing.
pub open spec fn customer_eq(a: CustomerView, b: CustomerView) -> bool {
    &&& a.user_id == b.user_id
    &&& a.name == b.name
    &&& same_value(a.latitude, b.latitude)
    &&& same_value(a.longitude, b.longitude)
}

impl Customer {
    /// Constructs a `Customer` from the id, the name and the location.
    pub fn new(user_id: i64, name: &str, location: &Location) -> (r: Customer)
        ensures
            r.user_id == user_id,
            r.name@ == name@,
            r.latitude == location.latitude,
            r.longitude == location.longitude,
    {
        Customer {
            user_id,
            name: name.to_owned(),
            latitude: location.latitude,
            longitude: location.longitude,
        }
    }

    /// The customer's location, built from the stored coordinates.
    pub fn location(&self) -> (r: Location)
        ensures
            r.latitude == self.latitude,
            r.longitude == self.longitude,
    {
        Location { latitude: self.latitude, longitude: self.longitude }
    }

    /// An independent copy of the record: equal abstract value.
    pub fn duplicate(&self) -> (r: Customer)
        ensures
            r@ == self@,
    {
        Customer {
            user_id: self.user_id,
            name: self.name.clone(),
            latitude: self.latitude,
            longitude: self.longitude,
        }
    }
}

impl PartialEq for Customer {
    fn eq(&self, other: &Customer) -> (r: bool) {
        self.user_id == other.user_id && self.name == other.name
            && eq_bits(self.latitude, other.latitude)
            && eq_bits(self.longitude, other.longitude)
    }
}

impl vstd::std_specs::cmp::PartialEqSpecImpl for Customer {
    open spec fn obeys_eq_spec() -> bool {
        true
    }

    open spec fn eq_spec(&self, other: &Customer) -> bool {
        customer_eq(self@, other@)
    }
}

/// The predicate "carries the id `k`".
pub open spec fn with_id(k: i64) -> spec_fn(Customer) -> bool {
    |c: Customer| c.user_id == k
}

/// For every id, the two sequences hold the same records with that id, in
/// the same order.  This is both a permutation statement and a stability
/// statement: records with duplicate ids keep their relative order.
pub open spec fn same_ids_in_order(s1: Seq<Customer>, s2: Seq<Customer>) -> bool {
    forall|k: i64| #[trigger] s1.filter(with_id(k)) == s2.filter(with_id(k))
}

/// The sequence is sorted by id, ascending.
pub open spec fn sorted_by_user_id(s: Seq<Customer>) -> bool {
    forall|i: int, j: int| 0 <= i < j < s.len() ==> #[trigger] s[i].user_id <= #[trigger] s[j].user_id
}

/// An ordered list of customers.  Insertion order is preserved on
/// construction; the only in-place mutation is the stable sort by id.
#[derive(Debug, Clone)]
pub struct CustomerList(Vec<Customer>);

impl View for CustomerList {
    type V = Seq<Customer>;

    closed spec fn view(&self) -> Seq<Customer> {
        self.0@
    }
}

impl CustomerList {
    /// Wraps the given records, preserving their order.
    pub fn from_vec(customers: Vec<Customer>) -> (r: CustomerList)
        ensures
            r@ == customers@,
    {
        CustomerList(customers)
    }

    /// Hands the records back out, in the list's current order.  Together
    /// with `from_vec` this is the round trip: building a list from a
    /// sequence and reading it back yields the same sequence.
    pub fn into_vec(self) -> (r: Vec<Customer>)
        ensures
            r@ == self@,
    {
        self.0
    }

    /// The number of records.
    pub fn len(&self) -> (r: usize)
        ensures
            r == self@.len(),
    {
        self.0.len()
    }

    /// The record at the given position.
    pub fn get(&self, i: usize) -> (r: &Customer)
        requires
            i < self@.len(),
        ensures
            *r == self@[i as int],
    {
        &self.0[i]
    }

    /// An independent copy of the list: same length, equal abstract values
    /// position by position.
    pub fn duplicate(&self) -> (r: CustomerList)
        ensures
            views(r@) == views(self@),
    {
        let mut out: Vec<Customer> = Vec::new();
        let n = self.0.len();
        let mut i: usize = 0;
        while i < n
            invariant
                0 <= i <= n,
                n == self.0@.len(),
                out@.len() == i,
                forall|q: int| 0 <= q < i ==> (#[trigger] out@[q])@ == self.0@[q]@,
            decreases n - i,
        {
            out.push(self.0[i].duplicate());
            i = i + 1;
        }
        proof {
            assert(views(out@) =~= views(self.0@));
        }
        CustomerList(out)
    }

    /// Sorts the list in place by `user_id`, ascending, stably: the result
    /// is sorted, and for every id the records carrying that id keep their
    /// original relative order.
    pub fn sort_by_user_id(&mut self)
        ensures
            final(self)@.len() == old(self)@.len(),
            sorted_by_user_id(final(self)@),
            same_ids_in_order(final(self)@, old(self)@),
    {
        let ghost orig: Seq<Customer> = self@;
        let n = self.0.len();
        if n <= 1 {
            return;
        }
        let mut i: usize = 1;
        while i < n
            invariant
                1 <= i <= n,
                self.0@.len() == n,
                sorted_by_user_id(self.0@.take(i as int)),
                same_ids_in_order(self.0@, orig),
            decreases n - i,
        {
            let x_id = self.0[i].user_id;
            let mut p: usize = i;
            while p > 0 && self.0[p - 1].user_id > x_id
                invariant
                    0 <= p <= i < n,
                    self.0@.len() == n,
                    x_id == self.0@[i as int].user_id,
                    sorted_by_user_id(self.0@.take(i as int)),
                    forall|q: int| p <= q < i ==> #[trigger] self.0@[q].user_id > x_id,
                decreases p,
            {
                p = p - 1;
            }
            let ghost before: Seq<Customer> = self.0@;
            let x = self.0.remove(i);
            self.0.insert(p, x);
            proof {
                lemma_insertion_step(before, self.0@, p as int, i as int);
            }
            i = i + 1;
        }
        proof {
            assert(self.0@.take(n as int) =~= self.0@);
        }
    }
}

impl PartialEq for CustomerList {
    fn eq(&self, other: &CustomerList) -> (r: bool) {
        if self.0.len() != other.0.len() {
            return false;
        }
        let n = self.0.len();
        let mut i: usize = 0;
        while i < n
            invariant
                0 <= i <= n,
                n == self.0@.len(),
                n == other.0@.len(),
                forall|q: int| 0 <= q < i ==> customer_eq(#[trigger] self.0@[q]@, other.0@[q]@),
            decreases n - i,
        {
            if !(self.0[i] == other.0[i]) {
                return false;
            }
            i = i + 1;
        }
        true
    }
}

impl vstd::std_specs::cmp::PartialEqSpecImpl for CustomerList {
    open spec fn obeys_eq_spec() -> bool {
        true
    }

    open spec fn eq_spec(&self, other: &CustomerList) -> bool {
        list_eq(self@, other@)
    }
}

/// Element-wise equality of two record sequences, under `customer_eq`.
pub open spec fn list_eq(s1: Seq<Customer>, s2: Seq<Customer>) -> bool {
    &&& s1.len() == s2.len()
    &&& forall|i: int| 0 <= i < s1.len() ==> customer_eq(#[trigger] s1[i]@, s2[i]@)
}

/// A sorted sequence's last id bounds every id that a peer with the same
/// per-id records ends with: the peer's last id occurs in the sorted
/// sequence too, below or at its own last id.
proof fn lemma_last_id_bounded(s1: Seq<Customer>, s2: Seq<Customer>)
    requires
        sorted_by_user_id(s1),
        s1.len() > 0,
        s2.len() > 0,
        same_ids_in_order(s1, s2),
    ensures
        s2.last().user_id <= s1.last().user_id,
{
    let k = s2.last().user_id;
    let p = with_id(k);
    s2.lemma_filter_contains(p, s2.len() - 1);
    let f = s1.filter(p);
    assert(f.len() > 0);
    s1.lemma_filter_pred(p, 0);
    assert(f.contains(f[0])) by {
        assert(0 <= 0 < f.len() && f[0] == f[0]);
    }
    s1.lemma_filter_contains_rev(p, f[0]);
    let i = choose|i: int| 0 <= i < s1.len() && s1[i] == f[0];
    assert(s1[i].user_id <= s1[s1.len() - 1].user_id);
}

/// The sort's contract has one model: any two sequences that are sorted by
/// id and hold the records of every id in the same order are equal.  So
/// `sort_by_user_id`'s two clauses determine its result uniquely.
pub proof fn lemma_stable_sort_unique(s1: Seq<Customer>, s2: Seq<Customer>)
    requires
        sorted_by_user_id(s1),
        sorted_by_user_id(s2),
        same_ids_in_order(s1, s2),
    ensures
        s1 == s2,
    decreases s1.len() + s2.len(),
{
    reveal_with_fuel(Seq::<_>::filter, 2);
    if s1.len() == 0 && s2.len() == 0 {
        assert(s1 =~= s2);
    } else if s1.len() == 0 {
        let k = s2.last().user_id;
        s2.lemma_filter_contains(with_id(k), s2.len() - 1);
        assert(s1.filter(with_id(k)).len() == 0);
    } else if s2.len() == 0 {
        let k = s1.last().user_id;
        s1.lemma_filter_contains(with_id(k), s1.len() - 1);
        assert(s2.filter(with_id(k)).len() == 0);
    } else {
        lemma_last_id_bounded(s1, s2);
        assert forall|k: i64| #[trigger] s2.filter(with_id(k)) == s1.filter(with_id(k)) by {}
        lemma_last_id_bounded(s2, s1);
        assert(s1.last().user_id == s2.last().user_id);
        let k = s1.last().user_id;
        let p = with_id(k);
        assert(s1.filter(p) == s1.drop_last().filter(p).push(s1.last()));
        assert(s2.filter(p) == s2.drop_last().filter(p).push(s2.last()));
        assert(s1.last() == s2.last()) by {
            assert(s1.filter(p).last() == s1.last());
            assert(s2.filter(p).last() == s2.last());
        }
        assert forall|q: i64| #[trigger] s1.drop_last().filter(with_id(q)) == s2.drop_last().filter(
            with_id(q),
        ) by {
            let pq = with_id(q);
            if q == k {
                assert(s1.drop_last().filter(pq) == s1.filter(pq).drop_last());
                assert(s2.drop_last().filter(pq) == s2.filter(pq).drop_last());
            } else {
                assert(s1.drop_last().filter(pq) == s1.filter(pq));
                assert(s2.drop_last().filter(pq) == s2.filter(pq));
            }
        }
        assert(forall|m: int| 0 <= m < s1.len() - 1 ==> #[trigger] s1.drop_last()[m] == s1[m]);
        assert(forall|m: int| 0 <= m < s2.len() - 1 ==> #[trigger] s2.drop_last()[m] == s2[m]);
        assert(sorted_by_user_id(s1.drop_last()));
        assert(sorted_by_user_id(s2.drop_last()));
        lemma_stable_sort_unique(s1.drop_last(), s2.drop_last());
        assert(s1.len() == s2.len());
        assert forall|m: int| 0 <= m < s1.len() implies s1[m] == s2[m] by {
            if m < s1.len() - 1 {
                assert(s1.drop_last()[m] == s2.drop_last()[m]);
            } else {
                assert(s1[m] == s1.last() && s2[m] == s2.last());
            }
        }
        assert(s1 =~= s2);
    }
}

/// Moving one record to the left across records that all carry other ids
/// neither loses nor reorders the records of any single id.
proof fn lemma_move_left_keeps_ids(
    a: Seq<Customer>,
    b: Seq<Customer>,
    x: Customer,
    c: Seq<Customer>,
    k: i64,
)
    requires
        forall|q: int| 0 <= q < b.len() ==> #[trigger] b[q].user_id != x.user_id,
    ensures
        (a + b + seq![x] + c).filter(with_id(k)) == (a + seq![x] + b + c).filter(with_id(k)),
{
    broadcast use Seq::filter_distributes_over_add;

    let p = with_id(k);
    reveal_with_fuel(Seq::<_>::filter, 2);
    assert(seq![x].drop_last() =~= Seq::<Customer>::empty());
    assert(seq![x].filter(p) =~= if p(x) { seq![x] } else { Seq::<Customer>::empty() });
    if k == x.user_id {
        b.lemma_all_neg_filter_empty(p);
    } else {
        assert(seq![x].filter(p) =~= Seq::<Customer>::empty());
    }
    assert((a + b + seq![x] + c).filter(p) =~= (a + seq![x] + b + c).filter(p));
}

/// One step of the insertion sort: taking the record out of position `i`
/// and putting it back at position `p` keeps the records of every id in
/// their order, and sorts the prefix one position further.
proof fn lemma_insertion_step(before: Seq<Customer>, after: Seq<Customer>, p: int, i: int)
    requires
        0 <= p <= i < before.len(),
        after == before.remove(i).insert(p, before[i]),
        sorted_by_user_id(before.take(i)),
        forall|q: int| p <= q < i ==> #[trigger] before[q].user_id > before[i].user_id,
        p > 0 ==> before[p - 1].user_id <= before[i].user_id,
    ensures
        after.len() == before.len(),
        sorted_by_user_id(after.take(i + 1)),
        same_ids_in_order(after, before),
{
    let n = before.len();
    let x = before[i];
    let a = before.take(p);
    let b = before.subrange(p, i);
    let c = before.subrange(i + 1, n as int);
    assert(before =~= a + b + seq![x] + c);
    assert(after =~= a + seq![x] + b + c);
    assert forall|k: i64| #[trigger] after.filter(with_id(k)) == before.filter(with_id(k)) by {
        lemma_move_left_keeps_ids(a, b, x, c, k);
    }
    assert forall|q: int, r: int| 0 <= q < r < i + 1 implies #[trigger] after[q].user_id
        <= #[trigger] after[r].user_id by {
        assert(forall|m: int| 0 <= m < p ==> after[m] == before[m]);
        assert(after[p] == x);
        assert(forall|m: int| p < m <= i ==> after[m] == before[m - 1]);
    }
}

} // verus!
