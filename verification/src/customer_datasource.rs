//! The data-source capability: anything that can, on demand, produce a
//! customer list or fail with an error describing why.
//!
//! The trait decouples the ingestion format from every consumer: a locator
//! built over this capability never learns where the records came from.  An
//! implementor declares, as the spec function `fetch_result`, what outcome
//! its `customers` call produces — the record values on success, or `None`
//! for a failure — and `customers` is held to it.

use vstd::prelude::*;

use crate::customer::{views, Customer, CustomerList, CustomerView};

verus! {

/// Produce an `CustomerList`, or fail with a descriptive error.
pub trait CustomerDatasource {
    /// The error the source fails with.
    type Err;

    /// The outcome the source produces: the abstract record values on
    /// success, `None` when it fails.  A verified implementation overrides
    /// this with what its `customers` actually yields; an implementation
    /// outside the verifier leaves the default, of which nothing is
    /// claimed.
    open spec fn fetch_result(&self) -> Option<Seq<CustomerView>> {
        None
    }

    /// Produces the customer records, or an error describing why they
    /// could not be produced.
    fn customers(&self) -> (r: Result<CustomerList, Self::Err>)
        ensures
            match r {
                Ok(list) => self.fetch_result() == Some(views(list@)),
                Err(_) => self.fetch_result() is None,
            },
    ;
}

/// A data source over records already in memory: hands out a copy of a
/// fixed list, or fails with a fixed message.  The simplest implementation
/// of the capability, and a convenient stand-in for a real ingestion
/// format.
pub struct InMemorySource {
    customers: CustomerList,
    failure: Option<String>,
}

impl InMemorySource {
    /// A source that produces a copy of the given records.
    pub fn new(customers: CustomerList) -> (r: InMemorySource)
        ensures
            r.fetch_result() == Some(views(customers@)),
    {
        InMemorySource { customers, failure: None }
    }

    /// A source that fails with the given message.
    pub fn failing(message: &str) -> (r: InMemorySource)
        ensures
            r.fetch_result() is None,
    {
        InMemorySource { customers: CustomerList::from_vec(Vec::new()), failure: Some(message.to_owned()) }
    }
}

impl CustomerDatasource for InMemorySource {
    type Err = String;

    closed spec fn fetch_result(&self) -> Option<Seq<CustomerView>> {
        if self.failure is Some {
            None
        } else {
            Some(views(self.customers@))
        }
    }

    fn customers(&self) -> (r: Result<CustomerList, String>) {
        match &self.failure {
            Some(message) => Err(message.clone()),
            None => Ok(self.customers.duplicate()),
        }
    }
}

} // verus!
