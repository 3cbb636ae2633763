//! The order of decimal numbers by value.
use crate::decimal::{lt, same_value, value_eq, value_lt, Decimal};
use core::cmp::Ordering;
use vstd::prelude::*;
use vstd::std_specs::cmp::PartialOrdSpecImpl;

verus! {

impl PartialOrd for Decimal {
    fn partial_cmp(&self, other: &Decimal) -> (r: Option<Ordering>) {
        if lt(self, other) {
            Some(Ordering::Less)
        } else if value_eq(self, other) {
            Some(Ordering::Equal)
        } else {
            Some(Ordering::Greater)
        }
    }
}

impl PartialOrdSpecImpl for Decimal {
    open spec fn obeys_partial_cmp_spec() -> bool {
        true
    }

    open spec fn partial_cmp_spec(&self, other: &Decimal) -> Option<Ordering> {
        if value_lt(self@, other@) {
            Some(Ordering::Less)
        } else if same_value(self@, other@) {
            Some(Ordering::Equal)
        } else {
            Some(Ordering::Greater)
        }
    }
}

} // verus!
