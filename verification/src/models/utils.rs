//! Shapes shared by the lists that the services hand out.

use vstd::prelude::*;

verus! {

/// One page of a list, with the number of rows that the whole list has.
#[derive(Debug)]
pub struct SizedList<T> {
    pub total: i64,
    pub list: Vec<T>,
}

} // verus!
