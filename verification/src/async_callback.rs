//! Calling an asynchronous callback that borrows its argument.

use vstd::prelude::*;
use core::future::Future;

verus! {

/// A callback taking a reference that lives as long as the future it returns.
pub trait AsyncCallback<'a, T> {
    type Output: 'a + Future<Output = ()>;

    fn call(&self, argument: &'a T) -> Self::Output;
}

} // verus!
