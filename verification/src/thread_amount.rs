//! How many threads a pool has: a number that is never zero.

use std::num::{NonZeroUsize, TryFromIntError};
use vstd::prelude::*;

verus! {

/// A number of threads, at least one.
#[derive(Clone, Copy, Debug)]
pub struct ThreadAmount {
    amount: usize,
}

impl View for ThreadAmount {
    type V = nat;

    closed spec fn view(&self) -> nat {
        self.amount as nat
    }
}

/// Converts a number to a non-zero number, with `NonZeroUsize::try_from`.
///
/// The conversion of the standard library succeeds exactly on the numbers other than zero, and
/// then keeps the number.
#[verifier::external_body]
fn non_zero(n: usize) -> (r: Result<usize, TryFromIntError>)
    ensures
        r is Ok <==> n != 0,
        r matches Ok(m) ==> m == n,
{
    Ok(NonZeroUsize::try_from(n)?.get())
}

impl ThreadAmount {
    #[verifier::type_invariant]
    spec fn at_least_one(self) -> bool {
        self.amount > 0
    }

    /// One thread.
    pub fn one() -> (r: ThreadAmount)
        ensures
            r@ == 1,
    {
        ThreadAmount { amount: 1 }
    }

    /// The amount `n`. The standard library is asked only where it gives the error.
    ///
    /// # Errors
    ///
    /// If `n` is 0.
    pub fn try_from(n: usize) -> (r: Result<ThreadAmount, TryFromIntError>)
        ensures
            r is Ok <==> n != 0,
            r matches Ok(t) ==> t@ == n,
    {
        if n != 0 {
            Ok(ThreadAmount { amount: n })
        } else {
            match non_zero(n) {
                Ok(amount) => Ok(ThreadAmount { amount }),
                Err(e) => Err(e),
            }
        }
    }

    /// The amount as a number.
    pub fn get(self) -> (n: usize)
        ensures
            n == self@,
            n > 0,
    {
        proof {
            use_type_invariant(self);
        }
        self.amount
    }
}

} // verus!
