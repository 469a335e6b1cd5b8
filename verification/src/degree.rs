//! The degree of a sine approximant: the number of coefficients it is built
//! with. A polynomial needs at least one, so the degree is checked once, when
//! it is chosen, and every `Degree` that exists is positive.

use vstd::prelude::*;

verus! {

/// Why an approximant cannot be built.
#[derive(Clone, Copy, Debug, PartialEq, Eq, Structural)]
pub enum BuildError {
    /// The degree asked for is zero: there is no polynomial to fit.
    InvalidDegree,
}

/// A number of coefficients, at least one.
#[derive(Clone, Copy, Debug, PartialEq, Eq)]
pub struct Degree {
    terms: usize,
}

impl View for Degree {
    type V = nat;

    closed spec fn view(&self) -> nat {
        self.terms as nat
    }
}

impl Degree {
    #[verifier::type_invariant]
    closed spec fn positive(self) -> bool {
        self.terms >= 1
    }

    /// Accepts every number of terms but zero.
    pub fn new(terms: usize) -> (r: Result<Degree, BuildError>)
        ensures
            match r {
                Ok(degree) => terms >= 1 && degree@ == terms,
                Err(e) => terms == 0 && e == BuildError::InvalidDegree,
            },
    {
        if terms == 0 {
            Err(BuildError::InvalidDegree)
        } else {
            Ok(Degree { terms })
        }
    }

    /// The number of coefficients.
    pub fn terms(&self) -> (n: usize)
        ensures
            n == self@,
            n >= 1,
    {
        proof {
            use_type_invariant(self);
        }
        self.terms
    }

    /// The number of steps of the backward recurrence that evaluates the
    /// polynomial: one for each coefficient but the first, so none at all
    /// for the smallest degree.
    pub fn recurrence_steps(&self) -> (n: usize)
        ensures
            n == self@ - 1,
    {
        proof {
            use_type_invariant(self);
        }
        self.terms - 1
    }
}

} // verus!
