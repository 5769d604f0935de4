use vstd::prelude::*;
use crate::field::{Fe, fe_add, fe_mul};
use crate::cubic::cubic_value;
use crate::system::Error;

verus! {

/// A relation checked with plain field arithmetic: the prover's secret
/// against a public value.
pub trait CubicRootTrait {
    type ParamType;

    /// Both sides hold canonical field elements.
    spec fn well_formed(&self, y: &Self::ParamType) -> bool;

    /// The relation between the secret and the public value.
    spec fn holds(&self, y: &Self::ParamType) -> bool;

    fn verify(&self, y: &Self::ParamType) -> (r: Result<bool, Error>)
        requires
            self.well_formed(y),
        ensures
            r == Ok::<bool, Error>(self.holds(y)),
    ;
}

/// A field element handed to an evaluator.
#[derive(Clone, Copy, Debug)]
pub struct ParamType {
    pub inner: Fe,
}

impl ParamType {
    pub fn new(inner: Fe) -> (r: ParamType)
        ensures
            r.inner == inner,
    {
        ParamType { inner }
    }
}

/// The native evaluator of `x^3 + x + 5 = y`.
#[derive(Clone, Copy, Debug)]
pub struct SolutionDemo {
    pub x: ParamType,
}

impl CubicRootTrait for SolutionDemo {
    type ParamType = ParamType;

    open spec fn well_formed(&self, y: &ParamType) -> bool {
        self.x.inner.wf() && y.inner.wf()
    }

    open spec fn holds(&self, y: &ParamType) -> bool {
        cubic_value(self.x.inner.val()) == y.inner.val()
    }

    /// Computes `x * x * x + x + 5` and compares it with `y`.
    fn verify(&self, y: &ParamType) -> (r: Result<bool, Error>) {
        let x = self.x.inner;
        let eval = fe_add(&fe_add(&fe_mul(&fe_mul(&x, &x), &x), &x), &Fe::from_u64(5));
        Ok(eval.equals(&y.inner))
    }
}

} // verus!
