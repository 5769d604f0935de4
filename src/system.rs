use vstd::prelude::*;
use std::cell::RefCell;
use std::rc::Rc;
use ark_bls12_381::Fr;
use ark_ff::{BigInt, PrimeField};
use ark_relations::r1cs::{LinearCombination, SynthesisError, SynthesisMode, Variable};
use crate::field::{Fe, fmul, fadd, opt_val};

verus! {

/// Failures of constraint synthesis.
#[derive(Clone, Copy, Debug, PartialEq, Eq, Structural)]
pub enum Error {
    /// A value was needed (proving mode) but none was supplied.
    AssignmentMissing,
    /// The requested circuit shape cannot be allocated.
    AllocationError,
    /// Any other failure reported by the constraint system.
    ConstraintSystemError,
}

/// A handle on an allocated variable. `Input(0)` is the constant one.
#[derive(Clone, Copy, Debug, PartialEq, Eq, Structural)]
pub enum Var {
    Input(usize),
    Witness(usize),
}

/// A term of a linear combination: a coefficient times a variable.
#[derive(Clone, Copy, Debug, PartialEq, Eq, Structural)]
pub struct Term {
    pub coeff: Fe,
    pub var: Var,
}

/// A linear combination of variables.
#[derive(Debug)]
pub struct Lc {
    pub terms: Vec<Term>,
}

/// A term as the model sees it: coefficient, whether the variable is a
/// witness, and its index.
pub type TermView = (int, bool, nat);

/// A rank-1 constraint `A * B = C` as the model sees it.
pub type ConstraintView = (Seq<TermView>, Seq<TermView>, Seq<TermView>);

/// The term `c * v` as the model sees it.
pub open spec fn var_view(c: int, v: Var) -> TermView {
    match v {
        Var::Input(i) => (c, false, i as nat),
        Var::Witness(i) => (c, true, i as nat),
    }
}

pub open spec fn term_view(t: Term) -> TermView {
    var_view(t.coeff.val(), t.var)
}

impl Lc {
    pub open spec fn view(&self) -> Seq<TermView> {
        self.terms@.map_values(|t: Term| term_view(t))
    }

    pub open spec fn wf(&self) -> bool {
        forall|i: int| 0 <= i < self.terms@.len() ==> #[trigger] self.terms@[i].coeff.wf()
    }

    /// The combination `1 * v`.
    pub fn of(v: Var) -> (r: Lc)
        ensures
            r.wf(),
            r@ == seq![var_view(1, v)],
    {
        let r = Lc { terms: vec![Term { coeff: Fe::from_u64(1), var: v }] };
        assert(r@ =~= seq![var_view(1, v)]);
        r
    }

    /// The terms of `self` followed by those of `other`.
    pub fn concat(self, other: &Lc) -> (r: Lc)
        requires
            self.wf(),
            other.wf(),
        ensures
            r.wf(),
            r@ == self@ + other@,
    {
        let mut terms = self.terms;
        let mut i: usize = 0;
        while i < other.terms.len()
            invariant
                i <= other.terms@.len(),
                terms@.len() == self.terms@.len() + i,
                forall|j: int| 0 <= j < self.terms@.len() ==> terms@[j] == self.terms@[j],
                forall|j: int| 0 <= j < i ==> terms@[self.terms@.len() + j] == other.terms@[j],
                forall|j: int| 0 <= j < other.terms@.len() ==> #[trigger] other.terms@[j].coeff.wf(),
                forall|j: int| 0 <= j < self.terms@.len() ==> #[trigger] self.terms@[j].coeff.wf(),
            decreases other.terms@.len() - i,
        {
            terms.push(other.terms[i]);
            i = i + 1;
        }
        let r = Lc { terms };
        assert(r.terms@ =~= self.terms@ + other.terms@);
        assert(r@ =~= self@ + other@);
        r
    }

    /// Appends `coeff * v`.
    pub fn plus(self, coeff: Fe, v: Var) -> (r: Lc)
        requires
            self.wf(),
            coeff.wf(),
        ensures
            r.wf(),
            r@ == self@.push(var_view(coeff.val(), v)),
    {
        let mut terms = self.terms;
        terms.push(Term { coeff, var: v });
        let r = Lc { terms };
        assert(r@ =~= self@.push(var_view(coeff.val(), v)));
        r
    }
}

/// The input one holds 1, as arkworks sets it when it makes a system.
pub open spec fn one_held(cs: ConstraintSystem) -> bool {
    cs_inputs(cs).len() > 0 && cs_inputs(cs)[0] == Some(1int)
}

/// `new` begins with `old`.
pub open spec fn extends<A>(old: Seq<A>, new: Seq<A>) -> bool {
    old.len() <= new.len() && new.subrange(0, old.len() as int) == old
}

/// A term of one coefficient over an input or witness.
pub open spec fn unit(witness: bool, index: nat) -> TermView {
    (1, witness, index)
}

/// A constraint system of the arkworks library over BLS12-381's scalar
/// field, in which variables are allocated and rank-1 constraints enforced.
/// It is held behind the shared handle a proof system hands to a circuit;
/// the handle mutates through `&self`, so it is kept opaque here and every
/// change goes through a `&mut` method of this type.
#[verifier::external_body]
pub struct ConstraintSystem {
    pub inner: Rc<RefCell<ark_relations::r1cs::ConstraintSystem<Fr>>>,
}

/// Whether the system is in setup mode, where no values are held.
pub uninterp spec fn cs_setup(cs: ConstraintSystem) -> bool;

/// Whether the system keeps its constraints (setup mode, or proving mode
/// that builds the constraint matrices).
pub uninterp spec fn cs_records(cs: ConstraintSystem) -> bool;

/// The public inputs in order, index 0 being the constant one; each holds
/// its value when the system has one for it.
pub uninterp spec fn cs_inputs(cs: ConstraintSystem) -> Seq<Option<int>>;

/// The witnesses in order, each with its value when the system has one.
pub uninterp spec fn cs_witnesses(cs: ConstraintSystem) -> Seq<Option<int>>;

/// The constraints kept, in the order they were enforced.
pub uninterp spec fn cs_constraints(cs: ConstraintSystem) -> Seq<ConstraintView>;

/// The value of a term under the system's assignment.
pub open spec fn term_value(inputs: Seq<Option<int>>, witnesses: Seq<Option<int>>, t: TermView) -> Option<int> {
    let vals = if t.1 { witnesses } else { inputs };
    if t.2 < vals.len() {
        match vals[t.2 as int] {
            Some(v) => Some(t.0 * v),
            None => None,
        }
    } else {
        None
    }
}

/// The value of a linear combination under an assignment, reduced into the field.
pub open spec fn lc_value(inputs: Seq<Option<int>>, witnesses: Seq<Option<int>>, lc: Seq<TermView>) -> Option<int>
    decreases lc.len(),
{
    if lc.len() == 0 {
        Some(0)
    } else {
        match (lc_value(inputs, witnesses, lc.drop_last()), term_value(inputs, witnesses, lc.last())) {
            (Some(s), Some(t)) => Some(fadd(s, t)),
            _ => None,
        }
    }
}

/// Checks constraints from index `i` on, in order: `None` where a value is
/// missing before any constraint fails, else whether all hold.
pub open spec fn check_from(inputs: Seq<Option<int>>, witnesses: Seq<Option<int>>, cons: Seq<ConstraintView>, i: int) -> Option<bool>
    decreases cons.len() - i,
{
    if i < 0 || i >= cons.len() {
        Some(true)
    } else {
        let c = cons[i];
        match (lc_value(inputs, witnesses, c.0), lc_value(inputs, witnesses, c.1), lc_value(inputs, witnesses, c.2)) {
            (Some(a), Some(b), Some(o)) => if fmul(a, b) == o {
                check_from(inputs, witnesses, cons, i + 1)
            } else {
                Some(false)
            },
            _ => None,
        }
    }
}

/// A combination with every coefficient multiplied by `c` in the field.
pub open spec fn scaled(l: Seq<TermView>, c: int) -> Seq<TermView> {
    l.map_values(|t: TermView| (fmul(t.0, c), t.1, t.2))
}

/// Whether every kept constraint holds under the system's assignment.
pub open spec fn satisfaction(cs: ConstraintSystem) -> Option<bool> {
    check_from(cs_inputs(cs), cs_witnesses(cs), cs_constraints(cs), 0)
}

/// Relies on arkworks' `ConstraintSystem::new`: proving mode that builds
/// matrices, the input one holding one, nothing else.
#[verifier::external_body]
fn ark_new_system() -> (r: ConstraintSystem)
    ensures
        !cs_setup(r),
        cs_records(r),
        cs_inputs(r) == seq![Some(1int)],
        cs_witnesses(r) == Seq::<Option<int>>::empty(),
        cs_constraints(r) == Seq::<ConstraintView>::empty(),
{
    ConstraintSystem { inner: Rc::new(RefCell::new(ark_relations::r1cs::ConstraintSystem::new())) }
}

/// Relies on arkworks' `ConstraintSystem::set_mode` with `SynthesisMode::Setup`:
/// it changes the mode alone, and a fresh system in setup mode keeps its
/// constraints and its one value for the input one.
#[verifier::external_body]
fn ark_set_setup(cs: &mut ConstraintSystem)
    ensures
        cs_setup(*final(cs)),
        cs_records(*final(cs)),
        cs_inputs(*final(cs)) == cs_inputs(*old(cs)),
        cs_witnesses(*final(cs)) == cs_witnesses(*old(cs)),
        cs_constraints(*final(cs)) == cs_constraints(*old(cs)),
{
    cs.inner.borrow_mut().set_mode(SynthesisMode::Setup)
}

impl ConstraintSystem {
    /// A new system in proving mode: it holds the value of every variable.
    pub fn new_prover() -> (r: ConstraintSystem)
        ensures
            !cs_setup(r),
            cs_records(r),
            cs_inputs(r) == seq![Some(1int)],
            cs_witnesses(r) == Seq::<Option<int>>::empty(),
            cs_constraints(r) == Seq::<ConstraintView>::empty(),
    {
        ark_new_system()
    }

    /// A new system in setup mode: it records the shape only.
    pub fn new_setup() -> (r: ConstraintSystem)
        ensures
            cs_setup(r),
            cs_records(r),
            cs_inputs(r) == seq![Some(1int)],
            cs_witnesses(r) == Seq::<Option<int>>::empty(),
            cs_constraints(r) == Seq::<ConstraintView>::empty(),
    {
        let mut cs = ark_new_system();
        ark_set_setup(&mut cs);
        cs
    }

    /// Relies on arkworks' `ConstraintSystem::num_witness_variables`.
    #[verifier::external_body]
    pub fn num_witnesses(&self) -> (r: usize)
        ensures
            r == cs_witnesses(*self).len(),
    {
        self.inner.borrow().num_witness_variables
    }

    /// Relies on arkworks' `ConstraintSystem::is_in_setup_mode`.
    #[verifier::external_body]
    pub fn is_setup(&self) -> (r: bool)
        ensures
            r == cs_setup(*self),
    {
        self.inner.borrow().is_in_setup_mode()
    }

    /// The handle of the constant one.
    pub fn one() -> (r: Var)
        ensures
            r == Var::Input(0),
    {
        Var::Input(0)
    }

    /// Relies on arkworks' `ConstraintSystem::new_witness_variable`: the next
    /// witness index, with the value taken in proving mode only. A value is
    /// required in proving mode, so the closure never fails.
    #[verifier::external_body]
    pub(crate) fn alloc_witness(&mut self, v: Option<Fe>) -> (r: Result<Var, Error>)
        requires
            cs_witnesses(*old(self)).len() < usize::MAX,
            v matches Some(x) ==> x.wf(),
            cs_setup(*old(self)) || v is Some,
        ensures
            cs_setup(*final(self)) == cs_setup(*old(self)),
            cs_records(*final(self)) == cs_records(*old(self)),
            cs_inputs(*final(self)) == cs_inputs(*old(self)),
            cs_constraints(*final(self)) == cs_constraints(*old(self)),
            cs_witnesses(*final(self)) == cs_witnesses(*old(self)).push(
                if cs_setup(*old(self)) { None } else { opt_val(v) }),
            r == Ok::<Var, Error>(Var::Witness(cs_witnesses(*old(self)).len() as usize)),
    {
        let f = || v.map(|x| Fr::new(BigInt::new([x.l0, x.l1, x.l2, x.l3]))).ok_or(SynthesisError::AssignmentMissing);
        match self.inner.borrow_mut().new_witness_variable(f) {
            Ok(Variable::Witness(i)) => Ok(Var::Witness(i)),
            Ok(_) => Err(Error::ConstraintSystemError),
            Err(SynthesisError::AssignmentMissing) => Err(Error::AssignmentMissing),
            Err(_) => Err(Error::ConstraintSystemError),
        }
    }

    /// Relies on arkworks' `ConstraintSystem::new_input_variable`: the next
    /// input index, with the value taken in proving mode only. A value is
    /// required in proving mode, so the closure never fails.
    #[verifier::external_body]
    pub(crate) fn alloc_input(&mut self, v: Option<Fe>) -> (r: Result<Var, Error>)
        requires
            cs_inputs(*old(self)).len() < usize::MAX,
            v matches Some(x) ==> x.wf(),
            cs_setup(*old(self)) || v is Some,
        ensures
            cs_setup(*final(self)) == cs_setup(*old(self)),
            cs_records(*final(self)) == cs_records(*old(self)),
            cs_witnesses(*final(self)) == cs_witnesses(*old(self)),
            cs_constraints(*final(self)) == cs_constraints(*old(self)),
            cs_inputs(*final(self)) == cs_inputs(*old(self)).push(
                if cs_setup(*old(self)) { None } else { opt_val(v) }),
            r == Ok::<Var, Error>(Var::Input(cs_inputs(*old(self)).len() as usize)),
    {
        let f = || v.map(|x| Fr::new(BigInt::new([x.l0, x.l1, x.l2, x.l3]))).ok_or(SynthesisError::AssignmentMissing);
        match self.inner.borrow_mut().new_input_variable(f) {
            Ok(Variable::Instance(i)) => Ok(Var::Input(i)),
            Ok(_) => Err(Error::ConstraintSystemError),
            Err(SynthesisError::AssignmentMissing) => Err(Error::AssignmentMissing),
            Err(_) => Err(Error::ConstraintSystemError),
        }
    }

    /// Relies on arkworks' `ConstraintSystem::enforce_constraint`: it always
    /// succeeds, and keeps `a * b = c` when the system keeps constraints.
    #[verifier::external_body]
    pub(crate) fn enforce(&mut self, a: Lc, b: Lc, c: Lc) -> (r: Result<(), Error>)
        requires
            a.wf(),
            b.wf(),
            c.wf(),
        ensures
            r is Ok,
            cs_setup(*final(self)) == cs_setup(*old(self)),
            cs_records(*final(self)) == cs_records(*old(self)),
            cs_inputs(*final(self)) == cs_inputs(*old(self)),
            cs_witnesses(*final(self)) == cs_witnesses(*old(self)),
            cs_constraints(*final(self)) == if cs_records(*old(self)) {
                cs_constraints(*old(self)).push((a@, b@, c@))
            } else {
                cs_constraints(*old(self))
            },
    {
        let lc = |l: Lc| LinearCombination(l.terms.iter().map(|t| (Fr::new(BigInt::new([t.coeff.l0, t.coeff.l1, t.coeff.l2, t.coeff.l3])), match t.var {
            Var::Input(i) => Variable::Instance(i),
            Var::Witness(i) => Variable::Witness(i),
        })).collect());
        self.inner.borrow_mut().enforce_constraint(lc(a), lc(b), lc(c)).map_err(|_| Error::ConstraintSystemError)
    }

    /// Relies on arkworks' `ConstraintSystem::is_satisfied`: outside setup
    /// mode it checks the kept constraints in order, failing with
    /// `AssignmentMissing` where a value is missing.
    #[verifier::external_body]
    fn ark_is_satisfied(&self) -> (r: Result<bool, Error>)
        requires
            !cs_setup(*self),
            cs_records(*self),
        ensures
            r == match satisfaction(*self) {
                Some(b) => Ok::<bool, Error>(b),
                None => Err(Error::AssignmentMissing),
            },
    {
        self.inner.borrow().is_satisfied().map_err(|_| Error::AssignmentMissing)
    }

    /// Whether every kept constraint holds under the values held; a
    /// missing value gives `AssignmentMissing`.
    pub fn is_satisfied(&self) -> (r: Result<bool, Error>)
        requires
            !cs_setup(*self),
            cs_records(*self),
        ensures
            r == match satisfaction(*self) {
                Some(b) => Ok::<bool, Error>(b),
                None => Err(Error::AssignmentMissing),
            },
    {
        self.ark_is_satisfied()
    }
}

/// Extending the assignment keeps the value of a combination that had one.
pub proof fn lemma_lc_value_extends(
    ins: Seq<Option<int>>,
    wit: Seq<Option<int>>,
    ins2: Seq<Option<int>>,
    wit2: Seq<Option<int>>,
    l: Seq<TermView>,
)
    requires
        extends(ins, ins2),
        extends(wit, wit2),
        lc_value(ins, wit, l) is Some,
    ensures
        lc_value(ins2, wit2, l) == lc_value(ins, wit, l),
    decreases l.len(),
{
    if l.len() > 0 {
        lemma_lc_value_extends(ins, wit, ins2, wit2, l.drop_last());
        let t = l.last();
        if t.1 {
            assert(wit2[t.2 as int] == wit2.subrange(0, wit.len() as int)[t.2 as int]);
        } else {
            assert(ins2[t.2 as int] == ins2.subrange(0, ins.len() as int)[t.2 as int]);
        }
    }
}

/// Checking `a + b` from index `a.len() + j` is checking `b` from `j`.
pub proof fn lemma_check_shift(ins: Seq<Option<int>>, wit: Seq<Option<int>>, a: Seq<ConstraintView>, b: Seq<ConstraintView>, j: int)
    requires
        0 <= j <= b.len(),
    ensures
        check_from(ins, wit, a + b, a.len() + j) == check_from(ins, wit, b, j),
    decreases b.len() - j,
{
    if j < b.len() {
        assert((a + b)[a.len() + j] == b[j]);
        lemma_check_shift(ins, wit, a, b, j + 1);
    }
}

/// Constraints that held under an assignment keep holding under an
/// extension of it, so checking them followed by `b` is checking `b`.
pub proof fn lemma_check_prefix(
    ins: Seq<Option<int>>,
    wit: Seq<Option<int>>,
    ins2: Seq<Option<int>>,
    wit2: Seq<Option<int>>,
    a: Seq<ConstraintView>,
    b: Seq<ConstraintView>,
    i: int,
)
    requires
        extends(ins, ins2),
        extends(wit, wit2),
        0 <= i <= a.len(),
        check_from(ins, wit, a, i) == Some(true),
    ensures
        check_from(ins2, wit2, a + b, i) == check_from(ins2, wit2, b, 0),
    decreases a.len() - i,
{
    if i < a.len() {
        let c = a[i];
        assert((a + b)[i] == c);
        lemma_lc_value_extends(ins, wit, ins2, wit2, c.0);
        lemma_lc_value_extends(ins, wit, ins2, wit2, c.1);
        lemma_lc_value_extends(ins, wit, ins2, wit2, c.2);
        lemma_check_prefix(ins, wit, ins2, wit2, a, b, i + 1);
    } else {
        lemma_check_shift(ins2, wit2, a, b, 0);
    }
}

/// A combination's value, when it has one, lies in the field.
pub proof fn lemma_lc_value_range(ins: Seq<Option<int>>, wit: Seq<Option<int>>, l: Seq<TermView>)
    ensures
        lc_value(ins, wit, l) matches Some(v) ==> 0 <= v < crate::field::modulus(),
    decreases l.len(),
{
    crate::field::lemma_modulus_large();
    if l.len() > 0 {
        lemma_lc_value_range(ins, wit, l.drop_last());
        if let (Some(s), Some(t)) = (lc_value(ins, wit, l.drop_last()), term_value(ins, wit, l.last())) {
            vstd::arithmetic::div_mod::lemma_mod_bound(s + t, crate::field::modulus());
        }
    }
}

/// The value of `a` followed by `b` is the sum of their values.
pub proof fn lemma_lc_concat(ins: Seq<Option<int>>, wit: Seq<Option<int>>, a: Seq<TermView>, b: Seq<TermView>)
    requires
        lc_value(ins, wit, a) is Some,
        lc_value(ins, wit, b) is Some,
    ensures
        lc_value(ins, wit, a + b) == Some(fadd(lc_value(ins, wit, a)->0, lc_value(ins, wit, b)->0)),
    decreases b.len(),
{
    let m = crate::field::modulus();
    crate::field::lemma_modulus_large();
    let x = lc_value(ins, wit, a)->0;
    lemma_lc_value_range(ins, wit, a);
    if b.len() == 0 {
        assert(a + b =~= a);
        vstd::arithmetic::div_mod::lemma_small_mod(x as nat, m as nat);
    } else {
        let b1 = b.drop_last();
        assert((a + b).drop_last() =~= a + b1);
        assert((a + b).last() == b.last());
        lemma_lc_concat(ins, wit, a, b1);
        let y1 = lc_value(ins, wit, b1)->0;
        let t = term_value(ins, wit, b.last())->0;
        vstd::arithmetic::div_mod::lemma_add_mod_noop_right(t, x + y1, m);
        vstd::arithmetic::div_mod::lemma_add_mod_noop_right(x, y1 + t, m);
        assert(fadd(fadd(x, y1), t) == fadd(x, fadd(y1, t)));
    }
}

/// Scaling a combination scales its value.
pub proof fn lemma_lc_scaled(ins: Seq<Option<int>>, wit: Seq<Option<int>>, b: Seq<TermView>, c: int)
    requires
        lc_value(ins, wit, b) is Some,
    ensures
        lc_value(ins, wit, scaled(b, c)) == Some(fmul(lc_value(ins, wit, b)->0, c)),
    decreases b.len(),
{
    let m = crate::field::modulus();
    crate::field::lemma_modulus_large();
    if b.len() == 0 {
        assert(scaled(b, c) =~= Seq::<TermView>::empty());
        assert(0 * c == 0) by (nonlinear_arith);
        vstd::arithmetic::div_mod::lemma_small_mod(0, m as nat);
    } else {
        let b1 = b.drop_last();
        assert(scaled(b, c).drop_last() =~= scaled(b1, c));
        lemma_lc_scaled(ins, wit, b1, c);
        let y1 = lc_value(ins, wit, b1)->0;
        let t0 = b.last().0;
        let tv = term_value(ins, wit, b.last())->0;
        let vals = if b.last().1 { wit } else { ins };
        let raw = vals[b.last().2 as int]->0;
        assert(tv == t0 * raw);
        assert(term_value(ins, wit, scaled(b, c).last()) == Some(fmul(t0, c) * raw));
        let big = t0 * raw * c;
        assert(fmul(t0, c) * raw % m == big % m) by {
            vstd::arithmetic::div_mod::lemma_mul_mod_noop_left(t0 * c, raw, m);
            assert(t0 * c * raw == big) by (nonlinear_arith)
                requires
                    big == t0 * raw * c,
            ;
        }
        assert((fmul(y1, c) + fmul(t0, c) * raw) % m == (y1 * c + big) % m) by {
            vstd::arithmetic::div_mod::lemma_add_mod_noop_right(fmul(t0, c) * raw, y1 * c, m);
            vstd::arithmetic::div_mod::lemma_add_mod_noop(y1 * c, fmul(t0, c) * raw, m);
            vstd::arithmetic::div_mod::lemma_add_mod_noop(y1 * c, big, m);
        }
        assert(fmul(fadd(y1, tv), c) == (y1 * c + big) % m) by {
            vstd::arithmetic::div_mod::lemma_mul_mod_noop_left(y1 + tv, c, m);
            assert((y1 + tv) * c == y1 * c + big) by (nonlinear_arith)
                requires
                    tv == t0 * raw,
                    big == t0 * raw * c,
            ;
        }
        assert(scaled(b, c).len() > 0);
        assert(lc_value(ins, wit, b) == Some(fadd(y1, tv)));
        assert(lc_value(ins, wit, scaled(b, c)) == Some(fadd(fmul(y1, c), fmul(t0, c) * raw)));
    }
}

} // verus!
