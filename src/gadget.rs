use vstd::prelude::*;
use ark_bls12_381::Fr;
use ark_ff::BigInt;
use ark_r1cs_std::fields::fp::AllocatedFp;
use ark_relations::r1cs::{ConstraintSystemRef, LinearCombination, Variable};
use crate::field::{Fe, fadd, fmul, modulus, opt_val, fe_add, fe_mul};
use crate::cubic::{cubic_value, cubic_constraints, cubic_witnesses, lemma_cubic_constraints_meaning};
use crate::native::{CubicRootTrait, ParamType, SolutionDemo};
use crate::system::{
    ConstraintSystem, ConstraintView, Error, Lc, TermView, Var, check_from, cs_setup, cs_records, cs_inputs,
    cs_witnesses, cs_constraints, lc_value, term_value, scaled, unit, extends, one_held, satisfaction,
};

verus! {

/// How a native value enters a circuit.
#[derive(Clone, Copy, Debug, PartialEq, Eq, Structural)]
pub enum AllocationMode {
    Constant,
    Input,
    Witness,
}

/// The bit `1 - b` over the witness `b`: arkworks' negated boolean.
pub open spec fn not_bit(n: nat) -> Seq<TermView> {
    seq![(1int, false, 0nat), (modulus() - 1, true, n)]
}

/// The combination `a - b`, as arkworks forms it from two registered
/// combinations.
pub open spec fn difference(a: Seq<TermView>, b: Seq<TermView>) -> Seq<TermView> {
    a + scaled(b, modulus() - 1)
}

/// The three constraints of arkworks' equality test of `a` and `b`, with
/// the "not equal" bit at witness `n` and the multiplier at `n + 1`.
pub open spec fn eq_constraints(a: Seq<TermView>, b: Seq<TermView>, n: nat) -> Seq<ConstraintView> {
    seq![
        (not_bit(n), seq![unit(true, n)], Seq::<TermView>::empty()),
        (difference(a, b), seq![unit(true, n + 1)], seq![unit(true, n)]),
        (difference(a, b), not_bit(n), Seq::<TermView>::empty()),
    ]
}

/// What the multiplier of an equality test holds for the difference `d`.
pub open spec fn multiplier_for(d: int, m: int) -> bool {
    0 <= m < modulus() && if d == 0 { m == 1 } else { fmul(d, m) == 1 }
}

/// `x^3 + x + 5` as a combination, the cube being witness `n + 1`.
pub open spec fn cubic_eval_lc(x: Seq<TermView>, n: nat) -> Seq<TermView> {
    seq![unit(true, n + 1)] + x + seq![(5int, false, 0nat)]
}

/// The constraints the circuit evaluator adds for `x` and `y` when the
/// system's next witness is `n`: `x * x = sq`, `sq * x = cube`, then the
/// equality test of `cube + x + 5` with `y`.
pub open spec fn gadget_constraints(x: Seq<TermView>, y: Seq<TermView>, n: nat) -> Seq<ConstraintView> {
    seq![(x, x, seq![unit(true, n)]), (seq![unit(true, n)], x, seq![unit(true, n + 1)])]
        + eq_constraints(cubic_eval_lc(x, n), y, n + 2)
}

/// A field element inside a circuit: a linear combination of the system's
/// variables, with the value it carries (present in proving mode and for
/// constants).
pub struct ParamTypeVar {
    lc: Lc,
    value: Option<Fe>,
}

/// A boolean inside a circuit: a linear combination, with the value it
/// carries.
pub struct CircuitBool {
    lc: Lc,
    value: Option<bool>,
}

impl ParamTypeVar {
    pub closed spec fn combination(&self) -> Seq<TermView> {
        self.lc@
    }

    pub closed spec fn value(&self) -> Option<Fe> {
        self.value
    }

    /// Canonical coefficients and value.
    pub closed spec fn well_formed(&self) -> bool {
        self.lc.wf() && (self.value matches Some(v) ==> v.wf())
    }

    /// Fits `cs`: well formed, and in proving mode its combination
    /// evaluates to its value.
    pub closed spec fn carried_in(&self, cs: ConstraintSystem) -> bool {
        &&& self.well_formed()
        &&& !cs_setup(cs) ==> self.value is Some && lc_value(cs_inputs(cs), cs_witnesses(cs), self.lc@)
            == Some(self.value->0.val())
    }

    /// The value carried.
    pub fn get_value(&self) -> (r: Option<Fe>)
        ensures
            r == self.value(),
    {
        self.value
    }

    /// Lifts a native value into `cs` as a constant (the combination
    /// `v * one`), a public input or a witness.
    pub fn new_variable(cs: &mut ConstraintSystem, v: Option<ParamType>, mode: AllocationMode) -> (r: Result<ParamTypeVar, Error>)
        requires
            v matches Some(p) ==> p.inner.wf(),
            cs_witnesses(*old(cs)).len() < usize::MAX,
            cs_inputs(*old(cs)).len() < usize::MAX,
            one_held(*old(cs)),
        ensures
            one_held(*final(cs)),
            r is Err <==> (v is None && (mode == AllocationMode::Constant || !cs_setup(*old(cs)))),
            r is Err ==> r->Err_0 == Error::AssignmentMissing,
            cs_setup(*final(cs)) == cs_setup(*old(cs)),
            cs_records(*final(cs)) == cs_records(*old(cs)),
            cs_constraints(*final(cs)) == cs_constraints(*old(cs)),
            r is Err || mode == AllocationMode::Constant ==> cs_witnesses(*final(cs)) == cs_witnesses(*old(cs))
                && cs_inputs(*final(cs)) == cs_inputs(*old(cs)),
            r matches Ok(x) ==> x.carried_in(*final(cs)),
            r matches Ok(x) ==> x.value() == if mode == AllocationMode::Constant || !cs_setup(*old(cs)) {
                x_of(v)
            } else {
                None
            },
            r is Ok && mode == AllocationMode::Constant ==> r->Ok_0.combination() == seq![(x_of(v)->0.val(), false, 0nat)],
            r is Ok && mode == AllocationMode::Witness ==> r->Ok_0.combination() == seq![unit(true, cs_witnesses(*old(cs)).len())]
                && cs_witnesses(*final(cs)) == cs_witnesses(*old(cs)).push(if cs_setup(*old(cs)) { None } else { opt_val(x_of(v)) })
                && cs_inputs(*final(cs)) == cs_inputs(*old(cs)),
            r is Ok && mode == AllocationMode::Input ==> r->Ok_0.combination() == seq![unit(false, cs_inputs(*old(cs)).len())]
                && cs_inputs(*final(cs)) == cs_inputs(*old(cs)).push(if cs_setup(*old(cs)) { None } else { opt_val(x_of(v)) })
                && cs_witnesses(*final(cs)) == cs_witnesses(*old(cs)),
    {
        let e = match v {
            Some(p) => Some(p.inner),
            None => None,
        };
        assert(e == x_of(v));
        let setup = cs.is_setup();
        match mode {
            AllocationMode::Constant => match e {
                Some(c) => {
                    let lc = Lc { terms: vec![crate::system::Term { coeff: c, var: ConstraintSystem::one() }] };
                    assert(lc@ =~= seq![(c.val(), false, 0nat)]);
                    proof {
                        if !setup {
                            lemma_single_term(cs_inputs(*cs), cs_witnesses(*cs), c.val(), false, 0);
                            lemma_small(c.val());
                        }
                    }
                    Ok(ParamTypeVar { lc, value: Some(c) })
                },
                None => Err(Error::AssignmentMissing),
            },
            _ => {
                if !setup && e.is_none() {
                    return Err(Error::AssignmentMissing);
                }
                let var = if mode == AllocationMode::Witness {
                    match cs.alloc_witness(e) {
                        Ok(x) => x,
                        Err(err) => return Err(err),
                    }
                } else {
                    match cs.alloc_input(e) {
                        Ok(x) => x,
                        Err(err) => return Err(err),
                    }
                };
                let lc = Lc::of(var);
                proof {
                    if !setup {
                        let i = match var { Var::Input(i) => i, Var::Witness(i) => i };
                        lemma_single_term(cs_inputs(*cs), cs_witnesses(*cs), 1, var is Witness, i as nat);
                        lemma_small(e->0.val());
                    }
                }
                Ok(ParamTypeVar { lc, value: if setup { None } else { e } })
            },
        }
    }
}

/// The element inside an optional parameter.
pub open spec fn x_of(v: Option<ParamType>) -> Option<Fe> {
    match v {
        Some(p) => Some(p.inner),
        None => None,
    }
}

impl CircuitBool {
    pub closed spec fn combination(&self) -> Seq<TermView> {
        self.lc@
    }

    pub closed spec fn value(&self) -> Option<bool> {
        self.value
    }

    /// The value carried.
    pub fn get_value(&self) -> (r: Option<bool>)
        ensures
            r == self.value(),
    {
        self.value
    }
}

/// Relies on ark-r1cs-std's `AllocatedFp::mul`, on two `AllocatedFp`s each
/// made with `AllocatedFp::new` over a combination registered by
/// `ConstraintSystemRef::new_lc`: one new witness holding the product (no
/// value in setup mode) and the constraint `a * b = product`. With the
/// values present in proving mode its `unwrap`s do not fire.
#[verifier::external_body]
fn fp_mul(cs: &mut ConstraintSystem, a: &Lc, av: Option<Fe>, b: &Lc, bv: Option<Fe>)
    requires
        a.wf(),
        b.wf(),
        av matches Some(e) ==> e.wf(),
        bv matches Some(e) ==> e.wf(),
        cs_setup(*old(cs)) || (av is Some && bv is Some),
        cs_witnesses(*old(cs)).len() < usize::MAX,
    ensures
        cs_setup(*final(cs)) == cs_setup(*old(cs)),
        cs_records(*final(cs)) == cs_records(*old(cs)),
        cs_inputs(*final(cs)) == cs_inputs(*old(cs)),
        cs_witnesses(*final(cs)) == cs_witnesses(*old(cs)).push(
            if cs_setup(*old(cs)) { None } else { Some(fmul(av->0.val(), bv->0.val())) }),
        cs_constraints(*final(cs)) == if cs_records(*old(cs)) {
            cs_constraints(*old(cs)).push((a@, b@, seq![unit(true, cs_witnesses(*old(cs)).len())]))
        } else {
            cs_constraints(*old(cs))
        },
{
    let c = ConstraintSystemRef::CS(cs.inner.clone());
    let v = |l: &Lc, x: Option<Fe>| AllocatedFp::new(x.map(|e| Fr::new(BigInt::new(e.words()))), c.new_lc(LinearCombination(l.terms.iter().map(|t| (Fr::new(BigInt::new(t.coeff.words())), match t.var {
        Var::Input(i) => Variable::Instance(i),
        Var::Witness(i) => Variable::Witness(i),
    })).collect())).unwrap(), c.clone());
    let _ = v(a, av).mul(&v(b, bv));
}

/// Relies on ark-r1cs-std's `AllocatedFp::is_eq` (`is_neq`, then
/// `Boolean::not`), on two `AllocatedFp`s each made with
/// `AllocatedFp::new` over a combination registered by
/// `ConstraintSystemRef::new_lc`: a "not equal" bit witness and a
/// multiplier witness, the bit's booleanity constraint and the two
/// constraints of the test, in that order; the result is the negated bit.
/// With the values present in proving mode nothing fails.
#[verifier::external_body]
fn fp_is_eq(cs: &mut ConstraintSystem, a: &Lc, av: Option<Fe>, b: &Lc, bv: Option<Fe>)
    requires
        a.wf(),
        b.wf(),
        av matches Some(e) ==> e.wf(),
        bv matches Some(e) ==> e.wf(),
        cs_setup(*old(cs)) || (av is Some && bv is Some),
        cs_witnesses(*old(cs)).len() + 2 < usize::MAX,
    ensures
        cs_setup(*final(cs)) == cs_setup(*old(cs)),
        cs_records(*final(cs)) == cs_records(*old(cs)),
        cs_inputs(*final(cs)) == cs_inputs(*old(cs)),
        cs_witnesses(*final(cs)).len() == cs_witnesses(*old(cs)).len() + 2,
        cs_witnesses(*final(cs)).subrange(0, cs_witnesses(*old(cs)).len() as int) == cs_witnesses(*old(cs)),
        cs_witnesses(*final(cs))[cs_witnesses(*old(cs)).len() as int] == if cs_setup(*old(cs)) {
            None
        } else {
            Some(if av->0.val() == bv->0.val() { 0int } else { 1int })
        },
        cs_setup(*old(cs)) ==> cs_witnesses(*final(cs))[cs_witnesses(*old(cs)).len() + 1int] is None,
        !cs_setup(*old(cs)) ==> (cs_witnesses(*final(cs))[cs_witnesses(*old(cs)).len() + 1int] is Some && multiplier_for(
            fadd(av->0.val(), modulus() - bv->0.val()), cs_witnesses(*final(cs))[cs_witnesses(*old(cs)).len() + 1int]->0)),
        cs_constraints(*final(cs)) == if cs_records(*old(cs)) {
            cs_constraints(*old(cs)) + eq_constraints(a@, b@, cs_witnesses(*old(cs)).len())
        } else {
            cs_constraints(*old(cs))
        },
{
    let c = ConstraintSystemRef::CS(cs.inner.clone());
    let v = |l: &Lc, x: Option<Fe>| AllocatedFp::new(x.map(|e| Fr::new(BigInt::new(e.words()))), c.new_lc(LinearCombination(l.terms.iter().map(|t| (Fr::new(BigInt::new(t.coeff.words())), match t.var {
        Var::Input(i) => Variable::Instance(i),
        Var::Witness(i) => Variable::Witness(i),
    })).collect())).unwrap(), c.clone());
    let _ = v(a, av).is_eq(&v(b, bv));
}

/// A relation checked inside a circuit: the secret as a circuit variable
/// against a public one, giving a circuit boolean.
pub trait CubicRootGadgetTrait {
    type ParamTypeVar;

    /// Both sides have canonical coefficients and values.
    spec fn well_formed(&self, y: &Self::ParamTypeVar) -> bool;

    /// The relation between the values the two sides carry.
    spec fn holds(&self, y: &Self::ParamTypeVar) -> bool;

    fn verify(&self, cs: &mut ConstraintSystem, y: &Self::ParamTypeVar) -> (r: Result<CircuitBool, Error>)
        requires
            self.well_formed(y),
            cs_witnesses(*old(cs)).len() + 4 < usize::MAX,
        ensures
            cs_setup(*final(cs)) == cs_setup(*old(cs)),
            r is Err ==> r->Err_0 == Error::AssignmentMissing,
            r is Ok && !cs_setup(*old(cs)) ==> r->Ok_0.value() == Some(self.holds(y)),
    ;
}

/// The circuit evaluator of `x^3 + x + 5 = y`.
pub struct SolutionDemoGadget {
    pub x: ParamTypeVar,
}

impl CubicRootGadgetTrait for SolutionDemoGadget {
    type ParamTypeVar = ParamTypeVar;

    open spec fn well_formed(&self, y: &ParamTypeVar) -> bool {
        self.x.well_formed() && y.well_formed()
    }

    open spec fn holds(&self, y: &ParamTypeVar) -> bool {
        cubic_value(self.x.value()->0.val()) == y.value()->0.val()
    }

    /// Computes `x * x * x + x + 5` over circuit variables, in the order the
    /// native evaluator does, and tests it against `y`. In proving mode both
    /// values are needed; in setup mode the constraints are built without
    /// values.
    fn verify(&self, cs: &mut ConstraintSystem, y: &ParamTypeVar) -> (r: Result<CircuitBool, Error>)
        ensures
            r is Err <==> (!cs_setup(*old(cs)) && (self.x.value() is None || y.value() is None)),
            r is Err ==> *final(cs) == *old(cs),
            cs_records(*final(cs)) == cs_records(*old(cs)),
            r is Ok ==> cs_inputs(*final(cs)) == cs_inputs(*old(cs)),
            r is Ok ==> cs_witnesses(*final(cs)).len() == cs_witnesses(*old(cs)).len() + 4,
            r is Ok ==> cs_witnesses(*final(cs)).subrange(0, cs_witnesses(*old(cs)).len() as int) == cs_witnesses(*old(cs)),
            r is Ok ==> cs_witnesses(*final(cs)).subrange(cs_witnesses(*old(cs)).len() as int, cs_witnesses(*old(cs)).len() + 3int)
                == if cs_setup(*old(cs)) {
                    seq![None, None, None]
                } else {
                    let v = self.x.value()->0.val();
                    seq![Some(fmul(v, v)), Some(fmul(fmul(v, v), v)),
                        Some(if cubic_value(v) == y.value()->0.val() { 0int } else { 1int })]
                },
            r is Ok && !cs_setup(*old(cs)) ==> cs_witnesses(*final(cs))[cs_witnesses(*old(cs)).len() + 3int] is Some
                && multiplier_for(fadd(cubic_value(self.x.value()->0.val()), modulus() - y.value()->0.val()),
                    cs_witnesses(*final(cs))[cs_witnesses(*old(cs)).len() + 3int]->0),
            r is Ok ==> cs_constraints(*final(cs)) == if cs_records(*old(cs)) {
                cs_constraints(*old(cs)) + gadget_constraints(self.x.combination(), y.combination(), cs_witnesses(*old(cs)).len())
            } else {
                cs_constraints(*old(cs))
            },
            r is Ok ==> r->Ok_0.combination() == not_bit(cs_witnesses(*old(cs)).len() + 2),
            r is Ok && cs_setup(*old(cs)) ==> r->Ok_0.value() is None,
            r is Ok && !cs_setup(*old(cs)) && cs_records(*old(cs)) && one_held(*old(cs)) && self.x.carried_in(*old(cs))
                && y.carried_in(*old(cs)) && satisfaction(*old(cs)) == Some(true) ==> satisfaction(*final(cs)) == Some(true),
    {
        let ghost c0 = *cs;
        let ghost w0 = cs_witnesses(c0);
        let setup = cs.is_setup();
        let x = &self.x;
        if !setup && (x.value.is_none() || y.value.is_none()) {
            return Err(Error::AssignmentMissing);
        }
        let n = cs.num_witnesses();
        fp_mul(cs, &x.lc, x.value, &x.lc, x.value);
        let sq = Lc::of(Var::Witness(n));
        let sq_val = if setup { None } else { Some(fe_mul(&x.value.unwrap(), &x.value.unwrap())) };
        let ghost c1 = *cs;
        let n1 = cs.num_witnesses();
        fp_mul(cs, &sq, sq_val, &x.lc, x.value);
        let ghost c2 = *cs;
        let five = Fe::from_u64(5);
        let eval = Lc::of(Var::Witness(n1)).concat(&x.lc).plus(five, ConstraintSystem::one());
        let eval_val = if setup {
            None
        } else {
            Some(fe_add(&fe_add(&fe_mul(&sq_val.unwrap(), &x.value.unwrap()), &x.value.unwrap()), &five))
        };
        let n2 = cs.num_witnesses();
        fp_is_eq(cs, &eval, eval_val, &y.lc, y.value);
        let bit = Lc::of(ConstraintSystem::one()).plus(Fe::minus_one(), Var::Witness(n2));
        let value = if setup { None } else { Some(eval_val.unwrap().equals(&y.value.unwrap())) };
        proof {
            let w = w0.len();
            assert(eval@ =~= cubic_eval_lc(x.lc@, w));
            assert(bit@ =~= not_bit(w + 2));
            let fw = cs_witnesses(*cs);
            assert(fw.subrange(0, w + 2int) == cs_witnesses(c2));
            assert(fw[w as int] == fw.subrange(0, w + 2int)[w as int]);
            assert(fw[w + 1int] == fw.subrange(0, w + 2int)[w + 1int]);
            assert(cs_witnesses(c2)[w as int] == cs_witnesses(c1)[w as int]);
            assert(fw.subrange(0, w as int) =~= w0);
            if cs_records(c0) {
                assert(cs_constraints(*cs) =~= cs_constraints(c0) + gadget_constraints(x.lc@, y.lc@, w));
            }
            if !setup && cs_records(c0) && one_held(c0) && x.carried_in(c0) && y.carried_in(c0) && satisfaction(c0) == Some(true) {
                let ins0 = cs_inputs(c0);
                let ins1 = cs_inputs(*cs);
                let wit1 = cs_witnesses(*cs);
                let xv = x.value->0.val();
                let yv = y.value->0.val();
                assert(ins0.subrange(0, ins0.len() as int) =~= ins0);
                crate::system::lemma_lc_value_extends(ins0, w0, ins1, wit1, x.lc@);
                crate::system::lemma_lc_value_extends(ins0, w0, ins1, wit1, y.lc@);
                crate::system::lemma_check_prefix(ins0, w0, ins1, wit1, cs_constraints(c0),
                    gadget_constraints(x.lc@, y.lc@, w), 0);
                let sub = wit1.subrange(w as int, w + 3int);
                assert(wit1[w as int] == sub[0]);
                assert(wit1[w + 1int] == sub[1]);
                assert(wit1[w + 2int] == sub[2]);
                let sv = fmul(xv, xv);
                let cv = fmul(sv, xv);
                crate::field::lemma_modulus_large();
                vstd::arithmetic::div_mod::lemma_mod_bound(xv * xv, modulus());
                vstd::arithmetic::div_mod::lemma_mod_bound(sv * xv, modulus());
                let nb: int = if cubic_value(xv) == yv { 0int } else { 1int };
                let mv = wit1[w + 3int]->0;
                lemma_gadget_constraints_meaning(ins1, wit1, x.lc@, y.lc@, w, xv, yv, sv, cv, nb, mv);
            }
            if !setup {
                assert(cs_witnesses(*cs).subrange(w as int, w + 3int) =~= seq![Some(fmul(x.value->0.val(), x.value->0.val())),
                    Some(fmul(fmul(x.value->0.val(), x.value->0.val()), x.value->0.val())),
                    Some(if cubic_value(x.value->0.val()) == y.value->0.val() { 0int } else { 1int })]);
            } else {
                assert(cs_witnesses(*cs).subrange(w as int, w + 3int) =~= seq![None, None, None]);
            }
        }
        Ok(CircuitBool { lc: bit, value })
    }
}

/// The native evaluator, the flattened circuit and the circuit evaluator
/// agree: for a secret `x` and a claimed output `y`, the native check holds
/// exactly when the cubic constraints are satisfied by the witnesses
/// `x, x^2, x^3` with `y` as the public input, and exactly when the circuit
/// evaluator's relation holds for variables carrying the same values; the
/// true output `x^3 + x + 5` always passes.
pub proof fn lemma_native_circuit_parity(x: Fe, y: Fe, g: SolutionDemoGadget, gy: ParamTypeVar)
    requires
        x.wf(),
        y.wf(),
        g.x.value() == Some(x),
        gy.value() == Some(y),
    ensures
        check_from(seq![Some(1int), Some(y.val())], cubic_witnesses(false, Some(x)), cubic_constraints(0, 1), 0)
            == Some((SolutionDemo { x: ParamType { inner: x } }).holds(&ParamType { inner: y })),
        g.holds(&gy) == (SolutionDemo { x: ParamType { inner: x } }).holds(&ParamType { inner: y }),
        y.val() == cubic_value(x.val()) ==> (SolutionDemo { x: ParamType { inner: x } }).holds(&ParamType { inner: y }),
{
    let v = x.val();
    let m = modulus();
    crate::field::lemma_modulus_large();
    vstd::arithmetic::div_mod::lemma_mod_bound(v * v, m);
    vstd::arithmetic::div_mod::lemma_mod_bound(fmul(v, v) * v, m);
    lemma_cubic_constraints_meaning(v, fmul(v, v), fmul(fmul(v, v), v), y.val());
    assert(cubic_witnesses(false, Some(x)) == seq![Some(v), Some(fmul(v, v)), Some(fmul(fmul(v, v), v))]);
}

/// `b * (p - 1)` is `-b` in the field.
proof fn lemma_negation(b: int)
    requires
        0 <= b < modulus(),
    ensures
        fmul(b, modulus() - 1) == if b == 0 { 0 } else { modulus() - b },
{
    let m = modulus();
    crate::field::lemma_modulus_large();
    assert(b * (m - 1) == m * b + (-b)) by (nonlinear_arith);
    vstd::arithmetic::div_mod::lemma_mod_multiples_vanish(b, -b, m);
    if b == 0 {
        vstd::arithmetic::div_mod::lemma_small_mod(0, m as nat);
    } else {
        assert(m * (-1) + (m - b) == -b);
        vstd::arithmetic::div_mod::lemma_mod_multiples_vanish(-1, m - b, m);
        vstd::arithmetic::div_mod::lemma_small_mod((m - b) as nat, m as nat);
    }
}

/// The value of a combination of one unit term over a witness.
proof fn lemma_unit_witness(ins: Seq<Option<int>>, wit: Seq<Option<int>>, k: nat, v: int)
    requires
        k < wit.len(),
        wit[k as int] == Some(v),
        0 <= v < modulus(),
    ensures
        lc_value(ins, wit, seq![unit(true, k)]) == Some(v),
{
    lemma_single_term(ins, wit, 1, true, k);
    lemma_small(v);
}

/// What the circuit evaluator's constraints demand of an assignment in
/// which the input one holds 1, `x` and `y` evaluate to `xv` and `yv`, and
/// the four new witnesses hold `s`, `c`, `nb` and `mv`. The returned bit
/// evaluates to `1 - nb`. Forcing it true (`nb == 0`), the constraints hold
/// exactly when `s = x^2`, `c = x^3` and `y = x^3 + x + 5`: no assignment
/// makes the bit true for a wrong output, and the right one passes. The
/// witnesses the evaluator assigns satisfy the constraints whatever `y` is.
pub proof fn lemma_gadget_constraints_meaning(
    ins: Seq<Option<int>>,
    wit: Seq<Option<int>>,
    x: Seq<TermView>,
    y: Seq<TermView>,
    n: nat,
    xv: int,
    yv: int,
    s: int,
    c: int,
    nb: int,
    mv: int,
)
    requires
        ins.len() > 0,
        ins[0] == Some(1int),
        lc_value(ins, wit, x) == Some(xv),
        lc_value(ins, wit, y) == Some(yv),
        wit.len() >= n + 4,
        wit[n as int] == Some(s),
        wit[n + 1int] == Some(c),
        wit[n + 2int] == Some(nb),
        wit[n + 3int] == Some(mv),
        0 <= s < modulus(),
        0 <= c < modulus(),
        0 <= nb < modulus(),
        0 <= mv < modulus(),
    ensures
        lc_value(ins, wit, not_bit(n + 2)) == Some(if nb == 0 { 1int } else { fadd(1, modulus() - nb) }),
        nb == 0 ==> (check_from(ins, wit, gadget_constraints(x, y, n), 0) == Some(true) <==> (s == fmul(xv, xv)
            && c == fmul(s, xv) && yv == cubic_value(xv))),
        (s == fmul(xv, xv) && c == fmul(s, xv) && nb == (if cubic_value(xv) == yv { 0int } else { 1int })
            && multiplier_for(fadd(cubic_value(xv), modulus() - yv), mv))
            ==> check_from(ins, wit, gadget_constraints(x, y, n), 0) == Some(true),
{
    let m = modulus();
    crate::field::lemma_modulus_large();
    crate::system::lemma_lc_value_range(ins, wit, x);
    crate::system::lemma_lc_value_range(ins, wit, y);
    let e = Seq::<TermView>::empty();
    assert(lc_value(ins, wit, e) == Some(0int));
    lemma_unit_witness(ins, wit, n, s);
    lemma_unit_witness(ins, wit, n + 1, c);
    lemma_unit_witness(ins, wit, n + 2, nb);
    lemma_unit_witness(ins, wit, n + 3, mv);
    // the bit
    let one = seq![(1int, false, 0nat)];
    let negb = seq![(m - 1, true, (n + 2) as nat)];
    lemma_single_term(ins, wit, 1, false, 0);
    lemma_small(1);
    lemma_single_term(ins, wit, m - 1, true, (n + 2) as nat);
    assert((m - 1) * nb == nb * (m - 1)) by (nonlinear_arith);
    lemma_negation(nb);
    assert(fadd(0, (m - 1) * nb) == fmul(nb, m - 1)) by {
        lemma_small(fmul(nb, m - 1));
        vstd::arithmetic::div_mod::lemma_mod_bound(nb * (m - 1), m);
    }
    crate::system::lemma_lc_concat(ins, wit, one, negb);
    assert(one + negb =~= not_bit(n + 2));
    let nbar = fadd(1, fmul(nb, m - 1));
    if nb != 0 {
        vstd::arithmetic::div_mod::lemma_small_mod(1, m as nat);
    } else {
        vstd::arithmetic::div_mod::lemma_small_mod(1, m as nat);
    }
    // the evaluation x^3 + x + 5
    let five = seq![(5int, false, 0nat)];
    lemma_single_term(ins, wit, 5, false, 0);
    lemma_small(5);
    assert(5int * 1 == 5);
    crate::system::lemma_lc_concat(ins, wit, seq![unit(true, n + 1)], x);
    crate::system::lemma_lc_concat(ins, wit, seq![unit(true, n + 1)] + x, five);
    let ev = fadd(fadd(c, xv), 5);
    assert(lc_value(ins, wit, cubic_eval_lc(x, n)) == Some(ev));
    // the difference
    crate::system::lemma_lc_scaled(ins, wit, y, m - 1);
    lemma_negation(yv);
    vstd::arithmetic::div_mod::lemma_mod_bound(fadd(c, xv) + 5, m);
    crate::system::lemma_lc_concat(ins, wit, cubic_eval_lc(x, n), scaled(y, m - 1));
    let d = fadd(ev, fmul(yv, m - 1));
    assert(lc_value(ins, wit, difference(cubic_eval_lc(x, n), y)) == Some(d));
    vstd::arithmetic::div_mod::lemma_small_mod(ev as nat, m as nat);
    if yv != 0 {
        vstd::arithmetic::div_mod::lemma_add_mod_noop_right(ev, m - yv, m);
        vstd::arithmetic::div_mod::lemma_small_mod((m - yv) as nat, m as nat);
    }
    assert(d == 0 <==> ev == yv) by {
        if yv != 0 {
            if ev < yv {
                vstd::arithmetic::div_mod::lemma_small_mod((ev + m - yv) as nat, m as nat);
            } else {
                assert(ev + (m - yv) == m + (ev - yv));
                vstd::arithmetic::div_mod::lemma_mod_multiples_vanish(1, ev - yv, m);
                vstd::arithmetic::div_mod::lemma_small_mod((ev - yv) as nat, m as nat);
            }
        }
    }
    assert(fmul(0, mv) == 0 && fmul(d, 0) == 0 && fmul(d, 1) == d && fmul(1, 0) == 0 && fmul(0, 1) == 0) by {
        assert(0 * mv == 0 && d * 0 == 0 && d * 1 == d && 1 * 0 == 0 && 0 * 1 == 0) by (nonlinear_arith);
        vstd::arithmetic::div_mod::lemma_small_mod(0, m as nat);
        vstd::arithmetic::div_mod::lemma_mod_bound(ev + fmul(yv, m - 1), m);
        vstd::arithmetic::div_mod::lemma_small_mod(d as nat, m as nat);
    }
    let cons = gadget_constraints(x, y, n);
    assert(cons[0] == (x, x, seq![unit(true, n)]));
    assert(cons[1] == (seq![unit(true, n)], x, seq![unit(true, n + 1)]));
    assert(cons[2] == (not_bit(n + 2), seq![unit(true, n + 2)], e));
    assert(cons[3] == (difference(cubic_eval_lc(x, n), y), seq![unit(true, n + 3)], seq![unit(true, n + 2)]));
    assert(cons[4] == (difference(cubic_eval_lc(x, n), y), not_bit(n + 2), e));
    assert(cons.len() == 5);
    reveal_with_fuel(check_from, 6);
    if s == fmul(xv, xv) && c == fmul(s, xv) {
        assert(ev == cubic_value(xv));
    }
    assert(fadd(ev, m - yv) == d) by {
        if yv == 0 {
            assert(ev + m == m * 1 + ev);
            vstd::arithmetic::div_mod::lemma_mod_multiples_vanish(1, ev, m);
        }
    }
    assert(fmul(1, m - 1) == m - 1) by {
        assert(1 * (m - 1) == m - 1);
        vstd::arithmetic::div_mod::lemma_small_mod((m - 1) as nat, m as nat);
    }
    if nb == 1 {
        assert(nbar == 0) by {
            vstd::arithmetic::div_mod::lemma_small_mod(0, m as nat);
            assert(1 + (m - 1) == m);
            vstd::arithmetic::div_mod::lemma_mod_self_0(m);
        }
    }
}

proof fn lemma_small(v: int)
    requires
        0 <= v < modulus(),
    ensures
        v % modulus() == v,
        fadd(0, 1 * v) == v,
        fadd(0, v * 1) == v,
{
    crate::field::lemma_modulus_large();
    vstd::arithmetic::div_mod::lemma_small_mod(v as nat, modulus() as nat);
}

proof fn lemma_single_term(ins: Seq<Option<int>>, wit: Seq<Option<int>>, c: int, w: bool, i: nat)
    ensures
        lc_value(ins, wit, seq![(c, w, i)]) == match term_value(ins, wit, (c, w, i)) {
            Some(t) => Some(fadd(0, t)),
            None => None,
        },
{
    reveal_with_fuel(lc_value, 2);
    assert(seq![(c, w, i)].drop_last() =~= Seq::<TermView>::empty());
}

} // verus!
