use vstd::prelude::*;
use crate::field::{Fe, fadd, fmul, modulus, opt_val, fe_mul};
use crate::system::{
    ConstraintSystem, ConstraintView, Error, Lc, cs_setup, cs_records, cs_inputs, cs_witnesses,
    cs_constraints, unit, check_from, lc_value, extends,
};

verus! {

/// The constraint `a * b = c` over witnesses `w` (a), `w+1` (b) and input `i` (c).
pub open spec fn product_constraint(w: nat, i: nat) -> ConstraintView {
    (seq![unit(true, w)], seq![unit(true, w + 1)], seq![unit(false, i)])
}

/// The value a witness receives: none in setup mode.
pub open spec fn held(setup: bool, v: Option<Fe>) -> Option<int> {
    if setup { None } else { opt_val(v) }
}

/// The witnesses the product flattening appends: `a`, `b`, then
/// `num_variables - 3` inert copies of `a`.
pub open spec fn product_witnesses(setup: bool, a: Option<Fe>, b: Option<Fe>, num_variables: nat) -> Seq<Option<int>> {
    seq![held(setup, a), held(setup, b)] + Seq::new((num_variables - 3) as nat, |_j: int| held(setup, a))
}

/// The public input the product flattening appends: `c = a * b`.
pub open spec fn product_inputs(setup: bool, a: Option<Fe>, b: Option<Fe>) -> Seq<Option<int>> {
    if setup {
        seq![None]
    } else {
        match (a, b) {
            (Some(x), Some(y)) => seq![Some(fmul(x.val(), y.val()))],
            _ => seq![None],
        }
    }
}

/// `num_constraints` copies of `a * b = c`.
pub open spec fn product_constraints(w: nat, i: nat, num_constraints: nat) -> Seq<ConstraintView> {
    Seq::new(num_constraints, |_j: int| product_constraint(w, i))
}

/// The relation `a * b = c` with secret factors, padded to a chosen
/// number of variables and constraints.
#[derive(Clone, Copy, Debug)]
pub struct MultiplyDemoCircuit {
    pub a: Option<Fe>,
    pub b: Option<Fe>,
    pub num_constraints: usize,
    pub num_variables: usize,
}

impl MultiplyDemoCircuit {
    /// Flattens the relation into `cs`: witnesses `a, b`, public input `c`,
    /// the inert padding witnesses, then `num_constraints` copies of `a * b = c`.
    pub fn generate_constraints(self, cs: &mut ConstraintSystem) -> (r: Result<(), Error>)
        requires
            self.a matches Some(v) ==> v.wf(),
            self.b matches Some(v) ==> v.wf(),
            cs_witnesses(*old(cs)).len() + 2 < usize::MAX,
            cs_inputs(*old(cs)).len() + 1 < usize::MAX,
            self.num_variables >= 3 && self.num_constraints >= 1 ==> cs_witnesses(*old(cs)).len() + self.num_variables < usize::MAX,
        ensures
            !cs_setup(*old(cs)) && (self.a is None || self.b is None) ==> r == Err::<(), Error>(Error::AssignmentMissing),
            !(!cs_setup(*old(cs)) && (self.a is None || self.b is None)) && (self.num_variables < 3 || self.num_constraints < 1)
                ==> r == Err::<(), Error>(Error::AllocationError),
            r is Ok <==> (!(!cs_setup(*old(cs)) && (self.a is None || self.b is None)) && self.num_variables >= 3 && self.num_constraints >= 1),
            r is Err ==> extends(cs_witnesses(*old(cs)), cs_witnesses(*final(cs))) && extends(cs_inputs(*old(cs)), cs_inputs(*final(cs)))
                && cs_constraints(*final(cs)) == cs_constraints(*old(cs)),
            cs_setup(*final(cs)) == cs_setup(*old(cs)),
            cs_records(*final(cs)) == cs_records(*old(cs)),
            r is Ok ==> cs_witnesses(*final(cs)) == cs_witnesses(*old(cs)) + product_witnesses(
                cs_setup(*old(cs)), self.a, self.b, self.num_variables as nat),
            r is Ok ==> cs_inputs(*final(cs)) == cs_inputs(*old(cs)) + product_inputs(cs_setup(*old(cs)), self.a, self.b),
            r is Ok ==> cs_constraints(*final(cs)) == if cs_records(*old(cs)) {
                cs_constraints(*old(cs)) + product_constraints(cs_witnesses(*old(cs)).len(),
                    cs_inputs(*old(cs)).len(), self.num_constraints as nat)
            } else {
                cs_constraints(*old(cs))
            },
    {
        let ghost c0 = *cs;
        let ghost setup = cs_setup(c0);
        let ghost w0 = cs_witnesses(c0);
        let ghost pc = product_constraint(w0.len(), cs_inputs(c0).len());
        let proving = !cs.is_setup();
        if proving && self.a.is_none() {
            assert(cs_witnesses(c0) =~= cs_witnesses(*cs).subrange(0, cs_witnesses(c0).len() as int));
            assert(cs_inputs(c0) =~= cs_inputs(*cs).subrange(0, cs_inputs(c0).len() as int));
            return Err(Error::AssignmentMissing);
        }
        let a = match cs.alloc_witness(self.a) {
            Ok(v) => v,
            Err(e) => return Err(e),
        };
        if proving && self.b.is_none() {
            assert(cs_witnesses(c0) =~= cs_witnesses(*cs).subrange(0, cs_witnesses(c0).len() as int));
            assert(cs_inputs(c0) =~= cs_inputs(*cs).subrange(0, cs_inputs(c0).len() as int));
            return Err(Error::AssignmentMissing);
        }
        let b = match cs.alloc_witness(self.b) {
            Ok(v) => v,
            Err(e) => return Err(e),
        };
        let c_val = match (self.a, self.b) {
            (Some(x), Some(y)) => Some(fe_mul(&x, &y)),
            _ => None,
        };
        let c = match cs.alloc_input(c_val) {
            Ok(v) => v,
            Err(e) => return Err(e),
        };
        if self.num_variables < 3 || self.num_constraints < 1 {
            assert(cs_witnesses(c0) =~= cs_witnesses(*cs).subrange(0, cs_witnesses(c0).len() as int));
            assert(cs_inputs(c0) =~= cs_inputs(*cs).subrange(0, cs_inputs(c0).len() as int));
            return Err(Error::AllocationError);
        }
        let ghost c1 = *cs;
        let mut k: usize = 3;
        while k < self.num_variables
            invariant
                3 <= k <= self.num_variables,
                !setup ==> self.a is Some,
                self.a matches Some(v) ==> v.wf(),
                cs_witnesses(c0).len() + self.num_variables < usize::MAX,
                w0 == cs_witnesses(c0),
                cs_setup(*cs) == setup,
                cs_records(*cs) == cs_records(c0),
                cs_inputs(*cs) == cs_inputs(c1),
                cs_constraints(*cs) == cs_constraints(c0),
                cs_witnesses(*cs) == w0 + seq![held(setup, self.a), held(setup, self.b)] + Seq::new(
                    (k - 3) as nat, |_j: int| held(setup, self.a)),
            decreases self.num_variables - k,
        {
            match cs.alloc_witness(self.a) {
                Ok(_) => {},
                Err(e) => return Err(e),
            }
            k = k + 1;
            assert(cs_witnesses(*cs) =~= w0 + seq![held(setup, self.a), held(setup, self.b)] + Seq::new(
                (k - 3) as nat, |_j: int| held(setup, self.a)));
        }
        let _ = cs.enforce(Lc::of(a), Lc::of(b), Lc::of(c));
        let mut j: usize = 1;
        while j < self.num_constraints
            invariant
                1 <= j <= self.num_constraints,
                cs_setup(*cs) == setup,
                cs_records(*cs) == cs_records(c0),
                cs_inputs(*cs) == cs_inputs(c1),
                cs_witnesses(*cs) == cs_witnesses(c0) + product_witnesses(setup, self.a, self.b, self.num_variables as nat),
                pc == product_constraint(w0.len(), cs_inputs(c0).len()),
                w0 == cs_witnesses(c0),
                w0.len() + 3 < usize::MAX,
                cs_inputs(c0).len() + 1 < usize::MAX,
                a == crate::system::Var::Witness(w0.len() as usize),
                b == crate::system::Var::Witness((w0.len() + 1) as usize),
                c == crate::system::Var::Input(cs_inputs(c0).len() as usize),
                cs_constraints(*cs) == if cs_records(c0) {
                    cs_constraints(c0) + Seq::new(j as nat, |_i: int| pc)
                } else {
                    cs_constraints(c0)
                },
            decreases self.num_constraints - j,
        {
            let la = Lc::of(a);
            let lb = Lc::of(b);
            let lc = Lc::of(c);
            assert((la@, lb@, lc@) == pc);
            let _ = cs.enforce(la, lb, lc);
            j = j + 1;
            proof {
                if cs_records(c0) {
                    assert(cs_constraints(*cs) =~= cs_constraints(c0) + Seq::new(j as nat, |_i: int| pc));
                }
            }
        }
        proof {
            assert(cs_inputs(*cs) =~= cs_inputs(c0) + product_inputs(setup, self.a, self.b));
        }
        Ok(())
    }
}

/// With `num_variables >= 3` and `num_constraints >= 1`, the product
/// flattening allocates exactly `num_variables` variables (the witnesses
/// and the one public input) and enforces exactly `num_constraints`
/// constraints, every one of them `a * b = c`.
pub proof fn lemma_padding_sizes(setup: bool, a: Option<Fe>, b: Option<Fe>, num_variables: nat, num_constraints: nat, w: nat, i: nat)
    requires
        num_variables >= 3,
        num_constraints >= 1,
    ensures
        product_witnesses(setup, a, b, num_variables).len() + product_inputs(setup, a, b).len() == num_variables,
        product_constraints(w, i, num_constraints).len() == num_constraints,
        forall|k: int| 0 <= k < num_constraints ==> #[trigger] product_constraints(w, i, num_constraints)[k]
            == product_constraint(w, i),
{
}

proof fn lemma_copies_checked(
    ins: Seq<Option<int>>,
    wit: Seq<Option<int>>,
    pc: ConstraintView,
    n: nat,
    i: int,
    a: int,
    b: int,
    c: int,
)
    requires
        0 <= i <= n,
        lc_value(ins, wit, pc.0) == Some(a),
        lc_value(ins, wit, pc.1) == Some(b),
        lc_value(ins, wit, pc.2) == Some(c),
    ensures
        check_from(ins, wit, Seq::new(n, |_j: int| pc), i) == if i < n {
            Some(fmul(a, b) == c)
        } else {
            Some(true)
        },
    decreases n - i,
{
    if i < n {
        lemma_copies_checked(ins, wit, pc, n, i + 1, a, b, c);
    }
}

/// Exactly what the product constraints demand of an assignment in which
/// the input one holds 1, the public output holds `c` and the first two
/// witnesses hold `a` and `b`, whatever the padding holds: `c = a * b`. So
/// a verifier checking the public output `c` accepts exactly the true
/// product, however many copies of the constraint pad the circuit.
pub proof fn lemma_product_constraints_meaning(a: int, b: int, c: int, padding: Seq<Option<int>>, num_constraints: nat)
    requires
        0 <= a < modulus(),
        0 <= b < modulus(),
        0 <= c < modulus(),
        num_constraints >= 1,
    ensures
        check_from(seq![Some(1int), Some(c)], seq![Some(a), Some(b)] + padding, product_constraints(0, 1, num_constraints), 0)
            == Some(c == fmul(a, b)),
{
    let ins = seq![Some(1int), Some(c)];
    let wit = seq![Some(a), Some(b)] + padding;
    let m = modulus();
    crate::field::lemma_modulus_large();
    reveal_with_fuel(lc_value, 2);
    vstd::arithmetic::div_mod::lemma_small_mod(a as nat, m as nat);
    vstd::arithmetic::div_mod::lemma_small_mod(b as nat, m as nat);
    vstd::arithmetic::div_mod::lemma_small_mod(c as nat, m as nat);
    assert(seq![unit(true, 0)].drop_last() =~= Seq::<(int, bool, nat)>::empty());
    assert(seq![unit(true, 1)].drop_last() =~= Seq::<(int, bool, nat)>::empty());
    assert(seq![unit(false, 1)].drop_last() =~= Seq::<(int, bool, nat)>::empty());
    assert(wit[0] == Some(a) && wit[1] == Some(b));
    assert(fadd(0, 1 * a) == a % m);
    assert(fadd(0, 1 * b) == b % m);
    assert(fadd(0, 1 * c) == c % m);
    lemma_copies_checked(ins, wit, product_constraint(0, 1), num_constraints, 0, a, b, c);
    assert(product_constraints(0, 1, num_constraints) == Seq::new(num_constraints, |_j: int| product_constraint(0, 1)));
}

/// Honest flattening is satisfied: on a fresh proving system, the values
/// the product flattening of `a` and `b` assigns satisfy every constraint
/// it enforces, whatever the padding.
pub proof fn lemma_product_flattening_complete(a: Fe, b: Fe, num_variables: nat, num_constraints: nat)
    requires
        a.wf(),
        b.wf(),
        num_variables >= 3,
        num_constraints >= 1,
    ensures
        check_from(seq![Some(1int)] + product_inputs(false, Some(a), Some(b)),
            Seq::<Option<int>>::empty() + product_witnesses(false, Some(a), Some(b), num_variables),
            Seq::<ConstraintView>::empty() + product_constraints(0, 1, num_constraints), 0) == Some(true),
{
    let m = modulus();
    crate::field::lemma_modulus_large();
    vstd::arithmetic::div_mod::lemma_mod_bound(a.val() * b.val(), m);
    let c = fmul(a.val(), b.val());
    let padding = Seq::new((num_variables - 3) as nat, |_j: int| held(false, Some(a)));
    lemma_product_constraints_meaning(a.val(), b.val(), c, padding, num_constraints);
    assert(seq![Some(1int)] + product_inputs(false, Some(a), Some(b)) =~= seq![Some(1int), Some(c)]);
    assert(Seq::<Option<int>>::empty() + product_witnesses(false, Some(a), Some(b), num_variables)
        =~= seq![Some(a.val()), Some(b.val())] + padding);
    assert(Seq::<ConstraintView>::empty() + product_constraints(0, 1, num_constraints) =~= product_constraints(0, 1, num_constraints));
}

} // verus!
