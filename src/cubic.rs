use vstd::prelude::*;
use crate::field::{Fe, fadd, fmul, modulus, fe_add, fe_mul, fe_square};
use crate::system::{
    ConstraintSystem, ConstraintView, Error, Lc, cs_setup, cs_records, cs_inputs, cs_witnesses,
    cs_constraints, unit, check_from, lc_value,
};

verus! {

/// `x^3 + x + 5` in the field, grouped as the flattening computes it.
pub open spec fn cubic_value(x: int) -> int {
    fadd(fadd(fmul(fmul(x, x), x), x), 5)
}

/// The three constraints of the cubic relation over witnesses `w, w+1, w+2`
/// (`x`, `x^2`, `x^3`) and the public input `i` (the output):
/// `x * x = t1`, `t1 * x = t2`, `(t2 + x + 5) * 1 = out`.
pub open spec fn cubic_constraints(w: nat, i: nat) -> Seq<ConstraintView> {
    seq![
        (seq![unit(true, w)], seq![unit(true, w)], seq![unit(true, w + 1)]),
        (seq![unit(true, w + 1)], seq![unit(true, w)], seq![unit(true, w + 2)]),
        (seq![unit(true, w + 2), unit(true, w), (5int, false, 0nat)], seq![unit(false, 0)], seq![unit(false, i)]),
    ]
}

/// The witnesses the cubic flattening appends: `x`, `x^2`, `x^3`, with
/// no values in setup mode.
pub open spec fn cubic_witnesses(setup: bool, x: Option<Fe>) -> Seq<Option<int>> {
    if setup {
        seq![None, None, None]
    } else {
        match x {
            Some(v) => seq![Some(v.val()), Some(fmul(v.val(), v.val())), Some(fmul(fmul(v.val(), v.val()), v.val()))],
            None => seq![None, None, None],
        }
    }
}

/// The public input the cubic flattening appends: the output.
pub open spec fn cubic_inputs(setup: bool, x: Option<Fe>) -> Seq<Option<int>> {
    if setup {
        seq![None]
    } else {
        match x {
            Some(v) => seq![Some(cubic_value(v.val()))],
            None => seq![None],
        }
    }
}

/// The relation `x^3 + x + 5 = out` with a secret `x`, absent in setup.
#[derive(Clone, Copy, Debug)]
pub struct CubicDemoCircuit {
    pub x: Option<Fe>,
}

impl CubicDemoCircuit {
    /// Flattens the relation into `cs`: witnesses `x, t1, t2`, then the
    /// public input `out`, with the three constraints linking them.
    pub fn generate_constraints(self, cs: &mut ConstraintSystem) -> (r: Result<(), Error>)
        requires
            self.x matches Some(v) ==> v.wf(),
            cs_witnesses(*old(cs)).len() + 3 < usize::MAX,
            cs_inputs(*old(cs)).len() + 1 < usize::MAX,
        ensures
            r is Err <==> (!cs_setup(*old(cs)) && self.x is None),
            r is Err ==> r == Err::<(), Error>(Error::AssignmentMissing),
            cs_setup(*final(cs)) == cs_setup(*old(cs)),
            cs_records(*final(cs)) == cs_records(*old(cs)),
            r is Err ==> cs_witnesses(*final(cs)) == cs_witnesses(*old(cs)) && cs_inputs(*final(cs)) == cs_inputs(*old(cs))
                && cs_constraints(*final(cs)) == cs_constraints(*old(cs)),
            r is Ok ==> cs_witnesses(*final(cs)) == cs_witnesses(*old(cs)) + cubic_witnesses(cs_setup(*old(cs)), self.x),
            r is Ok ==> cs_inputs(*final(cs)) == cs_inputs(*old(cs)) + cubic_inputs(cs_setup(*old(cs)), self.x),
            r is Ok ==> cs_constraints(*final(cs)) == if cs_records(*old(cs)) {
                cs_constraints(*old(cs)) + cubic_constraints(cs_witnesses(*old(cs)).len(), cs_inputs(*old(cs)).len())
            } else {
                cs_constraints(*old(cs))
            },
    {
        let ghost c0 = *cs;
        let ghost setup = cs_setup(c0);
        if !cs.is_setup() && self.x.is_none() {
            return Err(Error::AssignmentMissing);
        }
        let x = match cs.alloc_witness(self.x) {
            Ok(v) => v,
            Err(e) => return Err(e),
        };
        let t1_val = match self.x {
            Some(v) => Some(fe_square(&v)),
            None => None,
        };
        let t1 = match cs.alloc_witness(t1_val) {
            Ok(v) => v,
            Err(e) => return Err(e),
        };
        let _ = cs.enforce(Lc::of(x), Lc::of(x), Lc::of(t1));
        let t2_val = match (t1_val, self.x) {
            (Some(t), Some(v)) => Some(fe_mul(&t, &v)),
            _ => None,
        };
        let t2 = match cs.alloc_witness(t2_val) {
            Ok(v) => v,
            Err(e) => return Err(e),
        };
        let _ = cs.enforce(Lc::of(t1), Lc::of(x), Lc::of(t2));
        let five = Fe::from_u64(5);
        let out_val = match (t2_val, self.x) {
            (Some(t), Some(v)) => Some(fe_add(&fe_add(&t, &v), &five)),
            _ => None,
        };
        let out = match cs.alloc_input(out_val) {
            Ok(v) => v,
            Err(e) => return Err(e),
        };
        let sum = Lc::of(t2).plus(Fe::from_u64(1), x).plus(five, ConstraintSystem::one());
        let _ = cs.enforce(sum, Lc::of(ConstraintSystem::one()), Lc::of(out));
        proof {
            assert(cs_witnesses(*cs) =~= cs_witnesses(c0) + cubic_witnesses(setup, self.x));
            assert(cs_inputs(*cs) =~= cs_inputs(c0) + cubic_inputs(setup, self.x));
            if cs_records(c0) {
                let w = cs_witnesses(c0).len();
                let i = cs_inputs(c0).len();
                let cc = cubic_constraints(w, i);
                let k = cs_constraints(c0).len() as int;
                assert(cs_constraints(*cs).len() == k + 3);
                assert(cs_constraints(*cs)[k] == cc[0]);
                assert(cs_constraints(*cs)[k + 1] == cc[1]);
                assert(cs_constraints(*cs)[k + 2].0 =~= cc[2].0);
                assert(cs_constraints(*cs)[k + 2].1 =~= cc[2].1);
                assert(cs_constraints(*cs)[k + 2].2 =~= cc[2].2);
                assert(cs_constraints(*cs) =~= cs_constraints(c0) + cubic_constraints(
                    cs_witnesses(c0).len(), cs_inputs(c0).len()));
            }
        }
        Ok(())
    }
}

/// Exactly what the cubic constraints demand of an assignment in which the
/// input one holds 1, the public output holds `y` and the three witnesses
/// hold `w0, w1, w2`: `w1 = w0^2`, `w2 = w0^3` and `y = w0^3 + w0 + 5`.
/// So the circuit is satisfied for the witness `x` and output `y` exactly
/// when the native check of `x` against `y` holds, and no witness at all
/// satisfies it for an output other than `x^3 + x + 5` of its `x`.
pub proof fn lemma_cubic_constraints_meaning(w0: int, w1: int, w2: int, y: int)
    requires
        0 <= w0 < modulus(),
        0 <= w1 < modulus(),
        0 <= w2 < modulus(),
        0 <= y < modulus(),
    ensures
        check_from(seq![Some(1int), Some(y)], seq![Some(w0), Some(w1), Some(w2)], cubic_constraints(0, 1), 0)
            == Some(w1 == fmul(w0, w0) && w2 == fmul(w1, w0) && y == cubic_value(w0)),
{
    let ins = seq![Some(1int), Some(y)];
    let wit = seq![Some(w0), Some(w1), Some(w2)];
    let cons = cubic_constraints(0, 1);
    let m = modulus();
    crate::field::lemma_modulus_large();
    assert forall|v: int| 0 <= v < m implies #[trigger] (v % m) == v by {
        vstd::arithmetic::div_mod::lemma_small_mod(v as nat, m as nat);
    }
    assert(lc_value(ins, wit, seq![unit(true, 0)]) == Some(w0)
        && lc_value(ins, wit, seq![unit(true, 1)]) == Some(w1)
        && lc_value(ins, wit, seq![unit(true, 2)]) == Some(w2)
        && lc_value(ins, wit, seq![unit(false, 0)]) == Some(1int)
        && lc_value(ins, wit, seq![unit(false, 1)]) == Some(y)) by {
        reveal_with_fuel(lc_value, 2);
        assert(fadd(0, 1 * w0) == w0 % m);
        assert(fadd(0, 1 * w1) == w1 % m);
        assert(fadd(0, 1 * w2) == w2 % m);
        assert(fadd(0, 1int * 1int) == 1int % m);
        assert(fadd(0, 1 * y) == y % m);
        assert(w0 % m == w0 && w1 % m == w1 && w2 % m == w2 && y % m == y && 1int % m == 1);
        assert(seq![unit(true, 0)].drop_last() =~= Seq::<(int, bool, nat)>::empty());
        assert(seq![unit(true, 1)].drop_last() =~= Seq::<(int, bool, nat)>::empty());
        assert(seq![unit(true, 2)].drop_last() =~= Seq::<(int, bool, nat)>::empty());
        assert(seq![unit(false, 0)].drop_last() =~= Seq::<(int, bool, nat)>::empty());
        assert(seq![unit(false, 1)].drop_last() =~= Seq::<(int, bool, nat)>::empty());
    }
    let sum = seq![unit(true, 2), unit(true, 0), (5int, false, 0nat)];
    assert(lc_value(ins, wit, sum) == Some(fadd(fadd(w2, w0), 5))) by {
        reveal_with_fuel(lc_value, 4);
        assert(sum.drop_last() =~= seq![unit(true, 2), unit(true, 0)]);
        assert(sum.drop_last().drop_last() =~= seq![unit(true, 2)]);
        assert(sum.drop_last().drop_last().drop_last() =~= Seq::<(int, bool, nat)>::empty());
        assert(fadd(0, 1 * w2) == w2 % m);
        assert(w2 % m == w2);
        assert(fadd(0, 1int * 1int) == 1int % m);
        assert(1int % m == 1);
    }
    assert(fmul(fadd(fadd(w2, w0), 5), 1) == fadd(fadd(w2, w0), 5));
    assert(fmul(w0, w0) == (w0 * w0) % m);
    reveal_with_fuel(check_from, 4);
    assert(cons[0] == (seq![unit(true, 0)], seq![unit(true, 0)], seq![unit(true, 1)]));
    assert(cons[1] == (seq![unit(true, 1)], seq![unit(true, 0)], seq![unit(true, 2)]));
    assert(cons[2] == (sum, seq![unit(false, 0)], seq![unit(false, 1)]));
    if w1 == fmul(w0, w0) && w2 == fmul(w1, w0) {
        assert(cubic_value(w0) == fadd(fadd(w2, w0), 5));
    }
}

/// Honest flattening is satisfied: on a fresh proving system, the values
/// the cubic flattening of `x` assigns satisfy every constraint it enforces.
pub proof fn lemma_cubic_flattening_complete(x: Fe)
    requires
        x.wf(),
    ensures
        check_from(seq![Some(1int)] + cubic_inputs(false, Some(x)), Seq::<Option<int>>::empty() + cubic_witnesses(false, Some(x)),
            Seq::<ConstraintView>::empty() + cubic_constraints(0, 1), 0) == Some(true),
{
    let v = x.val();
    let m = modulus();
    crate::field::lemma_modulus_large();
    vstd::arithmetic::div_mod::lemma_mod_bound(v * v, m);
    vstd::arithmetic::div_mod::lemma_mod_bound(fmul(v, v) * v, m);
    vstd::arithmetic::div_mod::lemma_mod_bound(fadd(fmul(fmul(v, v), v), v) + 5, m);
    lemma_cubic_constraints_meaning(v, fmul(v, v), fmul(fmul(v, v), v), cubic_value(v));
    assert(seq![Some(1int)] + cubic_inputs(false, Some(x)) =~= seq![Some(1int), Some(cubic_value(v))]);
    assert(Seq::<Option<int>>::empty() + cubic_witnesses(false, Some(x)) =~= seq![Some(v), Some(fmul(v, v)), Some(fmul(fmul(v, v), v))]);
    assert(Seq::<ConstraintView>::empty() + cubic_constraints(0, 1) =~= cubic_constraints(0, 1));
}

/// Flattening the cubic relation allocates, whatever the value of `x`,
/// three witnesses and then one public input, and enforces the same
/// constraints over them: only the values differ.
pub proof fn lemma_allocation_order_stable(setup: bool, x1: Option<Fe>, x2: Option<Fe>, w: nat, i: nat)
    ensures
        cubic_witnesses(setup, x1).len() == 3,
        cubic_witnesses(setup, x2).len() == 3,
        cubic_inputs(setup, x1).len() == 1,
        cubic_inputs(setup, x2).len() == 1,
        cubic_constraints(w, i)[0].0 == seq![unit(true, w)],
        cubic_constraints(w, i)[0].2 == seq![unit(true, w + 1)],
        cubic_constraints(w, i)[1].2 == seq![unit(true, w + 2)],
        cubic_constraints(w, i)[2].2 == seq![unit(false, i)],
{
}

} // verus!
