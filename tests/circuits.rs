use ark_bls12_381::{Bls12_381, Fr};
use ark_ff::{BigInt, PrimeField};
use ark_groth16::Groth16;
use ark_relations::r1cs::{ConstraintSynthesizer, ConstraintSystemRef, SynthesisError};
use ark_serialize::{CanonicalDeserialize, CanonicalSerialize};
use ark_snark::SNARK;
use ark_std::rand::rngs::StdRng;
use ark_std::rand::SeedableRng;
use ark_std::UniformRand;
use r1cs_demo::cubic::CubicDemoCircuit;
use r1cs_demo::field::Fe;
use r1cs_demo::gadget::{AllocationMode, CubicRootGadgetTrait, ParamTypeVar, SolutionDemoGadget};
use r1cs_demo::native::{CubicRootTrait, ParamType, SolutionDemo};
use r1cs_demo::product::MultiplyDemoCircuit;
use r1cs_demo::system::{ConstraintSystem, Error};

fn fe(x: Fr) -> Fe {
    let l = x.into_bigint().0;
    Fe { l0: l[0], l1: l[1], l2: l[2], l3: l[3] }
}

fn fr(x: Fe) -> Fr {
    Fr::from_bigint(BigInt::new([x.l0, x.l1, x.l2, x.l3])).unwrap()
}

fn to_ark(e: Error) -> SynthesisError {
    match e {
        Error::AssignmentMissing => SynthesisError::AssignmentMissing,
        Error::AllocationError | Error::ConstraintSystemError => SynthesisError::Unsatisfiable,
    }
}

fn wrap(cs: ConstraintSystemRef<Fr>) -> Result<ConstraintSystem, SynthesisError> {
    match cs {
        ConstraintSystemRef::CS(inner) => Ok(ConstraintSystem { inner }),
        ConstraintSystemRef::None => Err(SynthesisError::MissingCS),
    }
}

struct Cubic(CubicDemoCircuit);

impl ConstraintSynthesizer<Fr> for Cubic {
    fn generate_constraints(self, cs: ConstraintSystemRef<Fr>) -> Result<(), SynthesisError> {
        let mut sys = wrap(cs)?;
        self.0.generate_constraints(&mut sys).map_err(to_ark)
    }
}

struct Multiply(MultiplyDemoCircuit);

impl ConstraintSynthesizer<Fr> for Multiply {
    fn generate_constraints(self, cs: ConstraintSystemRef<Fr>) -> Result<(), SynthesisError> {
        let mut sys = wrap(cs)?;
        self.0.generate_constraints(&mut sys).map_err(to_ark)
    }
}

fn multiply(a: Option<Fr>, b: Option<Fr>, num_variables: usize, num_constraints: usize) -> Multiply {
    Multiply(MultiplyDemoCircuit { a: a.map(fe), b: b.map(fe), num_constraints, num_variables })
}

fn witness_values(cs: &ConstraintSystem) -> Vec<Fr> {
    cs.inner.borrow().witness_assignment.clone()
}

fn input_values(cs: &ConstraintSystem) -> Vec<Fr> {
    cs.inner.borrow().instance_assignment.clone()
}

#[test]
fn test_groth16() {
    let rng = &mut StdRng::seed_from_u64(0u64);
    let (pk, vk) =
        Groth16::<Bls12_381>::circuit_specific_setup(Cubic(CubicDemoCircuit { x: None }), rng).unwrap();
    let proof = Groth16::<Bls12_381>::prove(
        &pk,
        Cubic(CubicDemoCircuit { x: Some(fe(Fr::from(3u64))) }),
        rng,
    )
    .unwrap();
    assert!(Groth16::<Bls12_381>::verify(&vk, &[Fr::from(35u64)], &proof).unwrap());
    assert!(!Groth16::<Bls12_381>::verify(&vk, &[Fr::from(30u64)], &proof).unwrap());
}

#[test]
fn test_cubic_gadget() {
    let mut cs = ConstraintSystem::new_prover();
    let x = ParamTypeVar::new_variable(&mut cs, Some(ParamType::new(fe(Fr::from(3u8)))), AllocationMode::Witness).unwrap();
    let y = ParamTypeVar::new_variable(&mut cs, Some(ParamType::new(fe(Fr::from(35u8)))), AllocationMode::Witness).unwrap();
    let demo_gadget = SolutionDemoGadget { x };
    assert_eq!(true, demo_gadget.verify(&mut cs, &y).unwrap().get_value().unwrap());
    assert!(cs.is_satisfied().unwrap());
}

#[test]
fn test_cubic_native() {
    let x = ParamType::new(fe(Fr::from(3u8)));
    let y = ParamType::new(fe(Fr::from(35u8)));
    let demo = SolutionDemo { x };
    assert_eq!(true, demo.verify(&y).unwrap());
}

#[test]
fn test_marlin_universal_srs() {
    let num_constraints: usize = 24;
    let num_variables: usize = 24;
    let rng = &mut StdRng::seed_from_u64(0u64);

    let (pk, vk) =
        Groth16::<Bls12_381>::circuit_specific_setup(Cubic(CubicDemoCircuit { x: None }), rng).unwrap();
    let proof =
        Groth16::<Bls12_381>::prove(&pk, Cubic(CubicDemoCircuit { x: Some(fe(Fr::from(3u64))) }), rng).unwrap();
    assert!(Groth16::<Bls12_381>::verify(&vk, &[Fr::from(35u64)], &proof).unwrap());

    let (pk, vk) = Groth16::<Bls12_381>::circuit_specific_setup(
        multiply(None, None, num_variables, num_constraints),
        rng,
    )
    .unwrap();
    let a = Fr::rand(rng);
    let b = Fr::rand(rng);
    let proof = Groth16::<Bls12_381>::prove(&pk, multiply(Some(a), Some(b), num_variables, num_constraints), rng).unwrap();
    let c = a * b;
    assert!(Groth16::<Bls12_381>::verify(&vk, &[c], &proof).unwrap());
}

#[test]
fn test_groth16_circuit_multiply() {
    let rng = &mut StdRng::seed_from_u64(0u64);
    let (pk, vk) =
        Groth16::<Bls12_381>::circuit_specific_setup(multiply(None, None, 3, 1), rng).unwrap();
    for _ in 0..5 {
        let a = Fr::rand(rng);
        let b = Fr::rand(rng);
        let c = a * b;
        let proof = Groth16::<Bls12_381>::prove(&pk, multiply(Some(a), Some(b), 3, 1), rng).unwrap();
        assert!(Groth16::<Bls12_381>::verify(&vk, &[c], &proof).unwrap());
        assert!(!Groth16::<Bls12_381>::verify(&vk, &[a], &proof).unwrap());
    }
}

#[test]
fn test_serde_groth16() {
    let rng = &mut StdRng::seed_from_u64(0u64);
    let (pk, vk) =
        Groth16::<Bls12_381>::circuit_specific_setup(multiply(None, None, 3, 1), rng).unwrap();
    let a = Fr::rand(rng);
    let b = Fr::rand(rng);
    let c = a * b;
    let proof = Groth16::<Bls12_381>::prove(&pk, multiply(Some(a), Some(b), 3, 1), rng).unwrap();

    let mut serialized = Vec::new();
    proof.serialize_compressed(&mut serialized).unwrap();
    let pr = <Groth16<Bls12_381> as SNARK<Fr>>::Proof::deserialize_compressed(&serialized[..]).unwrap();
    assert_eq!(proof, pr);

    let mut serialized = Vec::new();
    pk.serialize_compressed(&mut serialized).unwrap();
    let p = <Groth16<Bls12_381> as SNARK<Fr>>::ProvingKey::deserialize_compressed(&serialized[..]).unwrap();
    assert_eq!(pk, p);

    let mut serialized = Vec::new();
    vk.serialize_compressed(&mut serialized).unwrap();
    let v = <Groth16<Bls12_381> as SNARK<Fr>>::VerifyingKey::deserialize_compressed(&serialized[..]).unwrap();
    assert_eq!(vk, v);

    assert!(Groth16::<Bls12_381>::verify(&vk, &[c], &proof).unwrap());
    assert!(Groth16::<Bls12_381>::verify(&v, &[c], &pr).unwrap());
}

#[test]
fn cubic_round_trip_values() {
    let mut cs = ConstraintSystem::new_prover();
    CubicDemoCircuit { x: Some(Fe::from_u64(3)) }.generate_constraints(&mut cs).unwrap();
    assert_eq!(witness_values(&cs), vec![Fr::from(3u64), Fr::from(9u64), Fr::from(27u64)]);
    assert_eq!(input_values(&cs), vec![Fr::from(1u64), Fr::from(35u64)]);
    assert_eq!(cs.inner.borrow().num_constraints, 3);
    assert_eq!(cs.is_satisfied(), Ok(true));
}

#[test]
fn cubic_wrong_output_unsatisfied() {
    let mut cs = ConstraintSystem::new_prover();
    CubicDemoCircuit { x: Some(Fe::from_u64(3)) }.generate_constraints(&mut cs).unwrap();
    cs.inner.borrow_mut().instance_assignment[1] = Fr::from(30u64);
    assert_eq!(cs.is_satisfied(), Ok(false));
}

#[test]
fn cubic_missing_value_in_proving_mode() {
    let mut cs = ConstraintSystem::new_prover();
    assert_eq!(CubicDemoCircuit { x: None }.generate_constraints(&mut cs), Err(Error::AssignmentMissing));
}

#[test]
fn cubic_setup_mode_records_shape_only() {
    let mut cs = ConstraintSystem::new_setup();
    assert_eq!(CubicDemoCircuit { x: None }.generate_constraints(&mut cs), Ok(()));
    let inner = cs.inner.borrow();
    assert_eq!(inner.num_witness_variables, 3);
    assert_eq!(inner.num_instance_variables, 2);
    assert_eq!(inner.num_constraints, 3);
    assert!(inner.witness_assignment.is_empty());
}

#[test]
fn cubic_allocation_order_is_stable() {
    for x in [3u64, 11u64] {
        let mut cs = ConstraintSystem::new_prover();
        CubicDemoCircuit { x: Some(Fe::from_u64(x)) }.generate_constraints(&mut cs).unwrap();
        let inner = cs.inner.borrow();
        assert_eq!(inner.num_witness_variables, 3);
        assert_eq!(inner.num_instance_variables, 2);
        assert_eq!(inner.witness_assignment[0], Fr::from(x));
        assert_eq!(inner.instance_assignment[1], Fr::from(x * x * x + x + 5));
    }
}

#[test]
fn product_padding_sizes() {
    for (nv, nc) in [(3usize, 1usize), (24, 24)] {
        let mut cs = ConstraintSystem::new_prover();
        MultiplyDemoCircuit { a: Some(Fe::from_u64(6)), b: Some(Fe::from_u64(7)), num_constraints: nc, num_variables: nv }
            .generate_constraints(&mut cs)
            .unwrap();
        let inner = cs.inner.borrow();
        assert_eq!(inner.num_witness_variables + inner.num_instance_variables - 1, nv);
        assert_eq!(inner.num_constraints, nc);
        drop(inner);
        assert_eq!(cs.is_satisfied(), Ok(true));
    }
}

#[test]
fn product_round_trip() {
    let mut cs = ConstraintSystem::new_prover();
    MultiplyDemoCircuit { a: Some(Fe::from_u64(6)), b: Some(Fe::from_u64(7)), num_constraints: 1, num_variables: 3 }
        .generate_constraints(&mut cs)
        .unwrap();
    assert_eq!(input_values(&cs), vec![Fr::from(1u64), Fr::from(42u64)]);
    assert_eq!(witness_values(&cs), vec![Fr::from(6u64), Fr::from(7u64)]);

    let rng = &mut StdRng::seed_from_u64(0u64);
    let (pk, vk) = Groth16::<Bls12_381>::circuit_specific_setup(multiply(None, None, 3, 1), rng).unwrap();
    let proof = Groth16::<Bls12_381>::prove(&pk, multiply(Some(Fr::from(6u64)), Some(Fr::from(7u64)), 3, 1), rng).unwrap();
    assert!(Groth16::<Bls12_381>::verify(&vk, &[Fr::from(42u64)], &proof).unwrap());
    assert!(!Groth16::<Bls12_381>::verify(&vk, &[Fr::from(41u64)], &proof).unwrap());
}

#[test]
fn product_invalid_shape() {
    let mut cs = ConstraintSystem::new_prover();
    let c = MultiplyDemoCircuit { a: Some(Fe::from_u64(6)), b: Some(Fe::from_u64(7)), num_constraints: 1, num_variables: 2 };
    assert_eq!(c.generate_constraints(&mut cs), Err(Error::AllocationError));
    let c = MultiplyDemoCircuit { a: Some(Fe::from_u64(6)), b: Some(Fe::from_u64(7)), num_constraints: 0, num_variables: 3 };
    assert_eq!(c.generate_constraints(&mut cs), Err(Error::AllocationError));
}

#[test]
fn product_missing_factor() {
    let mut cs = ConstraintSystem::new_prover();
    let c = MultiplyDemoCircuit { a: Some(Fe::from_u64(6)), b: None, num_constraints: 1, num_variables: 3 };
    assert_eq!(c.generate_constraints(&mut cs), Err(Error::AssignmentMissing));
}

#[test]
fn native_rejects_wrong_output() {
    let demo = SolutionDemo { x: ParamType::new(Fe::from_u64(3)) };
    assert_eq!(demo.verify(&ParamType::new(Fe::from_u64(30))), Ok(false));
    assert_eq!(demo.verify(&ParamType::new(Fe::from_u64(35))), Ok(true));
}

#[test]
fn native_wraps_around_the_modulus() {
    let x = -Fr::from(1u64);
    let demo = SolutionDemo { x: ParamType::new(fe(x)) };
    assert_eq!(demo.verify(&ParamType::new(Fe::from_u64(3))), Ok(true));
    assert_eq!(fr(fe(x)), x);
}

#[test]
fn gadget_rejects_wrong_output() {
    let mut cs = ConstraintSystem::new_prover();
    let x = ParamTypeVar::new_variable(&mut cs, Some(ParamType::new(Fe::from_u64(3))), AllocationMode::Witness).unwrap();
    let y = ParamTypeVar::new_variable(&mut cs, Some(ParamType::new(Fe::from_u64(30))), AllocationMode::Input).unwrap();
    let gadget = SolutionDemoGadget { x };
    assert_eq!(gadget.verify(&mut cs, &y).unwrap().get_value(), Some(false));
    assert!(cs.is_satisfied().unwrap());
}

#[test]
fn gadget_with_constant_output() {
    let mut cs = ConstraintSystem::new_prover();
    let x = ParamTypeVar::new_variable(&mut cs, Some(ParamType::new(Fe::from_u64(2))), AllocationMode::Witness).unwrap();
    let y = ParamTypeVar::new_variable(&mut cs, Some(ParamType::new(Fe::from_u64(15))), AllocationMode::Constant).unwrap();
    assert_eq!(y.get_value(), Some(Fe::from_u64(15)));
    let gadget = SolutionDemoGadget { x };
    assert_eq!(gadget.verify(&mut cs, &y).unwrap().get_value(), Some(true));
}

#[test]
fn alloc_constant_needs_value() {
    let mut cs = ConstraintSystem::new_setup();
    assert!(matches!(ParamTypeVar::new_variable(&mut cs, None, AllocationMode::Constant), Err(Error::AssignmentMissing)));
    let w = ParamTypeVar::new_variable(&mut cs, None, AllocationMode::Witness).unwrap();
    assert_eq!(w.get_value(), None);
}

#[test]
fn product_missing_factor_before_shape() {
    let mut cs = ConstraintSystem::new_prover();
    let c = MultiplyDemoCircuit { a: None, b: Some(Fe::from_u64(7)), num_constraints: 1, num_variables: 2 };
    assert_eq!(c.generate_constraints(&mut cs), Err(Error::AssignmentMissing));
    let c = MultiplyDemoCircuit { a: Some(Fe::from_u64(6)), b: None, num_constraints: 0, num_variables: 3 };
    assert_eq!(c.generate_constraints(&mut cs), Err(Error::AssignmentMissing));
}

#[test]
fn product_setup_mode_with_invalid_shape() {
    let mut cs = ConstraintSystem::new_setup();
    let c = MultiplyDemoCircuit { a: None, b: None, num_constraints: 1, num_variables: 2 };
    assert_eq!(c.generate_constraints(&mut cs), Err(Error::AllocationError));
}

#[test]
fn gadget_in_setup_mode() {
    let mut cs = ConstraintSystem::new_setup();
    let x = ParamTypeVar::new_variable(&mut cs, None, AllocationMode::Witness).unwrap();
    let y = ParamTypeVar::new_variable(&mut cs, None, AllocationMode::Input).unwrap();
    let bit = SolutionDemoGadget { x }.verify(&mut cs, &y).unwrap();
    assert_eq!(bit.get_value(), None);
    let inner = cs.inner.borrow();
    assert_eq!(inner.num_witness_variables, 1 + 4);
    assert_eq!(inner.num_constraints, 5);
}

#[test]
fn gadget_needs_values_in_proving_mode() {
    let mut setup = ConstraintSystem::new_setup();
    let x = ParamTypeVar::new_variable(&mut setup, None, AllocationMode::Witness).unwrap();
    let mut cs = ConstraintSystem::new_prover();
    let y = ParamTypeVar::new_variable(&mut cs, Some(ParamType::new(Fe::from_u64(35))), AllocationMode::Input).unwrap();
    assert!(matches!(SolutionDemoGadget { x }.verify(&mut cs, &y), Err(Error::AssignmentMissing)));
    assert_eq!(cs.inner.borrow().num_witness_variables, 0);
}

#[test]
fn gadget_adds_its_constraints() {
    let mut cs = ConstraintSystem::new_prover();
    let x = ParamTypeVar::new_variable(&mut cs, Some(ParamType::new(Fe::from_u64(3))), AllocationMode::Witness).unwrap();
    let y = ParamTypeVar::new_variable(&mut cs, Some(ParamType::new(Fe::from_u64(35))), AllocationMode::Input).unwrap();
    let bit = SolutionDemoGadget { x }.verify(&mut cs, &y).unwrap();
    assert_eq!(bit.get_value(), Some(true));
    let inner = cs.inner.borrow();
    assert_eq!(inner.num_constraints, 5);
    assert_eq!(inner.witness_assignment[1], Fr::from(9u64));
    assert_eq!(inner.witness_assignment[2], Fr::from(27u64));
    assert_eq!(inner.witness_assignment[3], Fr::from(0u64));
    drop(inner);
    assert_eq!(cs.is_satisfied(), Ok(true));
}
