use intelligence::language::{
    default_primitives, lower_flow, typecheck, Derivative, Effect, Flow, Signature, Space,
};

fn f32_tensor(n: usize) -> Space {
    Space::Tensor { element: "f32".to_string(), shape: vec![n] }
}

fn scalar() -> Space {
    Space::Scalar("f64".to_string())
}

fn prim(name: &str, domain: Space, codomain: Space) -> Flow {
    Flow::Primitive { name: name.to_string(), domain, codomain }
}

#[test]
fn product_of_two_plain_spaces_is_a_pair() {
    let p = Space::product(Space::Unit, scalar());
    assert_eq!(p, Space::Product(vec![Space::Unit, scalar()]));
}

#[test]
fn product_splices_factors_of_products() {
    let left = Space::Product(vec![Space::Quantum { qubits: 2 }, Space::Logic { bits: 8 }]);
    let right = Space::Product(vec![Space::Organoid { pins: 4 }]);
    let p = Space::product(left, right);
    assert_eq!(
        p,
        Space::Product(vec![
            Space::Quantum { qubits: 2 },
            Space::Logic { bits: 8 },
            Space::Organoid { pins: 4 },
        ])
    );
    let q = Space::product(Space::Unit, Space::Product(vec![scalar(), scalar()]));
    assert_eq!(q, Space::Product(vec![Space::Unit, scalar(), scalar()]));
}

#[test]
fn product_is_associative() {
    let a = Space::Quantum { qubits: 1 };
    let b = Space::Product(vec![Space::Logic { bits: 2 }, Space::Unit]);
    let c = scalar();
    let left = Space::product(Space::product(a.clone(), b.clone()), c.clone());
    let right = Space::product(a, Space::product(b, c));
    assert_eq!(left, right);
}

#[test]
fn space_equality_compares_factors() {
    assert_eq!(f32_tensor(3), f32_tensor(3));
    assert_ne!(f32_tensor(3), f32_tensor(4));
    assert_ne!(
        Space::Tensor { element: "f64".to_string(), shape: vec![3] },
        f32_tensor(3)
    );
    assert_ne!(Space::Product(vec![Space::Unit]), Space::Product(vec![Space::Unit, Space::Unit]));
    assert_ne!(Space::Unit, Space::Product(vec![]));
}

#[test]
fn flow_types_follow_structure() {
    let nl = prim("neural_layer", f32_tensor(128), f32_tensor(64));
    let chain = Flow::Chain(Box::new(nl.clone()), Box::new(prim("x", f32_tensor(64), scalar())));
    assert_eq!(chain.domain(), f32_tensor(128));
    assert_eq!(chain.codomain(), scalar());
    let par = Flow::Parallel(Box::new(nl.clone()), Box::new(Flow::Identity(Space::Unit)));
    assert_eq!(par.domain(), Space::Product(vec![f32_tensor(128), Space::Unit]));
    assert_eq!(par.codomain(), Space::Product(vec![f32_tensor(64), Space::Unit]));
    let grad = Flow::Gradient(Box::new(nl.clone()));
    assert_eq!(grad.domain(), f32_tensor(64));
    assert_eq!(grad.codomain(), f32_tensor(128));
    let grad2 = Flow::Gradient(Box::new(grad));
    assert_eq!(grad2.domain(), f32_tensor(128));
    assert_eq!(grad2.codomain(), f32_tensor(64));
    let fb = Flow::Feedback(Box::new(nl));
    assert_eq!(fb.domain(), f32_tensor(128));
    assert_eq!(fb.codomain(), f32_tensor(64));
}

#[test]
fn default_primitives_hold_the_built_in_signatures() {
    let table = default_primitives();
    assert_eq!(table.len(), 6);
    let nl = table.get("neural_layer").unwrap();
    assert_eq!(nl.domain, f32_tensor(128));
    assert_eq!(nl.codomain, f32_tensor(64));
    assert_eq!(nl.derivative, Derivative::ReverseMode);
    assert_eq!(nl.effects, vec![Effect::Pure]);
    let add = table.get("add").unwrap();
    assert_eq!(add.domain, scalar());
    assert_eq!(add.codomain, scalar());
    assert_eq!(add.derivative, Derivative::Analytic);
    let q = table.get("quantum_gate").unwrap();
    assert_eq!(q.domain, Space::Quantum { qubits: 2 });
    assert_eq!(q.effects, vec![Effect::DeviceIo]);
    let o = table.get("organoid_pulse").unwrap();
    assert_eq!(o.domain, Space::Organoid { pins: 64 });
    let l = table.get("logic_step").unwrap();
    assert_eq!(l.derivative, Derivative::StraightThrough);
    assert!(table.contains_key("mul"));
    assert!(!table.contains_key("organoid_step"));
}

#[test]
fn typecheck_accepts_well_typed_flows() {
    let table = default_primitives();
    let nl = prim("neural_layer", f32_tensor(128), f32_tensor(64));
    assert_eq!(typecheck(&nl, &table), Ok(()));
    let gate = prim("quantum_gate", Space::Quantum { qubits: 2 }, Space::Quantum { qubits: 2 });
    assert_eq!(typecheck(&Flow::Feedback(Box::new(gate.clone())), &table), Ok(()));
    let chain = Flow::Chain(Box::new(gate.clone()), Box::new(gate.clone()));
    assert_eq!(typecheck(&chain, &table), Ok(()));
    let par = Flow::Parallel(Box::new(nl.clone()), Box::new(gate));
    assert_eq!(typecheck(&par, &table), Ok(()));
    assert_eq!(typecheck(&Flow::Gradient(Box::new(nl)), &table), Ok(()));
    assert_eq!(typecheck(&Flow::Identity(Space::Unit), &table), Ok(()));
}

#[test]
fn typecheck_rejects_unknown_primitive() {
    let table = default_primitives();
    let f = prim("teleport", Space::Unit, Space::Unit);
    assert_eq!(typecheck(&f, &table), Err("unknown primitive `teleport`".to_string()));
}

#[test]
fn typecheck_rejects_primitive_at_other_spaces() {
    let table = default_primitives();
    let f = prim("neural_layer", Space::Unit, f32_tensor(64));
    assert_eq!(
        typecheck(&f, &table),
        Err("primitive `neural_layer` requires Tensor { element: \"f32\", shape: [128] } -> Tensor { element: \"f32\", shape: [64] }, got Unit -> Tensor { element: \"f32\", shape: [64] }".to_string())
    );
}

#[test]
fn typecheck_rejects_composition_mismatch() {
    let table = default_primitives();
    let nl = prim("neural_layer", f32_tensor(128), f32_tensor(64));
    let chain = Flow::Chain(Box::new(nl.clone()), Box::new(nl));
    assert_eq!(
        typecheck(&chain, &table),
        Err("composition mismatch: Tensor { element: \"f32\", shape: [128] } -> Tensor { element: \"f32\", shape: [64] } cannot feed Tensor { element: \"f32\", shape: [128] } -> Tensor { element: \"f32\", shape: [64] }".to_string())
    );
}

#[test]
fn typecheck_rejects_feedback_without_matching_trace() {
    let table = default_primitives();
    let nl = prim("neural_layer", f32_tensor(128), f32_tensor(64));
    let fb = Flow::Feedback(Box::new(nl));
    assert_eq!(
        typecheck(&fb, &table),
        Err("feedback requires matching trace: Tensor { element: \"f32\", shape: [128] } != Tensor { element: \"f32\", shape: [64] }".to_string())
    );
}

#[test]
fn typecheck_reports_the_first_error_depth_first() {
    let table = default_primitives();
    let bad_left = prim("a", Space::Unit, Space::Unit);
    let bad_right = prim("b", Space::Unit, Space::Unit);
    let par = Flow::Parallel(Box::new(bad_left), Box::new(bad_right));
    assert_eq!(typecheck(&par, &table), Err("unknown primitive `a`".to_string()));
}

#[test]
fn a_larger_table_keeps_accepting() {
    let mut table = default_primitives();
    let nl = prim("neural_layer", f32_tensor(128), f32_tensor(64));
    assert_eq!(typecheck(&nl, &table), Ok(()));
    table.insert(
        "extra".to_string(),
        Signature { domain: Space::Unit, codomain: Space::Unit, derivative: Derivative::NonDifferentiable, effects: vec![Effect::HostIo] },
    );
    assert_eq!(typecheck(&nl, &table), Ok(()));
}

#[test]
fn lower_flow_writes_one_comment_per_node() {
    let nl = prim("neural_layer", f32_tensor(128), f32_tensor(64));
    let f = Flow::Gradient(Box::new(Flow::Feedback(Box::new(Flow::Chain(
        Box::new(nl.clone()),
        Box::new(Flow::Parallel(Box::new(Flow::Identity(Space::Unit)), Box::new(nl))),
    )))));
    assert_eq!(
        lower_flow(&f),
        "/* grad */\n/* feedback trace */\n/* neural_layer */\n/* identity Unit */\n/* neural_layer */\n"
    );
}

#[test]
fn signature_clone_keeps_everything() {
    let s = Signature {
        domain: f32_tensor(2),
        codomain: Space::Logic { bits: 1 },
        derivative: Derivative::Analytic,
        effects: vec![Effect::Nondeterministic, Effect::Pure],
    };
    let c = s.clone();
    assert_eq!(c, s);
}

#[test]
fn flows_compare_node_by_node() {
    let a = Flow::Chain(Box::new(prim("add", scalar(), scalar())), Box::new(Flow::Identity(scalar())));
    let b = Flow::Chain(Box::new(prim("add", scalar(), scalar())), Box::new(Flow::Identity(scalar())));
    let c = Flow::Parallel(Box::new(prim("add", scalar(), scalar())), Box::new(Flow::Identity(scalar())));
    let d = Flow::Chain(Box::new(prim("mul", scalar(), scalar())), Box::new(Flow::Identity(scalar())));
    assert_eq!(a, b);
    assert_ne!(a, c);
    assert_ne!(a, d);
    assert_eq!(a.clone(), a);
}
