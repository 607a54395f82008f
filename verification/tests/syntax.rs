use intelligence::language::{default_primitives, Derivative, Effect, Flow, Signature, Space};
use intelligence::names::NameMap;
use intelligence::syntax::{lexable, parse_program};

fn f32_tensor(n: usize) -> Space {
    Space::Tensor { element: "f32".to_string(), shape: vec![n] }
}

fn nl() -> Flow {
    Flow::Primitive { name: "neural_layer".to_string(), domain: f32_tensor(128), codomain: f32_tensor(64) }
}

#[test]
fn parse_simple_flow() {
    let primitives = default_primitives();
    let source = "space A = Tensor<128>\nspace B = Tensor<64>\nflow f : A -> B = neural_layer\n";
    let program = parse_program(source, &primitives).unwrap();
    assert!(program.flows.contains_key("f"));
}

#[test]
fn parsed_program_holds_spaces_and_flows() {
    let primitives = default_primitives();
    let source = "space A = Tensor<128>\nspace B = Tensor<64>\nflow f : A -> B = neural_layer\n";
    let program = parse_program(source, &primitives).unwrap();
    assert_eq!(program.spaces.get("A"), Some(&f32_tensor(128)));
    assert_eq!(program.spaces.get("B"), Some(&f32_tensor(64)));
    assert_eq!(program.flows.get("f"), Some(&nl()));
    assert_eq!(program.flows.len(), 1);
}

#[test]
fn space_kinds_and_dimensions() {
    let primitives = default_primitives();
    let source = "space T = Array<3, 4>\nspace Q = Qubit<5>\nspace O = MEA\nspace L = Bits<16>\nspace S = Scalar\nspace U = Unit\nspace P = Q || L || S\nspace R = T\n";
    let program = parse_program(source, &primitives).unwrap();
    assert_eq!(program.spaces.get("T"), Some(&f32_tensor(3)));
    assert_eq!(program.spaces.get("Q"), Some(&Space::Quantum { qubits: 5 }));
    assert_eq!(program.spaces.get("O"), Some(&Space::Organoid { pins: 1 }));
    assert_eq!(program.spaces.get("L"), Some(&Space::Logic { bits: 16 }));
    assert_eq!(program.spaces.get("S"), Some(&Space::Scalar("f64".to_string())));
    assert_eq!(program.spaces.get("U"), Some(&Space::Unit));
    assert_eq!(
        program.spaces.get("P"),
        Some(&Space::Product(vec![
            Space::Quantum { qubits: 5 },
            Space::Logic { bits: 16 },
            Space::Scalar("f64".to_string()),
        ]))
    );
    assert_eq!(program.spaces.get("R"), Some(&f32_tensor(3)));
}

#[test]
fn later_declarations_replace_earlier_ones() {
    let primitives = default_primitives();
    let source = "space A = Unit\nspace A = Logic<2>\nflow g = logic_step\nflow g = quantum_gate\n";
    let program = parse_program(source, &primitives).unwrap();
    assert_eq!(program.spaces.len(), 1);
    assert_eq!(program.spaces.get("A"), Some(&Space::Logic { bits: 2 }));
    assert_eq!(
        program.flows.get("g"),
        Some(&Flow::Primitive {
            name: "quantum_gate".to_string(),
            domain: Space::Quantum { qubits: 2 },
            codomain: Space::Quantum { qubits: 2 },
        })
    );
}

#[test]
fn flow_operators_compose_wire_and_trace() {
    let primitives = default_primitives();
    let source = "// gates\nflow c = quantum_gate >> quantum_gate >> quantum_gate\nflow p = neural_layer || neural_layer\nflow t = ~quantum_gate\nflow q = (neural_layer)\n";
    let program = parse_program(source, &primitives).unwrap();
    let gate = Flow::Primitive {
        name: "quantum_gate".to_string(),
        domain: Space::Quantum { qubits: 2 },
        codomain: Space::Quantum { qubits: 2 },
    };
    assert_eq!(
        program.flows.get("c"),
        Some(&Flow::Chain(
            Box::new(Flow::Chain(Box::new(gate.clone()), Box::new(gate.clone()))),
            Box::new(gate.clone())
        ))
    );
    assert_eq!(program.flows.get("p"), Some(&Flow::Parallel(Box::new(nl()), Box::new(nl()))));
    assert_eq!(program.flows.get("t"), Some(&Flow::Feedback(Box::new(gate))));
    assert_eq!(program.flows.get("q"), Some(&nl()));
}

#[test]
fn annotated_flow_must_have_its_type() {
    let primitives = default_primitives();
    let source = "space A = Tensor<128>\nflow f : A -> A = neural_layer\n";
    assert_eq!(
        parse_program(source, &primitives).unwrap_err(),
        "flow `f` annotates Tensor { element: \"f32\", shape: [128] } -> Tensor { element: \"f32\", shape: [128] }, but body is Tensor { element: \"f32\", shape: [128] } -> Tensor { element: \"f32\", shape: [64] }"
    );
}

#[test]
fn annotated_product_flow() {
    let primitives = default_primitives();
    let source = "space A = Tensor<128>\nspace B = Tensor<64>\nflow h : A || A -> B || B = neural_layer || neural_layer\n";
    let program = parse_program(source, &primitives).unwrap();
    assert_eq!(program.flows.get("h"), Some(&Flow::Parallel(Box::new(nl()), Box::new(nl()))));
}

#[test]
fn unknown_primitive_is_reported_after_parsing() {
    let primitives = default_primitives();
    assert_eq!(
        parse_program("flow g = teleport\n", &primitives).unwrap_err(),
        "unknown primitive `teleport`"
    );
}

#[test]
fn feedback_without_matching_trace_is_reported() {
    let primitives = default_primitives();
    assert_eq!(
        parse_program("flow t = ~neural_layer\n", &primitives).unwrap_err(),
        "feedback requires matching trace: Tensor { element: \"f32\", shape: [128] } != Tensor { element: \"f32\", shape: [64] }"
    );
}

#[test]
fn lexical_errors() {
    let primitives = default_primitives();
    assert_eq!(parse_program("space A = Unit / x", &primitives).unwrap_err(), "unexpected `/` token");
    assert_eq!(parse_program("flow p = a | b", &primitives).unwrap_err(), "unexpected `|` token");
    assert_eq!(parse_program("space A = Unit $", &primitives).unwrap_err(), "unexpected character `$`");
    assert_eq!(parse_program("flow f : A - B", &primitives).unwrap_err(), "unexpected character `-`");
}

#[test]
fn syntax_errors() {
    let primitives = default_primitives();
    assert_eq!(
        parse_program("space A Tensor", &primitives).unwrap_err(),
        "expected Equals, found Ident(\"Tensor\")"
    );
    assert_eq!(parse_program("space = Unit", &primitives).unwrap_err(), "expected identifier, found Equals");
    assert_eq!(parse_program("space A = Vector", &primitives).unwrap_err(), "unknown type `Vector`");
    assert_eq!(
        parse_program("space A = Tensor<x>", &primitives).unwrap_err(),
        "invalid dimension token Ident(\"x\")"
    );
    assert_eq!(
        parse_program("flow f = )", &primitives).unwrap_err(),
        "unexpected token while parsing flow: RParen"
    );
    assert_eq!(parse_program("= flow", &primitives).unwrap_err(), "unexpected top-level token Equals");
    assert_eq!(
        parse_program("flow f = (quantum_gate", &primitives).unwrap_err(),
        "expected RParen, found Eof"
    );
}

#[test]
fn empty_source_gives_empty_program() {
    let primitives = default_primitives();
    let program = parse_program("  // nothing here\n\t\r\n", &primitives).unwrap();
    assert_eq!(program.spaces.len(), 0);
    assert_eq!(program.flows.len(), 0);
}

#[test]
fn programs_compare_by_their_tables() {
    let primitives = default_primitives();
    let one = "space A = Tensor<128>\nspace B = Tensor<64>\nflow f : A -> B = neural_layer\n";
    let reordered = "space B = Tensor<64>\nspace A = Tensor<128>\nflow f : A -> B = neural_layer\n";
    let other = "space A = Tensor<128>\nspace B = Tensor<65>\nflow f = neural_layer\n";
    let p1 = parse_program(one, &primitives).unwrap();
    let p2 = parse_program(reordered, &primitives).unwrap();
    let p3 = parse_program(other, &primitives).unwrap();
    assert!(p1 == p2);
    assert!(p1 != p3);
    assert!(p1.clone() == p1);
}

#[test]
fn readme_example_with_bracketed_spaces() {
    let primitives = default_primitives();
    let source = "space A = Tensor<128>\nspace B = Tensor<64>\n\nflow hybrid : (A || A) -> (B || B) = (neural_layer || neural_layer)\n";
    let program = parse_program(source, &primitives).unwrap();
    let hybrid = program.flows.get("hybrid").unwrap();
    assert_eq!(hybrid.domain(), Space::Product(vec![f32_tensor(128), f32_tensor(128)]));
    assert_eq!(hybrid.codomain(), Space::Product(vec![f32_tensor(64), f32_tensor(64)]));
    assert_eq!(
        *hybrid,
        Flow::Parallel(Box::new(nl()), Box::new(nl()))
    );
}

#[test]
fn bracketed_spaces_nest() {
    let primitives = default_primitives();
    let program = parse_program("space P = (Scalar || (Unit || Logic<8>))\n", &primitives).unwrap();
    assert_eq!(
        program.spaces.get("P"),
        Some(&Space::Product(vec![
            Space::Scalar("f64".to_string()),
            Space::Product(vec![Space::Unit, Space::Logic { bits: 8 }]),
        ]))
    );
    assert_eq!(
        parse_program("space P = (Scalar\n", &primitives).unwrap_err(),
        "expected RParen, found Eof"
    );
}

#[test]
fn readme_trace_of_unequal_spaces_is_refused() {
    let primitives = default_primitives();
    let source = "space A = Tensor<128>\nspace B = Tensor<64>\nflow traced : (A || A) -> (B || B) = ~(neural_layer || neural_layer)\n";
    let err = parse_program(source, &primitives).unwrap_err();
    assert!(err.starts_with("feedback requires matching trace: "));
}

#[test]
fn lexable_tells_when_numbers_fit() {
    assert!(lexable("space A = Tensor<128>\n"));
    assert!(lexable("space A = Tensor<18446744073709551615>"));
    assert!(!lexable("space A = Tensor<18446744073709551616>"));
    assert!(!lexable("space A = Tensor<99999999999999999999999>"));
    assert!(lexable("$ 99999999999999999999999"));
    assert!(lexable(""));
}

#[test]
fn tables_hold_exactly_the_declared_names() {
    let primitives = default_primitives();
    let source = "space A = Unit\nspace B = Scalar\nspace A = Logic<4>\nflow f = add\nflow g = (mul)\nflow f = ~add\n";
    let program = parse_program(source, &primitives).unwrap();
    assert_eq!(program.spaces.len(), 2);
    assert!(program.spaces.contains_key("A"));
    assert!(program.spaces.contains_key("B"));
    assert_eq!(program.flows.len(), 2);
    assert!(program.flows.contains_key("f"));
    assert!(program.flows.contains_key("g"));
    assert!(!program.flows.contains_key("add"));
}

#[test]
fn annotated_flows_check_against_the_built_in_signatures() {
    let mut table: NameMap<Signature> = NameMap::new();
    table.insert(
        "custom".to_string(),
        Signature {
            domain: Space::Unit,
            codomain: Space::Unit,
            derivative: Derivative::Analytic,
            effects: vec![Effect::Pure],
        },
    );
    let plain = parse_program("flow f = custom\n", &table).unwrap();
    assert_eq!(
        plain.flows.get("f"),
        Some(&Flow::Primitive { name: "custom".to_string(), domain: Space::Unit, codomain: Space::Unit })
    );
    assert_eq!(
        parse_program("flow f : Unit -> Unit = custom\n", &table).unwrap_err(),
        "unknown primitive `custom`"
    );
}
