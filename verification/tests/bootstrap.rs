use intelligence::bootstrap::ast::{Flow, FlowDecl, Space};
use intelligence::bootstrap::checker::TypeChecker;
use intelligence::bootstrap::emitter::C99Emitter;
use intelligence::bootstrap::lexer::{Lexer, Token};
use intelligence::bootstrap::parser::Parser;
use intelligence::bootstrap::registry::{Primitive, PrimitiveFamily, PrimitiveRegistry};

fn scalar() -> Space {
    Space::Scalar("f64".to_string())
}

fn ident(s: &str) -> Token {
    Token::Ident(s.to_string())
}

fn parse(source: &str, registry: &mut PrimitiveRegistry) -> Result<Vec<FlowDecl>, String> {
    let mut lexer = Lexer::new(source);
    let tokens = lexer.tokenize();
    let mut parser = Parser::new(tokens);
    parser.parse(registry)
}

#[test]
fn size_in_bytes_of_each_space() {
    assert_eq!(scalar().size_in_bytes(), 8);
    assert_eq!(Space::Tensor(10).size_in_bytes(), 40);
    assert_eq!(Space::Qubit(2).size_in_bytes(), 32);
    assert_eq!(Space::Qubit(0).size_in_bytes(), 8);
    assert_eq!(Space::Organoid(3).size_in_bytes(), 12);
    assert_eq!(Space::Logic(8).size_in_bytes(), 1);
    assert_eq!(Space::Logic(9).size_in_bytes(), 2);
    assert_eq!(Space::Logic(0).size_in_bytes(), 0);
    assert_eq!(Space::Unit.size_in_bytes(), 0);
    let p = Space::Product(vec![Space::Tensor(2), Space::Logic(1), Space::Product(vec![scalar()])]);
    assert_eq!(p.size_in_bytes(), 8 + 1 + 8);
}

#[test]
fn c_type_of_each_space() {
    assert_eq!(scalar().c_type_string(), "double");
    assert_eq!(Space::Tensor(1).c_type_string(), "float*");
    assert_eq!(Space::Qubit(1).c_type_string(), "float*");
    assert_eq!(Space::Organoid(1).c_type_string(), "float*");
    assert_eq!(Space::Logic(1).c_type_string(), "uint8_t*");
    assert_eq!(Space::Product(vec![]).c_type_string(), "void*");
    assert_eq!(Space::Unit.c_type_string(), "void");
}

#[test]
fn registry_starts_with_the_built_in_primitives() {
    let reg = PrimitiveRegistry::new();
    assert_eq!(reg.primitives.len(), 7);
    assert_eq!(reg.declared_spaces.len(), 0);
    let add = reg.get("add").unwrap();
    assert_eq!(add.dom, Space::Product(vec![scalar(), scalar()]));
    assert_eq!(add.cod, scalar());
    assert_eq!(add.family, PrimitiveFamily::Scalar);
    let step = reg.get("organoid_step").unwrap();
    assert_eq!(step.dom, Space::Organoid(64));
    assert_eq!(step.family, PrimitiveFamily::Organoid);
    assert!(reg.get("teleport").is_none());
}

#[test]
fn default_impl_of_known_and_unknown_names() {
    let reg = PrimitiveRegistry::new();
    assert_eq!(
        reg.get_default_impl("mul"),
        (
            "*out = in[0] * in[1];".to_string(),
            "grad_in[0] = *grad_out * in[1]; grad_in[1] = *grad_out * in[0];".to_string()
        )
    );
    assert_eq!(
        reg.get_default_impl("teleport"),
        (
            "/* default forward fallback for teleport */".to_string(),
            "/* default adjoint fallback for teleport */".to_string()
        )
    );
}

#[test]
fn register_then_get_gives_it_back() {
    let mut reg = PrimitiveRegistry::new();
    reg.register(Primitive {
        name: "add".to_string(),
        dom: Space::Unit,
        cod: Space::Unit,
        family: PrimitiveFamily::Logic,
        forward_c: "f".to_string(),
        adjoint_c: "a".to_string(),
    });
    let add = reg.get("add").unwrap();
    assert_eq!(add.dom, Space::Unit);
    assert_eq!(add.family, PrimitiveFamily::Logic);
    assert_eq!(reg.get_default_impl("add"), ("f".to_string(), "a".to_string()));
    assert_eq!(reg.primitives.len(), 7);
    reg.register_defaults();
    assert_eq!(reg.get("add").unwrap().family, PrimitiveFamily::Scalar);
}

#[test]
fn lexer_reads_every_token_kind() {
    let mut lexer = Lexer::new("space A = Tensor<4>, // note\nflow f : A -> A = id(A) >> grad(x) || ~y");
    let tokens = lexer.tokenize();
    assert_eq!(
        tokens,
        vec![
            Token::SpaceKw,
            ident("A"),
            Token::Equals,
            ident("Tensor"),
            Token::LAngle,
            Token::Integer(4),
            Token::RAngle,
            Token::Comma,
            Token::FlowKw,
            ident("f"),
            Token::Colon,
            ident("A"),
            Token::Arrow,
            ident("A"),
            Token::Equals,
            Token::IdKw,
            Token::LParen,
            ident("A"),
            Token::RParen,
            Token::ChainOp,
            Token::GradKw,
            Token::LParen,
            ident("x"),
            Token::RParen,
            Token::ParallelOp,
            Token::Tilde,
            ident("y"),
            Token::Eof,
        ]
    );
}

#[test]
fn lexer_skips_unknown_characters_and_reads_unicode_words() {
    let mut lexer = Lexer::new("$ café_1 | - / >");
    assert_eq!(lexer.tokenize(), vec![ident("café_1"), Token::RAngle, Token::Eof]);
}

#[test]
fn lexer_reads_numbers_that_do_not_fit_as_zero() {
    let mut lexer = Lexer::new("99999999999999999999999999 007 ٣");
    assert_eq!(
        lexer.tokenize(),
        vec![Token::Integer(0), Token::Integer(7), Token::Integer(0), Token::Eof]
    );
}

#[test]
fn lexer_at_its_end_gives_only_eof() {
    let mut lexer = Lexer::new("x");
    assert_eq!(lexer.tokenize(), vec![ident("x"), Token::Eof]);
    assert_eq!(lexer.tokenize(), vec![Token::Eof]);
}

#[test]
fn parser_records_declarations() {
    let mut reg = PrimitiveRegistry::new();
    let decls = parse(
        "space A = Tensor<4>\nspace Q = Qubit\nlift : A -> Logic\nflow f : A -> Logic<8> = lift >> logic_step\nflow g = A || id\n",
        &mut reg,
    )
    .unwrap();
    assert_eq!(reg.declared_spaces.get("A"), Some(&Space::Tensor(4)));
    assert_eq!(reg.declared_spaces.get("Q"), Some(&Space::Qubit(2)));
    let lift = reg.get("lift").unwrap();
    assert_eq!(lift.dom, Space::Tensor(4));
    assert_eq!(lift.cod, Space::Logic(8));
    assert_eq!(lift.family, PrimitiveFamily::Tensor);
    assert_eq!(lift.forward_c, "/* primitive lift forward */");
    assert_eq!(lift.adjoint_c, "/* primitive lift adjoint */");
    assert_eq!(decls.len(), 2);
    assert_eq!(decls[0].name, "f");
    assert_eq!(decls[0].dom, Some(Space::Tensor(4)));
    assert_eq!(decls[0].cod, Some(Space::Logic(8)));
    assert!(matches!(&decls[0].body, Flow::Chain(a, b)
        if matches!(&**a, Flow::Primitive(n) if n == "lift")
        && matches!(&**b, Flow::Primitive(n) if n == "logic_step")));
    assert_eq!(decls[1].dom, None);
    assert!(matches!(&decls[1].body, Flow::Parallel(a, b)
        if matches!(&**a, Flow::Identity(Space::Tensor(4)))
        && matches!(&**b, Flow::Identity(Space::Unit))));
}

#[test]
fn parser_binds_parallel_tighter_than_chain() {
    let mut reg = PrimitiveRegistry::new();
    let decls = parse("flow f = a >> b || c\n", &mut reg).unwrap();
    assert!(matches!(&decls[0].body, Flow::Chain(a, bc)
        if matches!(&**a, Flow::Primitive(n) if n == "a")
        && matches!(&**bc, Flow::Parallel(_, _))));
}

#[test]
fn parser_skips_stray_tokens() {
    let mut reg = PrimitiveRegistry::new();
    let decls = parse("x y , ) flow f = ~grad(n)\n", &mut reg).unwrap();
    assert_eq!(decls.len(), 1);
    assert!(matches!(&decls[0].body, Flow::Feedback(d) if matches!(&**d, Flow::Derivative(_))));
}

#[test]
fn parser_errors_keep_earlier_declarations() {
    let mut reg = PrimitiveRegistry::new();
    let err = parse("space A = Tensor<8>\nspace 3", &mut reg).unwrap_err();
    assert_eq!(err, "Expected space identifier, got Integer(3)");
    assert_eq!(reg.declared_spaces.get("A"), Some(&Space::Tensor(8)));

    let mut reg = PrimitiveRegistry::new();
    assert_eq!(parse("space A = Tensor<x>", &mut reg).unwrap_err(), "Expected dimension, got Ident(\"x\")");
    assert_eq!(parse("space A = Qubit<x>", &mut reg).unwrap_err(), "Expected qubit count, got Ident(\"x\")");
    assert_eq!(parse("space A = MEA<x>", &mut reg).unwrap_err(), "Expected channel count, got Ident(\"x\")");
    assert_eq!(parse("space A = Bits<x>", &mut reg).unwrap_err(), "Expected bit count, got Ident(\"x\")");
    assert_eq!(parse("space A = Tensor<3", &mut reg).unwrap_err(), "Expected RAngle, got Eof");
    assert_eq!(parse("space A = =", &mut reg).unwrap_err(), "Expected space type specifier, got Equals");
    assert_eq!(parse("flow = x", &mut reg).unwrap_err(), "Expected flow name, got Equals");
    assert_eq!(parse("flow f = )", &mut reg).unwrap_err(), "Unexpected token in flow expression: RParen");
    assert_eq!(parse("flow f x", &mut reg).unwrap_err(), "Expected Equals, got Ident(\"x\")");
}

#[test]
fn type_checker_infers_types() {
    let mut reg = PrimitiveRegistry::new();
    let decls = parse(
        "flow p = neural_layer || add\nflow c = quantum_gate >> id >> quantum_gate\nflow d = grad(neural_layer)\nflow u = unknown\nflow t = ~(quantum_gate || logic_step)\n",
        &mut reg,
    )
    .unwrap();
    let checker = TypeChecker::new(&reg);
    assert_eq!(
        checker.infer_type(&decls[0].body),
        Ok((
            Space::Product(vec![Space::Tensor(128), scalar(), scalar()]),
            Space::Product(vec![Space::Tensor(64), scalar()])
        ))
    );
    assert_eq!(checker.infer_type(&decls[1].body), Ok((Space::Qubit(2), Space::Qubit(2))));
    assert_eq!(
        checker.infer_type(&decls[2].body),
        Ok((Space::Product(vec![Space::Tensor(128), Space::Tensor(64)]), Space::Tensor(128)))
    );
    assert_eq!(checker.infer_type(&decls[3].body), Ok((Space::Tensor(128), Space::Tensor(128))));
    assert_eq!(checker.infer_type(&decls[4].body), Ok((Space::Qubit(2), Space::Qubit(2))));
}

#[test]
fn type_checker_rejects_chain_mismatch() {
    let reg = PrimitiveRegistry::new();
    let checker = TypeChecker::new(&reg);
    let f = Flow::Chain(
        Box::new(Flow::Primitive("neural_layer".to_string())),
        Box::new(Flow::Primitive("neural_layer".to_string())),
    );
    assert_eq!(
        checker.infer_type(&f),
        Err("Chain mismatch: output of flow Tensor(64) does not match input of flow Tensor(128)".to_string())
    );
}

#[test]
fn feedback_of_a_non_product_keeps_the_domain() {
    let reg = PrimitiveRegistry::new();
    let checker = TypeChecker::new(&reg);
    let f = Flow::Feedback(Box::new(Flow::Primitive("neural_layer".to_string())));
    assert_eq!(checker.infer_type(&f), Ok((Space::Tensor(128), Space::Tensor(128))));
}

#[test]
fn feedback_around_the_empty_product_has_no_type() {
    let reg = PrimitiveRegistry::new();
    let checker = TypeChecker::new(&reg);
    let f = Flow::Feedback(Box::new(Flow::Identity(Space::Product(vec![]))));
    assert!(checker.try_infer_type(&f).is_none());
    let g = Flow::Feedback(Box::new(Flow::Identity(Space::Product(vec![Space::Unit]))));
    assert_eq!(checker.try_infer_type(&g), Some(Ok((Space::Unit, Space::Unit))));
}

#[test]
fn emitter_writes_the_runtime() {
    let reg = PrimitiveRegistry::new();
    let emitter = C99Emitter::new(&reg);
    let code = emitter.emit(&[]);
    assert!(code.starts_with("#include <stdio.h>\n#include <stdlib.h>\n#include <stdint.h>\n#include <math.h>\n\n"));
    assert!(code.contains("void logic_unpack_adjoint(const uint8_t* g_out, uint8_t* g_in, int bits)"));
    assert!(code.ends_with("    printf(\"Intelligence categorical runtime ready\\n\");\n    return 0;\n}\n"));
    let mut reg2 = PrimitiveRegistry::new();
    let decls = parse("flow f = add", &mut reg2).unwrap();
    assert_eq!(C99Emitter::new(&reg2).emit(&decls), code);
}

#[test]
fn parallel_wiring_is_associative_and_sizes_add_up() {
    let mut reg = PrimitiveRegistry::new();
    let decls = parse(
        "flow l = (add || logic_step) || neural_layer\nflow r = add || (logic_step || neural_layer)\n",
        &mut reg,
    )
    .unwrap();
    let checker = TypeChecker::new(&reg);
    let left = checker.infer_type(&decls[0].body).unwrap();
    let right = checker.infer_type(&decls[1].body).unwrap();
    assert_eq!(left, right);
    assert_eq!(
        left.0,
        Space::Product(vec![scalar(), scalar(), Space::Logic(8), Space::Tensor(128)])
    );
    let add_size = Space::Product(vec![scalar(), scalar()]).size_in_bytes();
    assert_eq!(left.0.size_in_bytes(), add_size + Space::Logic(8).size_in_bytes() + Space::Tensor(128).size_in_bytes());
}

#[test]
fn declarations_are_checked_against_their_annotations() {
    let mut reg = PrimitiveRegistry::new();
    let decls = parse(
        "space A = Tensor<128>\nflow ok : A -> Tensor<64> = neural_layer\nflow free = logic_step >> logic_step\n",
        &mut reg,
    )
    .unwrap();
    let checker = TypeChecker::new(&reg);
    assert_eq!(checker.check_declarations(&decls), Some(Ok(())));

    let mut reg = PrimitiveRegistry::new();
    let decls = parse("flow bad : Tensor<128> -> Tensor<128> = neural_layer\n", &mut reg).unwrap();
    let checker = TypeChecker::new(&reg);
    assert_eq!(
        checker.check_declarations(&decls),
        Some(Err(
            "type annotation mismatch for bad: inferred Tensor(128) -> Tensor(64), expected Tensor(128) -> Tensor(128)"
                .to_string()
        ))
    );
}

#[test]
fn first_declaration_without_a_type_is_reported() {
    let mut reg = PrimitiveRegistry::new();
    let decls = parse("flow good = add\nflow wrong = neural_layer >> neural_layer\nflow later = logic_step >> add\n", &mut reg).unwrap();
    let checker = TypeChecker::new(&reg);
    assert_eq!(
        checker.check_declarations(&decls),
        Some(Err(
            "type error in wrong: Chain mismatch: output of flow Tensor(64) does not match input of flow Tensor(128)"
                .to_string()
        ))
    );
    let f = FlowDecl {
        name: "loop".to_string(),
        dom: None,
        cod: None,
        body: Flow::Feedback(Box::new(Flow::Identity(Space::Product(vec![])))),
    };
    assert_eq!(checker.check_declarations(&[f]), None);
}

#[test]
fn composition_typing_is_associative() {
    let mut reg = PrimitiveRegistry::new();
    let decls = parse(
        "flow l = (logic_step >> id) >> logic_step\nflow r = logic_step >> (id >> logic_step)\n",
        &mut reg,
    )
    .unwrap();
    let checker = TypeChecker::new(&reg);
    let left = checker.infer_type(&decls[0].body);
    let right = checker.infer_type(&decls[1].body);
    assert_eq!(left, right);
    assert_eq!(left, Ok((Space::Logic(8), Space::Logic(8))));
}

#[test]
fn white_space_is_the_listed_code_points() {
    let listed = |c: char| {
        ('\u{0009}'..='\u{000D}').contains(&c)
            || c == '\u{0020}'
            || c == '\u{0085}'
            || c == '\u{00A0}'
            || c == '\u{1680}'
            || ('\u{2000}'..='\u{200A}').contains(&c)
            || c == '\u{2028}'
            || c == '\u{2029}'
            || c == '\u{202F}'
            || c == '\u{205F}'
            || c == '\u{3000}'
    };
    for c in (0u32..=0x10FFFF).filter_map(char::from_u32) {
        assert_eq!(c.is_whitespace(), listed(c), "{:?}", c);
    }
    let mut lexer = Lexer::new("flow\u{3000}f\u{2028}=\u{00A0}add");
    assert_eq!(
        lexer.tokenize(),
        vec![Token::FlowKw, ident("f"), Token::Equals, ident("add"), Token::Eof]
    );
}

#[test]
fn parallel_typing_is_associative_with_errors() {
    let reg = PrimitiveRegistry::new();
    let checker = TypeChecker::new(&reg);
    let bad = || Box::new(Flow::Chain(
        Box::new(Flow::Primitive("neural_layer".to_string())),
        Box::new(Flow::Primitive("neural_layer".to_string())),
    ));
    let ok = || Box::new(Flow::Primitive("add".to_string()));
    let left = Flow::Parallel(Box::new(Flow::Parallel(ok(), bad())), ok());
    let right = Flow::Parallel(ok(), Box::new(Flow::Parallel(bad(), ok())));
    assert_eq!(checker.infer_type(&left), checker.infer_type(&right));
    assert!(checker.infer_type(&left).is_err());
}
