use intelligence::bootstrap::ast::{debug_space as bootstrap_debug_space, Space as BootSpace};
use intelligence::bootstrap::lexer::{debug_token as bootstrap_debug_token, Token as BootToken};
use intelligence::language::{debug_space, Space};
use intelligence::syntax::{debug_token, Token};
use intelligence::text::usize_text;

#[test]
fn usize_text_is_decimal() {
    assert_eq!(usize_text(0), "0");
    assert_eq!(usize_text(7), "7");
    assert_eq!(usize_text(10), "10");
    assert_eq!(usize_text(128), "128");
    assert_eq!(usize_text(usize::MAX), format!("{}", usize::MAX));
}

#[test]
fn space_text_matches_derived_debug() {
    let spaces = vec![
        Space::Unit,
        Space::Scalar("f64".to_string()),
        Space::Scalar("quote\" and \\ and \n".to_string()),
        Space::Tensor { element: "f32".to_string(), shape: vec![] },
        Space::Tensor { element: "f32".to_string(), shape: vec![128] },
        Space::Tensor { element: "f32".to_string(), shape: vec![2, 3, 40] },
        Space::Quantum { qubits: 5 },
        Space::Organoid { pins: 0 },
        Space::Logic { bits: 64 },
        Space::Product(vec![]),
        Space::Product(vec![Space::Unit]),
        Space::Product(vec![
            Space::Logic { bits: 1 },
            Space::Product(vec![Space::Scalar("x".to_string()), Space::Unit]),
        ]),
    ];
    for s in &spaces {
        assert_eq!(debug_space(s), format!("{:?}", s));
    }
    assert_eq!(
        debug_space(&Space::Tensor { element: "f32".to_string(), shape: vec![128] }),
        "Tensor { element: \"f32\", shape: [128] }"
    );
}

#[test]
fn token_text_matches_derived_debug() {
    let tokens = vec![
        Token::SpaceKw,
        Token::FlowKw,
        Token::Ident("neural_layer".to_string()),
        Token::Number(64),
        Token::Equals,
        Token::Colon,
        Token::Arrow,
        Token::Chain,
        Token::Parallel,
        Token::Feedback,
        Token::LParen,
        Token::RParen,
        Token::LAngle,
        Token::RAngle,
        Token::Comma,
        Token::Eof,
    ];
    for t in &tokens {
        assert_eq!(debug_token(t), format!("{:?}", t));
    }
    assert_eq!(debug_token(&Token::Ident("a".to_string())), "Ident(\"a\")");
}

#[test]
fn bootstrap_space_text_matches_derived_debug() {
    let spaces = vec![
        BootSpace::Scalar("f64".to_string()),
        BootSpace::Tensor(128),
        BootSpace::Qubit(3),
        BootSpace::Organoid(0),
        BootSpace::Logic(9),
        BootSpace::Unit,
        BootSpace::Product(vec![]),
        BootSpace::Product(vec![BootSpace::Tensor(1), BootSpace::Product(vec![BootSpace::Unit])]),
    ];
    for s in &spaces {
        assert_eq!(bootstrap_debug_space(s), format!("{:?}", s));
    }
    assert_eq!(
        bootstrap_debug_space(&BootSpace::Product(vec![BootSpace::Tensor(2), BootSpace::Unit])),
        "Product([Tensor(2), Unit])"
    );
}

#[test]
fn bootstrap_token_text_matches_derived_debug() {
    let tokens = vec![
        BootToken::SpaceKw,
        BootToken::FlowKw,
        BootToken::Ident("x_1".to_string()),
        BootToken::Equals,
        BootToken::Colon,
        BootToken::Arrow,
        BootToken::ChainOp,
        BootToken::ParallelOp,
        BootToken::Tilde,
        BootToken::GradKw,
        BootToken::IdKw,
        BootToken::LParen,
        BootToken::RParen,
        BootToken::LAngle,
        BootToken::RAngle,
        BootToken::Comma,
        BootToken::Integer(12),
        BootToken::Eof,
    ];
    for t in &tokens {
        assert_eq!(bootstrap_debug_token(t), format!("{:?}", t));
    }
}
