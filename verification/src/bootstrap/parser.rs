//! The parser of the bootstrap compiler. It reads space, primitive and flow
//! declarations, records spaces and primitives in a registry as it goes, and
//! skips tokens that start no declaration.

use vstd::prelude::*;
use crate::bootstrap::ast::{Flow, FlowDecl, FlowDeclV, FlowV, Space, SpaceV, option_view};
use crate::bootstrap::lexer::{Token, TokenV, debug_token, token_debug, token_views};
use crate::bootstrap::registry::{Primitive, PrimitiveFamily, PrimitiveRegistry, PrimitiveV, RegistryV};
use crate::text::owned;
use crate::text::same_text;

verus! {

/// The token at `p`; past the end, `Eof`.
pub open spec fn tok(ts: Seq<TokenV>, p: int) -> TokenV {
    if 0 <= p < ts.len() {
        ts[p]
    } else {
        TokenV::Eof
    }
}

/// The position after `p`; the last position is never left.
pub open spec fn step(ts: Seq<TokenV>, p: int) -> int {
    if p + 1 < ts.len() {
        p + 1
    } else {
        p
    }
}

/// Consuming the token at `p`, which must be `expected`.
pub open spec fn expect_spec(ts: Seq<TokenV>, p: int, expected: TokenV) -> (int, Result<(), Seq<char>>) {
    let t = tok(ts, p);
    if t == expected {
        (step(ts, p), Ok(()))
    } else {
        (step(ts, p), Err("Expected "@ + token_debug(expected) + ", got "@ + token_debug(t)))
    }
}

/// An optional `<n>` argument at `p`; `what` begins the message for a
/// token that is not a number.
pub open spec fn dim_arg_spec(ts: Seq<TokenV>, p: int, what: Seq<char>) -> (int, Result<Option<usize>, Seq<char>>) {
    if tok(ts, p) == TokenV::LAngle {
        let p2 = step(ts, p);
        let p3 = step(ts, p2);
        match tok(ts, p2) {
            TokenV::Integer(d) => {
                let (p4, closed) = expect_spec(ts, p3, TokenV::RAngle);
                match closed {
                    Err(e) => (p4, Err(e)),
                    Ok(_) => (p4, Ok(Some(d))),
                }
            },
            other => (p3, Err(what + token_debug(other))),
        }
    } else {
        (p, Ok(None))
    }
}

/// A sized space: `<n>`, or `default` when no argument follows.
pub open spec fn sized(r: Result<Option<usize>, Seq<char>>, default: usize) -> Result<usize, Seq<char>> {
    match r {
        Err(e) => Err(e),
        Ok(Some(n)) => Ok(n),
        Ok(None) => Ok(default),
    }
}

/// A space type at `p`: a declared space, a sized space kind with an
/// optional `<n>`, or any other name, read as a scalar of that name.
pub open spec fn space_type_spec(ts: Seq<TokenV>, p: int, spaces: Map<Seq<char>, SpaceV>) -> (int, Result<SpaceV, Seq<char>>) {
    let p1 = step(ts, p);
    match tok(ts, p) {
        TokenV::Ident(kind) => if spaces.contains_key(kind) {
            (p1, Ok(spaces[kind]))
        } else if kind == "Tensor"@ || kind == "Array"@ {
            let (p2, d) = dim_arg_spec(ts, p1, "Expected dimension, got "@);
            (p2, match sized(d, 128) { Err(e) => Err(e), Ok(n) => Ok(SpaceV::Tensor(n)) })
        } else if kind == "Qubit"@ || kind == "Quantum"@ {
            let (p2, d) = dim_arg_spec(ts, p1, "Expected qubit count, got "@);
            (p2, match sized(d, 2) { Err(e) => Err(e), Ok(n) => Ok(SpaceV::Qubit(n)) })
        } else if kind == "Organoid"@ || kind == "MEA"@ {
            let (p2, d) = dim_arg_spec(ts, p1, "Expected channel count, got "@);
            (p2, match sized(d, 64) { Err(e) => Err(e), Ok(n) => Ok(SpaceV::Organoid(n)) })
        } else if kind == "Logic"@ || kind == "Bits"@ {
            let (p2, d) = dim_arg_spec(ts, p1, "Expected bit count, got "@);
            (p2, match sized(d, 8) { Err(e) => Err(e), Ok(n) => Ok(SpaceV::Logic(n)) })
        } else {
            (p1, Ok(SpaceV::Scalar(kind)))
        },
        other => (p1, Err("Expected space type specifier, got "@ + token_debug(other))),
    }
}

/// The sizes of the sized space kinds. Without a `<` after it, `Tensor` or
/// `Array` is a tensor of 128 elements, `Qubit` or `Quantum` a register of 2
/// qubits, `Organoid` or `MEA` 64 channels, and `Logic` or `Bits` 8 bits;
/// followed by `<n>`, each has size `n`. A declared space of the same name
/// is used instead, and any other name is a scalar of that name.
pub proof fn lemma_space_type_sizes(ts: Seq<TokenV>, p: int, spaces: Map<Seq<char>, SpaceV>, kind: Seq<char>, n: usize)
    requires
        tok(ts, p) == TokenV::Ident(kind),
    ensures
        spaces.contains_key(kind) ==> space_type_spec(ts, p, spaces).1 == Ok::<SpaceV, Seq<char>>(spaces[kind]),
        !spaces.contains_key(kind) && tok(ts, step(ts, p)) != TokenV::LAngle ==> {
            &&& (kind == "Tensor"@ || kind == "Array"@) ==> space_type_spec(ts, p, spaces).1
                == Ok::<SpaceV, Seq<char>>(SpaceV::Tensor(128))
            &&& (kind == "Qubit"@ || kind == "Quantum"@) ==> space_type_spec(ts, p, spaces).1
                == Ok::<SpaceV, Seq<char>>(SpaceV::Qubit(2))
            &&& (kind == "Organoid"@ || kind == "MEA"@) ==> space_type_spec(ts, p, spaces).1
                == Ok::<SpaceV, Seq<char>>(SpaceV::Organoid(64))
            &&& (kind == "Logic"@ || kind == "Bits"@) ==> space_type_spec(ts, p, spaces).1
                == Ok::<SpaceV, Seq<char>>(SpaceV::Logic(8))
        },
        !spaces.contains_key(kind) && tok(ts, step(ts, p)) == TokenV::LAngle && tok(ts, step(ts, step(ts, p)))
            == TokenV::Integer(n) && tok(ts, step(ts, step(ts, step(ts, p)))) == TokenV::RAngle ==> {
            &&& (kind == "Tensor"@ || kind == "Array"@) ==> space_type_spec(ts, p, spaces).1
                == Ok::<SpaceV, Seq<char>>(SpaceV::Tensor(n))
            &&& (kind == "Qubit"@ || kind == "Quantum"@) ==> space_type_spec(ts, p, spaces).1
                == Ok::<SpaceV, Seq<char>>(SpaceV::Qubit(n))
            &&& (kind == "Organoid"@ || kind == "MEA"@) ==> space_type_spec(ts, p, spaces).1
                == Ok::<SpaceV, Seq<char>>(SpaceV::Organoid(n))
            &&& (kind == "Logic"@ || kind == "Bits"@) ==> space_type_spec(ts, p, spaces).1
                == Ok::<SpaceV, Seq<char>>(SpaceV::Logic(n))
        },
        !spaces.contains_key(kind) && kind != "Tensor"@ && kind != "Array"@ && kind != "Qubit"@
            && kind != "Quantum"@ && kind != "Organoid"@ && kind != "MEA"@ && kind != "Logic"@
            && kind != "Bits"@ ==> space_type_spec(ts, p, spaces).1 == Ok::<SpaceV, Seq<char>>(SpaceV::Scalar(kind)),
{
    reveal_strlit("Tensor");
    reveal_strlit("Array");
    reveal_strlit("Qubit");
    reveal_strlit("Quantum");
    reveal_strlit("Organoid");
    reveal_strlit("MEA");
    reveal_strlit("Logic");
    reveal_strlit("Bits");
    assert("Tensor"@[0] == 'T' && "Array"@[0] == 'A' && "Qubit"@[0] == 'Q' && "Quantum"@[0] == 'Q');
    assert("Organoid"@[0] == 'O' && "MEA"@[0] == 'M' && "Logic"@[0] == 'L' && "Bits"@[0] == 'B');
}

/// A primary flow at `p`: `~` and a primary, `grad(flow)`, `id` or
/// `id(space)`, a declared space's identity, a primitive, or a
/// parenthesized flow.
pub open spec fn primary_spec(ts: Seq<TokenV>, p: int, spaces: Map<Seq<char>, SpaceV>) -> (int, Result<FlowV, Seq<char>>)
    decreases ts.len() - p, 0int,
{
    let p1 = step(ts, p);
    match tok(ts, p) {
        TokenV::Tilde => if p < p1 {
            let (j, inner) = primary_spec(ts, p1, spaces);
            match inner {
                Err(e) => (j, Err(e)),
                Ok(f) => (j, Ok(FlowV::Feedback(Box::new(f)))),
            }
        } else {
            (p1, Err(Seq::empty()))
        },
        TokenV::GradKw => {
            let (p2, open) = expect_spec(ts, p1, TokenV::LParen);
            match open {
                Err(e) => (p2, Err(e)),
                Ok(_) => if p < p2 <= ts.len() {
                    let (p3, inner) = chain_spec(ts, p2, spaces);
                    match inner {
                        Err(e) => (p3, Err(e)),
                        Ok(f) => {
                            let (p4, closed) = expect_spec(ts, p3, TokenV::RParen);
                            match closed {
                                Err(e) => (p4, Err(e)),
                                Ok(_) => (p4, Ok(FlowV::Derivative(Box::new(f)))),
                            }
                        },
                    }
                } else {
                    (p2, Err(Seq::empty()))
                },
            }
        },
        TokenV::IdKw => if tok(ts, p1) == TokenV::LParen {
            let (p3, s) = space_type_spec(ts, step(ts, p1), spaces);
            match s {
                Err(e) => (p3, Err(e)),
                Ok(s) => {
                    let (p4, closed) = expect_spec(ts, p3, TokenV::RParen);
                    match closed {
                        Err(e) => (p4, Err(e)),
                        Ok(_) => (p4, Ok(FlowV::Identity(s))),
                    }
                },
            }
        } else {
            (p1, Ok(FlowV::Identity(SpaceV::Unit)))
        },
        TokenV::Ident(name) => if spaces.contains_key(name) {
            (p1, Ok(FlowV::Identity(spaces[name])))
        } else {
            (p1, Ok(FlowV::Primitive(name)))
        },
        TokenV::LParen => if p < p1 <= ts.len() {
            let (p2, inner) = chain_spec(ts, p1, spaces);
            match inner {
                Err(e) => (p2, Err(e)),
                Ok(f) => {
                    let (p3, closed) = expect_spec(ts, p2, TokenV::RParen);
                    match closed {
                        Err(e) => (p3, Err(e)),
                        Ok(_) => (p3, Ok(f)),
                    }
                },
            }
        } else {
            (p1, Err(Seq::empty()))
        },
        other => (p, Err("Unexpected token in flow expression: "@ + token_debug(other))),
    }
}

/// The `||` wirings that follow `left` at `p`.
pub open spec fn par_loop_spec(ts: Seq<TokenV>, p: int, left: FlowV, spaces: Map<Seq<char>, SpaceV>) -> (int, Result<FlowV, Seq<char>>)
    decreases ts.len() - p, 1int,
{
    if tok(ts, p) == TokenV::ParallelOp {
        let p1 = step(ts, p);
        if p < p1 <= ts.len() {
            let (j, right) = primary_spec(ts, p1, spaces);
            match right {
                Err(e) => (j, Err(e)),
                Ok(r) => if p < j <= ts.len() {
                    par_loop_spec(ts, j, FlowV::Parallel(Box::new(left), Box::new(r)), spaces)
                } else {
                    (j, Err(Seq::empty()))
                },
            }
        } else {
            (p1, Err(Seq::empty()))
        }
    } else {
        (p, Ok(left))
    }
}

/// Primaries joined by `||`, left to right.
pub open spec fn parallel_spec(ts: Seq<TokenV>, p: int, spaces: Map<Seq<char>, SpaceV>) -> (int, Result<FlowV, Seq<char>>)
    decreases ts.len() - p, 2int,
{
    let (j, left) = primary_spec(ts, p, spaces);
    match left {
        Err(e) => (j, Err(e)),
        Ok(l) => if p <= j <= ts.len() {
            par_loop_spec(ts, j, l, spaces)
        } else {
            (j, Err(Seq::empty()))
        },
    }
}

/// The `>>` compositions that follow `left` at `p`.
pub open spec fn chain_loop_spec(ts: Seq<TokenV>, p: int, left: FlowV, spaces: Map<Seq<char>, SpaceV>) -> (int, Result<FlowV, Seq<char>>)
    decreases ts.len() - p, 3int,
{
    if tok(ts, p) == TokenV::ChainOp {
        let p1 = step(ts, p);
        if p < p1 <= ts.len() {
            let (j, right) = parallel_spec(ts, p1, spaces);
            match right {
                Err(e) => (j, Err(e)),
                Ok(r) => if p < j <= ts.len() {
                    chain_loop_spec(ts, j, FlowV::Chain(Box::new(left), Box::new(r)), spaces)
                } else {
                    (j, Err(Seq::empty()))
                },
            }
        } else {
            (p1, Err(Seq::empty()))
        }
    } else {
        (p, Ok(left))
    }
}

/// A flow expression at `p`: parallel wirings joined by `>>`, left to right;
/// `||` binds tighter than `>>`.
pub open spec fn chain_spec(ts: Seq<TokenV>, p: int, spaces: Map<Seq<char>, SpaceV>) -> (int, Result<FlowV, Seq<char>>)
    decreases ts.len() - p, 4int,
{
    let (j, left) = parallel_spec(ts, p, spaces);
    match left {
        Err(e) => (j, Err(e)),
        Ok(l) => if p <= j <= ts.len() {
            chain_loop_spec(ts, j, l, spaces)
        } else {
            (j, Err(Seq::empty()))
        },
    }
}

/// The family of a primitive of type `dom -> cod`: the first of tensor,
/// quantum, organoid and logic that either side belongs to, else scalar.
pub open spec fn family_of(dom: SpaceV, cod: SpaceV) -> PrimitiveFamily {
    if dom is Tensor || cod is Tensor {
        PrimitiveFamily::Tensor
    } else if dom is Qubit || cod is Qubit {
        PrimitiveFamily::Quantum
    } else if dom is Organoid || cod is Organoid {
        PrimitiveFamily::Organoid
    } else if dom is Logic || cod is Logic {
        PrimitiveFamily::Logic
    } else {
        PrimitiveFamily::Scalar
    }
}

/// The primitive that a declaration `name : dom -> cod` registers.
pub open spec fn declared_primitive(name: Seq<char>, dom: SpaceV, cod: SpaceV) -> PrimitiveV {
    PrimitiveV {
        name,
        dom,
        cod,
        family: family_of(dom, cod),
        forward_c: "/* primitive "@ + name + " forward */"@,
        adjoint_c: "/* primitive "@ + name + " adjoint */"@,
    }
}

/// A space declaration at `p` (`space name = type`, or `space name` alone,
/// which declares nothing).
pub open spec fn space_decl_spec(ts: Seq<TokenV>, p: int, reg: RegistryV) -> (int, RegistryV, Result<(), Seq<char>>) {
    let p1 = step(ts, p);
    let p2 = step(ts, p1);
    match tok(ts, p1) {
        TokenV::Ident(name) => if tok(ts, p2) == TokenV::Equals {
            let (p4, s) = space_type_spec(ts, step(ts, p2), reg.declared_spaces);
            match s {
                Err(e) => (p4, reg, Err(e)),
                Ok(s) => (
                    p4,
                    RegistryV {
                        primitives: reg.primitives,
                        declared_spaces: reg.declared_spaces.insert(name, s),
                    },
                    Ok(()),
                ),
            }
        } else {
            (p2, reg, Ok(()))
        },
        other => (p2, reg, Err("Expected space identifier, got "@ + token_debug(other))),
    }
}

/// A primitive declaration `name : dom -> cod` at `p`.
pub open spec fn prim_decl_spec(ts: Seq<TokenV>, p: int, reg: RegistryV) -> (int, RegistryV, Result<(), Seq<char>>) {
    let p1 = step(ts, p);
    match tok(ts, p) {
        TokenV::Ident(name) => {
            let (p2, colon) = expect_spec(ts, p1, TokenV::Colon);
            match colon {
                Err(e) => (p2, reg, Err(e)),
                Ok(_) => {
                    let (p3, dom) = space_type_spec(ts, p2, reg.declared_spaces);
                    match dom {
                        Err(e) => (p3, reg, Err(e)),
                        Ok(dom) => {
                            let (p4, arrow) = expect_spec(ts, p3, TokenV::Arrow);
                            match arrow {
                                Err(e) => (p4, reg, Err(e)),
                                Ok(_) => {
                                    let (p5, cod) = space_type_spec(ts, p4, reg.declared_spaces);
                                    match cod {
                                        Err(e) => (p5, reg, Err(e)),
                                        Ok(cod) => (
                                            p5,
                                            RegistryV {
                                                primitives: reg.primitives.insert(
                                                    name,
                                                    declared_primitive(name, dom, cod),
                                                ),
                                                declared_spaces: reg.declared_spaces,
                                            },
                                            Ok(()),
                                        ),
                                    }
                                },
                            }
                        },
                    }
                },
            }
        },
        other => (p1, reg, Err("Expected primitive identifier, got "@ + token_debug(other))),
    }
}

/// The optional `: dom -> cod` annotation at `p`.
pub open spec fn annotation_spec(ts: Seq<TokenV>, p: int, spaces: Map<Seq<char>, SpaceV>) -> (int, Result<Option<(SpaceV, SpaceV)>, Seq<char>>) {
    if tok(ts, p) == TokenV::Colon {
        let (q2, d) = space_type_spec(ts, step(ts, p), spaces);
        match d {
            Err(e) => (q2, Err(e)),
            Ok(d) => {
                let (q3, arrow) = expect_spec(ts, q2, TokenV::Arrow);
                match arrow {
                    Err(e) => (q3, Err(e)),
                    Ok(_) => {
                        let (q4, c) = space_type_spec(ts, q3, spaces);
                        match c {
                            Err(e) => (q4, Err(e)),
                            Ok(c) => (q4, Ok(Some((d, c)))),
                        }
                    },
                }
            },
        }
    } else {
        (p, Ok(None))
    }
}

/// A flow declaration `flow name [: dom -> cod] = body` at `p`.
pub open spec fn flow_decl_spec(ts: Seq<TokenV>, p: int, spaces: Map<Seq<char>, SpaceV>) -> (int, Result<FlowDeclV, Seq<char>>) {
    let p1 = step(ts, p);
    let p2 = step(ts, p1);
    match tok(ts, p1) {
        TokenV::Ident(name) => {
            let (p3, ann) = annotation_spec(ts, p2, spaces);
            match ann {
                Err(e) => (p3, Err(e)),
                Ok(ann) => {
                    let (p4, eq) = expect_spec(ts, p3, TokenV::Equals);
                    match eq {
                        Err(e) => (p4, Err(e)),
                        Ok(_) => {
                            let (p5, body) = chain_spec(ts, p4, spaces);
                            match body {
                                Err(e) => (p5, Err(e)),
                                Ok(b) => (
                                    p5,
                                    Ok(
                                        FlowDeclV {
                                            name,
                                            dom: match ann {
                                                Some(a) => Some(a.0),
                                                None => None,
                                            },
                                            cod: match ann {
                                                Some(a) => Some(a.1),
                                                None => None,
                                            },
                                            body: b,
                                        },
                                    ),
                                ),
                            }
                        },
                    }
                },
            }
        },
        other => (p2, Err("Expected flow name, got "@ + token_debug(other))),
    }
}

/// The declarations from `p` to `Eof`, after the declarations `decls`:
/// the final position, the registry, and the flow declarations or the
/// first error. Tokens that start no declaration are skipped.
pub open spec fn parse_spec(ts: Seq<TokenV>, p: int, reg: RegistryV, decls: Seq<FlowDeclV>) -> (int, RegistryV, Result<Seq<FlowDeclV>, Seq<char>>)
    decreases ts.len() - p,
{
    let p1 = step(ts, p);
    match tok(ts, p) {
        TokenV::Eof => (p, reg, Ok(decls)),
        TokenV::SpaceKw => {
            let (q, reg1, r) = space_decl_spec(ts, p, reg);
            match r {
                Err(e) => (q, reg1, Err(e)),
                Ok(_) => if p < q <= ts.len() {
                    parse_spec(ts, q, reg1, decls)
                } else {
                    (q, reg1, Err(Seq::empty()))
                },
            }
        },
        TokenV::FlowKw => {
            let (q, d) = flow_decl_spec(ts, p, reg.declared_spaces);
            match d {
                Err(e) => (q, reg, Err(e)),
                Ok(d) => if p < q <= ts.len() {
                    parse_spec(ts, q, reg, decls.push(d))
                } else {
                    (q, reg, Err(Seq::empty()))
                },
            }
        },
        TokenV::Ident(_) => if tok(ts, p + 1) == TokenV::Colon && p + 1 < ts.len() {
            let (q, reg1, r) = prim_decl_spec(ts, p, reg);
            match r {
                Err(e) => (q, reg1, Err(e)),
                Ok(_) => if p < q <= ts.len() {
                    parse_spec(ts, q, reg1, decls)
                } else {
                    (q, reg1, Err(Seq::empty()))
                },
            }
        } else if p < p1 {
            parse_spec(ts, p1, reg, decls)
        } else {
            (p1, reg, Err(Seq::empty()))
        },
        _ => if p < p1 {
            parse_spec(ts, p1, reg, decls)
        } else {
            (p1, reg, Err(Seq::empty()))
        },
    }
}

/// `later` still knows every primitive and every space that `earlier`
/// knew.
pub open spec fn keeps_names(earlier: RegistryV, later: RegistryV) -> bool {
    &&& earlier.primitives.dom().subset_of(later.primitives.dom())
    &&& earlier.declared_spaces.dom().subset_of(later.declared_spaces.dom())
}

/// Parsing never forgets a registered primitive or a declared space: it
/// only adds or replaces them, whether it succeeds or stops at an error.
pub proof fn lemma_parse_keeps_names(ts: Seq<TokenV>, p: int, reg: RegistryV, decls: Seq<FlowDeclV>)
    ensures
        keeps_names(reg, parse_spec(ts, p, reg, decls).1),
    decreases ts.len() - p,
{
    let p1 = step(ts, p);
    match tok(ts, p) {
        TokenV::Eof => {},
        TokenV::SpaceKw => {
            let (q, reg1, r) = space_decl_spec(ts, p, reg);
            if r is Ok && p < q <= ts.len() {
                lemma_parse_keeps_names(ts, q, reg1, decls);
            }
        },
        TokenV::FlowKw => {
            let (q, d) = flow_decl_spec(ts, p, reg.declared_spaces);
            if d is Ok && p < q <= ts.len() {
                lemma_parse_keeps_names(ts, q, reg, decls.push(d->Ok_0));
            }
        },
        TokenV::Ident(_) => {
            if tok(ts, p + 1) == TokenV::Colon && p + 1 < ts.len() {
                let (q, reg1, r) = prim_decl_spec(ts, p, reg);
                if r is Ok && p < q <= ts.len() {
                    lemma_parse_keeps_names(ts, q, reg1, decls);
                }
            } else if p < p1 {
                lemma_parse_keeps_names(ts, p1, reg, decls);
            }
        },
        _ => {
            if p < p1 {
                lemma_parse_keeps_names(ts, p1, reg, decls);
            }
        },
    }
}

/// The view of an outcome that carries a value.
pub open spec fn result_view<T: View>(r: Result<T, String>) -> Result<T::V, Seq<char>> {
    match r {
        Ok(v) => Ok(v@),
        Err(m) => Err(m@),
    }
}

/// The view of an outcome without a value.
pub open spec fn unit_view(r: Result<(), String>) -> Result<(), Seq<char>> {
    match r {
        Ok(_) => Ok(()),
        Err(m) => Err(m@),
    }
}

/// The view of an outcome that may carry a number.
pub open spec fn dim_view(r: Result<Option<usize>, String>) -> Result<Option<usize>, Seq<char>> {
    match r {
        Ok(d) => Ok(d),
        Err(m) => Err(m@),
    }
}

/// The view of a sequence of flow declarations.
pub open spec fn decl_views(ds: Seq<FlowDecl>) -> Seq<FlowDeclV> {
    ds.map_values(|d: FlowDecl| d@)
}

/// The view of the outcome of a parse.
pub open spec fn decls_view(r: Result<Vec<FlowDecl>, String>) -> Result<Seq<FlowDeclV>, Seq<char>> {
    match r {
        Ok(ds) => Ok(decl_views(ds@)),
        Err(m) => Err(m@),
    }
}

/// A parser over a sequence of tokens.
pub struct Parser {
    tokens: Vec<Token>,
    pos: usize,
}

impl Parser {
    /// The tokens, as values.
    pub closed spec fn token_seq(&self) -> Seq<TokenV> {
        token_views(self.tokens@)
    }

    /// The position of the next token.
    pub closed spec fn position(&self) -> int {
        self.pos as int
    }

    /// The tokens end with `Eof` and the position is on a token, as they
    /// are for the output of the lexer.
    pub open spec fn ready(&self) -> bool {
        &&& self.token_seq().len() > 0
        &&& self.token_seq().last() == TokenV::Eof
        &&& 0 <= self.position() < self.token_seq().len()
    }

    /// Same tokens as `other`, still ready, and not behind it.
    spec fn moved_on(&self, other: &Parser) -> bool {
        &&& self.tokens@ == other.tokens@
        &&& self.ready()
        &&& self.pos >= other.pos
    }

    /// A parser at the first of `tokens`.
    pub fn new(tokens: Vec<Token>) -> (r: Self)
        ensures
            r.token_seq() == token_views(tokens@),
            r.position() == 0,
    {
        Self { tokens, pos: 0 }
    }

    fn peek(&self) -> (r: &Token)
        requires
            self.ready(),
        ensures
            r@ == tok(self.token_seq(), self.position()),
    {
        &self.tokens[self.pos]
    }

    fn advance(&mut self) -> (r: Token)
        requires
            old(self).ready(),
        ensures
            final(self).moved_on(old(self)),
            final(self).position() == step(old(self).token_seq(), old(self).position()),
            r@ == tok(old(self).token_seq(), old(self).position()),
    {
        let tok = self.tokens[self.pos].clone();
        if self.pos < self.tokens.len() - 1 {
            self.pos = self.pos + 1;
        }
        tok
    }

    fn peek_n(&self, offset: usize) -> (r: Option<&Token>)
        requires
            self.ready(),
            self.pos + offset <= usize::MAX,
        ensures
            match r {
                Some(t) => self.position() + offset < self.token_seq().len() && t@ == self.token_seq()[self.position() + offset],
                None => self.position() + offset >= self.token_seq().len(),
            },
    {
        let idx = self.pos + offset;
        if idx < self.tokens.len() {
            Some(&self.tokens[idx])
        } else {
            None
        }
    }

    fn expect(&mut self, expected: Token) -> (r: Result<(), String>)
        requires
            old(self).ready(),
        ensures
            final(self).moved_on(old(self)),
            (final(self).position(), unit_view(r)) == expect_spec(
                old(self).token_seq(),
                old(self).position(),
                expected@,
            ),
    {
        let tok = self.advance();
        if tok == expected {
            Ok(())
        } else {
            let mut m = owned("Expected ");
            m.append(debug_token(&expected).as_str());
            m.append(", got ");
            m.append(debug_token(&tok).as_str());
            assert(m@ =~= "Expected "@ + token_debug(expected@) + ", got "@ + token_debug(tok@));
            Err(m)
        }
    }

    fn parse_dim_arg(&mut self, what: &str) -> (r: Result<Option<usize>, String>)
        requires
            old(self).ready(),
        ensures
            final(self).moved_on(old(self)),
            (final(self).position(), dim_view(r)) == dim_arg_spec(
                old(self).token_seq(),
                old(self).position(),
                what@,
            ),
    {
        if *self.peek() == Token::LAngle {
            self.advance();
            let dim = match self.advance() {
                Token::Integer(d) => d,
                other => {
                    let mut m = owned(what);
                    m.append(debug_token(&other).as_str());
                    return Err(m);
                },
            };
            self.expect(Token::RAngle)?;
            Ok(Some(dim))
        } else {
            Ok(None)
        }
    }

    fn parse_space_type(&mut self, registry: &PrimitiveRegistry) -> (r: Result<Space, String>)
        requires
            old(self).ready(),
        ensures
            final(self).moved_on(old(self)),
            (final(self).position(), result_view(r)) == space_type_spec(
                old(self).token_seq(),
                old(self).position(),
                registry@.declared_spaces,
            ),
    {
        match self.advance() {
            Token::Ident(kind) => {
                let k = kind.as_str();
                let resolved = if registry.declared_spaces.contains_key(k) {
                    match registry.declared_spaces.get(k) {
                        Some(space) => space.clone(),
                        None => Space::Scalar(kind.clone()),
                    }
                } else if same_text(k, "Tensor") || same_text(k, "Array") {
                    match self.parse_dim_arg("Expected dimension, got ")? {
                        Some(d) => Space::Tensor(d),
                        None => Space::Tensor(128),
                    }
                } else if same_text(k, "Qubit") || same_text(k, "Quantum") {
                    match self.parse_dim_arg("Expected qubit count, got ")? {
                        Some(d) => Space::Qubit(d),
                        None => Space::Qubit(2),
                    }
                } else if same_text(k, "Organoid") || same_text(k, "MEA") {
                    match self.parse_dim_arg("Expected channel count, got ")? {
                        Some(d) => Space::Organoid(d),
                        None => Space::Organoid(64),
                    }
                } else if same_text(k, "Logic") || same_text(k, "Bits") {
                    match self.parse_dim_arg("Expected bit count, got ")? {
                        Some(d) => Space::Logic(d),
                        None => Space::Logic(8),
                    }
                } else {
                    Space::Scalar(kind)
                };
                Ok(resolved)
            },
            other => {
                let mut m = owned("Expected space type specifier, got ");
                m.append(debug_token(&other).as_str());
                assert(m@ =~= "Expected space type specifier, got "@ + token_debug(other@));
                Err(m)
            },
        }
    }

    fn parse_flow_expr(&mut self, registry: &PrimitiveRegistry) -> (r: Result<Flow, String>)
        requires
            old(self).ready(),
        ensures
            final(self).moved_on(old(self)),
            (final(self).position(), result_view(r)) == chain_spec(
                old(self).token_seq(),
                old(self).position(),
                registry@.declared_spaces,
            ),
        decreases old(self).token_seq().len() - old(self).position(), 5int,
    {
        self.parse_chain(registry)
    }

    #[verifier::loop_isolation(false)]
    fn parse_chain(&mut self, registry: &PrimitiveRegistry) -> (r: Result<Flow, String>)
        requires
            old(self).ready(),
        ensures
            final(self).moved_on(old(self)),
            (final(self).position(), result_view(r)) == chain_spec(
                old(self).token_seq(),
                old(self).position(),
                registry@.declared_spaces,
            ),
        decreases old(self).token_seq().len() - old(self).position(), 4int,
    {
        let ghost ts = self.token_seq();
        let ghost p0 = self.position();
        let ghost sp = registry@.declared_spaces;
        let mut left = self.parse_parallel(registry)?;
        while *self.peek() == Token::ChainOp
            invariant
                self.moved_on(old(self)),
                ts == self.token_seq(),
                chain_spec(ts, p0, sp) == chain_loop_spec(ts, self.position(), left@, sp),
            decreases self.tokens@.len() - self.pos,
        {
            self.advance();
            let right = self.parse_parallel(registry)?;
            left = Flow::Chain(Box::new(left), Box::new(right));
        }
        Ok(left)
    }

    #[verifier::loop_isolation(false)]
    fn parse_parallel(&mut self, registry: &PrimitiveRegistry) -> (r: Result<Flow, String>)
        requires
            old(self).ready(),
        ensures
            final(self).moved_on(old(self)),
            (final(self).position(), result_view(r)) == parallel_spec(
                old(self).token_seq(),
                old(self).position(),
                registry@.declared_spaces,
            ),
        decreases old(self).token_seq().len() - old(self).position(), 2int,
    {
        let ghost ts = self.token_seq();
        let ghost p0 = self.position();
        let ghost sp = registry@.declared_spaces;
        let mut left = self.parse_primary(registry)?;
        while *self.peek() == Token::ParallelOp
            invariant
                self.moved_on(old(self)),
                ts == self.token_seq(),
                parallel_spec(ts, p0, sp) == par_loop_spec(ts, self.position(), left@, sp),
            decreases self.tokens@.len() - self.pos,
        {
            self.advance();
            let right = self.parse_primary(registry)?;
            left = Flow::Parallel(Box::new(left), Box::new(right));
        }
        Ok(left)
    }

    fn parse_primary(&mut self, registry: &PrimitiveRegistry) -> (r: Result<Flow, String>)
        requires
            old(self).ready(),
        ensures
            final(self).moved_on(old(self)),
            (final(self).position(), result_view(r)) == primary_spec(
                old(self).token_seq(),
                old(self).position(),
                registry@.declared_spaces,
            ),
        decreases old(self).token_seq().len() - old(self).position(), 0int,
    {
        match self.peek().clone() {
            Token::Tilde => {
                self.advance();
                let inner = self.parse_primary(registry)?;
                Ok(Flow::Feedback(Box::new(inner)))
            },
            Token::GradKw => {
                self.advance();
                self.expect(Token::LParen)?;
                let inner = self.parse_flow_expr(registry)?;
                self.expect(Token::RParen)?;
                Ok(Flow::Derivative(Box::new(inner)))
            },
            Token::IdKw => {
                self.advance();
                let space = if *self.peek() == Token::LParen {
                    self.advance();
                    let s = self.parse_space_type(registry)?;
                    self.expect(Token::RParen)?;
                    s
                } else {
                    Space::Unit
                };
                Ok(Flow::Identity(space))
            },
            Token::Ident(name) => {
                self.advance();
                match registry.declared_spaces.get(name.as_str()) {
                    Some(space) => Ok(Flow::Identity(space.clone())),
                    None => Ok(Flow::Primitive(name)),
                }
            },
            Token::LParen => {
                self.advance();
                let inner = self.parse_flow_expr(registry)?;
                self.expect(Token::RParen)?;
                Ok(inner)
            },
            other => {
                let mut m = owned("Unexpected token in flow expression: ");
                m.append(debug_token(&other).as_str());
                assert(m@ =~= "Unexpected token in flow expression: "@ + token_debug(other@));
                Err(m)
            },
        }
    }

    fn parse_space_decl(&mut self, registry: &mut PrimitiveRegistry) -> (r: Result<(), String>)
        requires
            old(self).ready(),
        ensures
            final(self).moved_on(old(self)),
            tok(old(self).token_seq(), old(self).position()) != TokenV::Eof ==> final(self).pos > old(self).pos,
            (final(self).position(), final(registry)@, unit_view(r)) == space_decl_spec(
                old(self).token_seq(),
                old(self).position(),
                old(registry)@,
            ),
    {
        self.advance();
        let name = match self.advance() {
            Token::Ident(n) => n,
            other => {
                let mut m = owned("Expected space identifier, got ");
                m.append(debug_token(&other).as_str());
                assert(m@ =~= "Expected space identifier, got "@ + token_debug(other@));
                return Err(m);
            },
        };
        if *self.peek() == Token::Equals {
            self.advance();
            let space_type = self.parse_space_type(registry)?;
            registry.declared_spaces.insert(name, space_type);
        }
        Ok(())
    }

    fn parse_primitive_decl(&mut self, registry: &mut PrimitiveRegistry) -> (r: Result<(), String>)
        requires
            old(self).ready(),
        ensures
            final(self).moved_on(old(self)),
            tok(old(self).token_seq(), old(self).position()) != TokenV::Eof ==> final(self).pos > old(self).pos,
            (final(self).position(), final(registry)@, unit_view(r)) == prim_decl_spec(
                old(self).token_seq(),
                old(self).position(),
                old(registry)@,
            ),
    {
        let name = match self.advance() {
            Token::Ident(n) => n,
            other => {
                let mut m = owned("Expected primitive identifier, got ");
                m.append(debug_token(&other).as_str());
                assert(m@ =~= "Expected primitive identifier, got "@ + token_debug(other@));
                return Err(m);
            },
        };
        self.expect(Token::Colon)?;
        let dom = self.parse_space_type(registry)?;
        self.expect(Token::Arrow)?;
        let cod = self.parse_space_type(registry)?;
        let family = if matches!(dom, Space::Tensor(_)) || matches!(cod, Space::Tensor(_)) {
            PrimitiveFamily::Tensor
        } else if matches!(dom, Space::Qubit(_)) || matches!(cod, Space::Qubit(_)) {
            PrimitiveFamily::Quantum
        } else if matches!(dom, Space::Organoid(_)) || matches!(cod, Space::Organoid(_)) {
            PrimitiveFamily::Organoid
        } else if matches!(dom, Space::Logic(_)) || matches!(cod, Space::Logic(_)) {
            PrimitiveFamily::Logic
        } else {
            PrimitiveFamily::Scalar
        };
        let mut forward_c = owned("/* primitive ");
        forward_c.append(name.as_str());
        forward_c.append(" forward */");
        let mut adjoint_c = owned("/* primitive ");
        adjoint_c.append(name.as_str());
        adjoint_c.append(" adjoint */");
        let prim = Primitive { name: name.clone(), dom, cod, family, forward_c, adjoint_c };
        assert(prim@ =~= declared_primitive(name@, prim@.dom, prim@.cod));
        registry.register(prim);
        Ok(())
    }

    fn parse_flow_decl(&mut self, registry: &mut PrimitiveRegistry) -> (r: Result<FlowDecl, String>)
        requires
            old(self).ready(),
        ensures
            final(self).moved_on(old(self)),
            tok(old(self).token_seq(), old(self).position()) != TokenV::Eof ==> final(self).pos > old(self).pos,
            final(registry)@ == old(registry)@,
            (final(self).position(), result_view(r)) == flow_decl_spec(
                old(self).token_seq(),
                old(self).position(),
                old(registry)@.declared_spaces,
            ),
    {
        self.advance();
        let name = match self.advance() {
            Token::Ident(n) => n,
            other => {
                let mut m = owned("Expected flow name, got ");
                m.append(debug_token(&other).as_str());
                assert(m@ =~= "Expected flow name, got "@ + token_debug(other@));
                return Err(m);
            },
        };
        let mut dom: Option<Space> = None;
        let mut cod: Option<Space> = None;
        if *self.peek() == Token::Colon {
            self.advance();
            dom = Some(self.parse_space_type(registry)?);
            self.expect(Token::Arrow)?;
            cod = Some(self.parse_space_type(registry)?);
        }
        self.expect(Token::Equals)?;
        let body = self.parse_flow_expr(registry)?;
        Ok(FlowDecl { name, dom, cod, body })
    }

    /// One step of `parse`: the declaration at the current token, or a
    /// skipped token.
    fn parse_declaration(&mut self, registry: &mut PrimitiveRegistry, flow_decls: &mut Vec<FlowDecl>) -> (r: Result<(), String>)
        requires
            old(self).ready(),
            tok(old(self).token_seq(), old(self).position()) != TokenV::Eof,
        ensures
            final(self).moved_on(old(self)),
            r is Ok ==> final(self).pos > old(self).pos,
            parse_spec(old(self).token_seq(), old(self).position(), old(registry)@, decl_views(old(flow_decls)@))
                == match r {
                Ok(_) => parse_spec(
                    old(self).token_seq(),
                    final(self).position(),
                    final(registry)@,
                    decl_views(final(flow_decls)@),
                ),
                Err(m) => (final(self).position(), final(registry)@, Err(m@)),
            },
    {
        let ghost before = decl_views(flow_decls@);
        match self.peek().clone() {
            Token::SpaceKw => {
                self.parse_space_decl(registry)?;
            },
            Token::FlowKw => {
                let decl = self.parse_flow_decl(registry)?;
                let ghost dv = decl@;
                flow_decls.push(decl);
                assert(decl_views(flow_decls@) =~= before.push(dv));
            },
            Token::Ident(_) => {
                assert(self.pos < self.tokens.len());
                let colon_next = match self.peek_n(1) {
                    Some(t) => *t == Token::Colon,
                    None => false,
                };
                if colon_next {
                    self.parse_primitive_decl(registry)?;
                } else {
                    self.advance();
                }
            },
            _ => {
                self.advance();
            },
        }
        Ok(())
    }

    /// Parses declarations up to `Eof`: `space name = type` declares a space
    /// in `registry`, `name : dom -> cod` registers a primitive there, and
    /// `flow name [: dom -> cod] = body` gives a flow declaration. Tokens
    /// that start none of these are skipped. The first error stops the
    /// parse, and what was registered until then stays in `registry`.
    pub fn parse(&mut self, registry: &mut PrimitiveRegistry) -> (r: Result<Vec<FlowDecl>, String>)
        requires
            old(self).ready(),
        ensures
            final(self).token_seq() == old(self).token_seq(),
            (final(self).position(), final(registry)@, decls_view(r)) == parse_spec(
                old(self).token_seq(),
                old(self).position(),
                old(registry)@,
                Seq::empty(),
            ),
    {
        let ghost ts = self.token_seq();
        let ghost p0 = self.position();
        let ghost reg0 = registry@;
        let mut flow_decls: Vec<FlowDecl> = Vec::new();
        assert(decl_views(flow_decls@) =~= Seq::<FlowDeclV>::empty());
        while *self.peek() != Token::Eof
            invariant
                self.moved_on(old(self)),
                ts == self.token_seq(),
                ts == old(self).token_seq(),
                p0 == old(self).position(),
                reg0 == old(registry)@,
                parse_spec(ts, p0, reg0, Seq::empty()) == parse_spec(
                    ts,
                    self.position(),
                    registry@,
                    decl_views(flow_decls@),
                ),
            decreases self.tokens@.len() - self.pos,
        {
            self.parse_declaration(registry, &mut flow_decls)?;
        }
        Ok(flow_decls)
    }
}

} // verus!
