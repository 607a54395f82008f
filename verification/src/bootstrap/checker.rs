//! Type inference for flows of the bootstrap compiler, aware of products.

use vstd::prelude::*;
use crate::bootstrap::ast::{
    Flow, FlowDecl, FlowDeclV, FlowV, Space, SpaceV, debug_space, lemma_views_of, space_debug,
    space_size, sizes_sum, views_of,
};
use crate::bootstrap::parser::decl_views;
use crate::bootstrap::registry::{PrimitiveRegistry, PrimitiveV, RegistryV};
use crate::text::owned;

verus! {

/// The product of two spaces, with the factors of products spliced in.
pub open spec fn join(a: SpaceV, b: SpaceV) -> SpaceV {
    match (a, b) {
        (SpaceV::Product(v1), SpaceV::Product(v2)) => SpaceV::Product(v1 + v2),
        (SpaceV::Product(v1), s) => SpaceV::Product(v1.push(s)),
        (s, SpaceV::Product(v2)) => SpaceV::Product(seq![s] + v2),
        (s1, s2) => SpaceV::Product(seq![s1, s2]),
    }
}

/// The message for a composition whose middle spaces differ.
pub open spec fn chain_mismatch_message(cod_f: SpaceV, dom_g: SpaceV) -> Seq<char> {
    "Chain mismatch: output of flow "@ + space_debug(cod_f) + " does not match input of flow "@
        + space_debug(dom_g)
}

/// The inferred type `(domain, codomain)` of a flow, or the error message.
///
/// Unknown primitives are typed `Tensor(128) -> Tensor(128)`; a composition
/// is accepted when its middle spaces agree or either is `Unit`; parallel
/// wiring joins the domains and the codomains; a feedback keeps the first
/// factors of a product-to-product flow, and otherwise maps the domain to
/// itself; a derivative maps `domain || codomain` to the domain.
/// `None` stands for a feedback around a flow from or to the empty product.
pub open spec fn infer(f: FlowV, prims: Map<Seq<char>, PrimitiveV>) -> Option<Result<(SpaceV, SpaceV), Seq<char>>>
    decreases f,
{
    match f {
        FlowV::Primitive(name) => Some(
            Ok(
                if prims.contains_key(name) {
                    (prims[name].dom, prims[name].cod)
                } else {
                    (SpaceV::Tensor(128), SpaceV::Tensor(128))
                },
            ),
        ),
        FlowV::Identity(s) => Some(Ok((s, s))),
        FlowV::Chain(f, g) => match infer(*f, prims) {
            None => None,
            Some(Err(e)) => Some(Err(e)),
            Some(Ok((dom_f, cod_f))) => match infer(*g, prims) {
                None => None,
                Some(Err(e)) => Some(Err(e)),
                Some(Ok((dom_g, cod_g))) => if cod_f != dom_g && cod_f != SpaceV::Unit && dom_g
                    != SpaceV::Unit {
                    Some(Err(chain_mismatch_message(cod_f, dom_g)))
                } else {
                    Some(Ok((dom_f, cod_g)))
                },
            },
        },
        FlowV::Parallel(f, g) => match infer(*f, prims) {
            None => None,
            Some(Err(e)) => Some(Err(e)),
            Some(Ok((dom_f, cod_f))) => match infer(*g, prims) {
                None => None,
                Some(Err(e)) => Some(Err(e)),
                Some(Ok((dom_g, cod_g))) => Some(Ok((join(dom_f, dom_g), join(cod_f, cod_g)))),
            },
        },
        FlowV::Feedback(inner) => match infer(*inner, prims) {
            None => None,
            Some(Err(e)) => Some(Err(e)),
            Some(Ok((dom, cod))) => match (dom, cod) {
                (SpaceV::Product(ins), SpaceV::Product(outs)) => if ins.len() == 0 || outs.len()
                    == 0 {
                    None
                } else {
                    Some(Ok((ins[0], outs[0])))
                },
                (d, _) => Some(Ok((d, d))),
            },
        },
        FlowV::Derivative(inner) => match infer(*inner, prims) {
            None => None,
            Some(Err(e)) => Some(Err(e)),
            Some(Ok((dom, cod))) => Some(Ok((SpaceV::Product(seq![dom, cod]), dom))),
        },
    }
}

/// The view of an inferred type or its error.
pub open spec fn typing_view(r: Result<(Space, Space), String>) -> Result<(SpaceV, SpaceV), Seq<char>> {
    match r {
        Ok((d, c)) => Ok((d@, c@)),
        Err(m) => Err(m@),
    }
}

/// Joins two spaces into their product, splicing in the factors of
/// products.
fn join_spaces(a: Space, b: Space) -> (r: Space)
    ensures
        r@ == join(a@, b@),
{
    broadcast use lemma_views_of;

    let ghost av = a@;
    let ghost bv = b@;
    match (a, b) {
        (Space::Product(v1), Space::Product(v2)) => {
            let mut v1 = v1;
            let mut v2 = v2;
            let ghost s1 = v1@;
            let ghost s2 = v2@;
            v1.append(&mut v2);
            assert(views_of(v1@) =~= views_of(s1) + views_of(s2));
            Space::Product(v1)
        },
        (Space::Product(v1), s) => {
            let mut v1 = v1;
            let ghost s1 = v1@;
            let ghost sv = s@;
            v1.push(s);
            assert(views_of(v1@) =~= views_of(s1).push(sv));
            Space::Product(v1)
        },
        (s, Space::Product(v2)) => {
            let mut v2 = v2;
            let ghost s2 = v2@;
            let ghost sv = s@;
            v2.insert(0, s);
            assert(views_of(v2@) =~= seq![sv] + views_of(s2));
            Space::Product(v2)
        },
        (s1, s2) => {
            let mut v: Vec<Space> = Vec::new();
            let ghost a1 = s1@;
            let ghost a2 = s2@;
            v.push(s1);
            v.push(s2);
            assert(views_of(v@) =~= seq![a1, a2]);
            Space::Product(v)
        },
    }
}

/// Infers the types of flows against a registry of primitives.
pub struct TypeChecker<'a> {
    registry: &'a PrimitiveRegistry,
}

impl<'a> TypeChecker<'a> {
    /// The registry the checker consults.
    pub closed spec fn registry_view(&self) -> RegistryV {
        self.registry@
    }

    /// A checker that consults `registry`.
    pub fn new(registry: &'a PrimitiveRegistry) -> (r: Self)
        ensures
            r.registry_view() == registry@,
    {
        Self { registry }
    }

    /// The type `(domain, codomain)` of `flow`, or why it has none.
    /// `flow` must not put a feedback around a flow from or to the empty
    /// product (see `try_infer_type`).
    pub fn infer_type(&self, flow: &Flow) -> (r: Result<(Space, Space), String>)
        requires
            infer(flow@, self.registry_view().primitives) is Some,
        ensures
            typing_view(r) == infer(flow@, self.registry_view().primitives)->0,
    {
        match self.try_infer_type(flow) {
            Some(r) => r,
            None => Err(String::new()),
        }
    }

    /// The type of `flow`, or why it has none; `None` where a feedback
    /// surrounds a flow from or to the empty product, which has no first
    /// factor to keep.
    pub fn try_infer_type(&self, flow: &Flow) -> (r: Option<Result<(Space, Space), String>>)
        ensures
            match r {
                Some(t) => infer(flow@, self.registry_view().primitives) == Some(typing_view(t)),
                None => infer(flow@, self.registry_view().primitives) is None,
            },
        decreases flow,
    {
        broadcast use lemma_views_of;

        let typed = match flow {
            Flow::Primitive(name) => {
                if let Some(prim) = self.registry.get(name.as_str()) {
                    Ok((prim.dom.clone(), prim.cod.clone()))
                } else {
                    Ok((Space::Tensor(128), Space::Tensor(128)))
                }
            },
            Flow::Identity(space) => Ok((space.clone(), space.clone())),
            Flow::Chain(f, g) => {
                let (dom_f, cod_f) = match self.try_infer_type(f)? {
                    Ok(t) => t,
                    Err(e) => return Some(Err(e)),
                };
                let (dom_g, cod_g) = match self.try_infer_type(g)? {
                    Ok(t) => t,
                    Err(e) => return Some(Err(e)),
                };
                if cod_f != dom_g && cod_f != Space::Unit && dom_g != Space::Unit {
                    let mut m = owned("Chain mismatch: output of flow ");
                    m.append(debug_space(&cod_f).as_str());
                    m.append(" does not match input of flow ");
                    m.append(debug_space(&dom_g).as_str());
                    assert(m@ =~= chain_mismatch_message(cod_f@, dom_g@));
                    return Some(Err(m));
                }
                Ok((dom_f, cod_g))
            },
            Flow::Parallel(f, g) => {
                let (dom_f, cod_f) = match self.try_infer_type(f)? {
                    Ok(t) => t,
                    Err(e) => return Some(Err(e)),
                };
                let (dom_g, cod_g) = match self.try_infer_type(g)? {
                    Ok(t) => t,
                    Err(e) => return Some(Err(e)),
                };
                let dom = join_spaces(dom_f, dom_g);
                let cod = join_spaces(cod_f, cod_g);
                Ok((dom, cod))
            },
            Flow::Feedback(inner) => {
                let (dom_i, cod_i) = match self.try_infer_type(inner)? {
                    Ok(t) => t,
                    Err(e) => return Some(Err(e)),
                };
                match (dom_i, cod_i) {
                    (Space::Product(in_spaces), Space::Product(out_spaces)) => {
                        if in_spaces.len() == 0 || out_spaces.len() == 0 {
                            assert(views_of(in_spaces@).len() == 0 || views_of(out_spaces@).len() == 0);
                            return None;
                        }
                        assert(views_of(in_spaces@)[0] == in_spaces@[0]@);
                        assert(views_of(out_spaces@)[0] == out_spaces@[0]@);
                        if in_spaces.len() >= 2 && out_spaces.len() >= 2 {
                            let a = in_spaces[0].clone();
                            let b = out_spaces[0].clone();
                            Ok((a, b))
                        } else {
                            Ok((in_spaces[0].clone(), out_spaces[0].clone()))
                        }
                    },
                    (dom, _cod) => Ok((dom.clone(), dom)),
                }
            },
            Flow::Derivative(inner) => {
                let (dom, cod) = match self.try_infer_type(inner)? {
                    Ok(t) => t,
                    Err(e) => return Some(Err(e)),
                };
                let ghost dv = dom@;
                let ghost cv = cod@;
                let mut parts: Vec<Space> = Vec::new();
                parts.push(dom.clone());
                parts.push(cod);
                assert(views_of(parts@) =~= seq![dv, cv]);
                Ok((Space::Product(parts), dom))
            },
        };
        Some(typed)
    }
}

/// The message for a declaration whose body has no type.
pub open spec fn decl_error_message(name: Seq<char>, err: Seq<char>) -> Seq<char> {
    "type error in "@ + name + ": "@ + err
}

/// The message for a declaration whose body's type differs from its
/// annotation.
pub open spec fn annotation_mismatch_message(
    name: Seq<char>,
    dom: SpaceV,
    cod: SpaceV,
    expected_dom: SpaceV,
    expected_cod: SpaceV,
) -> Seq<char> {
    "type annotation mismatch for "@ + name + ": inferred "@ + space_debug(dom) + " -> "@
        + space_debug(cod) + ", expected "@ + space_debug(expected_dom) + " -> "@ + space_debug(
        expected_cod,
    )
}

/// Checking the declarations from position `i` on, in order. The first one
/// whose body has no type, or whose type differs from its annotation where
/// both annotated spaces are given, gives the error; `None` where inference
/// of a body has no outcome (see `infer`).
pub open spec fn check_decls(ds: Seq<FlowDeclV>, i: int, prims: Map<Seq<char>, PrimitiveV>) -> Option<Result<(), Seq<char>>>
    decreases ds.len() - i,
{
    if i < 0 || i >= ds.len() {
        Some(Ok(()))
    } else {
        let d = ds[i];
        match infer(d.body, prims) {
            None => None,
            Some(Err(e)) => Some(Err(decl_error_message(d.name, e))),
            Some(Ok((dom, cod))) => match (d.dom, d.cod) {
                (Some(ed), Some(ec)) => if dom != ed || cod != ec {
                    Some(Err(annotation_mismatch_message(d.name, dom, cod, ed, ec)))
                } else {
                    check_decls(ds, i + 1, prims)
                },
                _ => check_decls(ds, i + 1, prims),
            },
        }
    }
}

/// The view of the outcome of checking declarations.
pub open spec fn check_view(r: Option<Result<(), String>>) -> Option<Result<(), Seq<char>>> {
    match r {
        None => None,
        Some(Ok(_)) => Some(Ok(())),
        Some(Err(m)) => Some(Err(m@)),
    }
}

impl<'a> TypeChecker<'a> {
    /// Checks each declaration in turn: its body must have a type, and that
    /// type must be its annotation where it has both annotated spaces. The
    /// first failure is the error.
    pub fn check_declarations(&self, decls: &[FlowDecl]) -> (r: Option<Result<(), String>>)
        ensures
            check_view(r) == check_decls(decl_views(decls@), 0, self.registry_view().primitives),
    {
        let ghost ds = decl_views(decls@);
        let ghost prims = self.registry_view().primitives;
        let mut i: usize = 0;
        while i < decls.len()
            invariant
                i <= decls@.len() == ds.len(),
                ds == decl_views(decls@),
                prims == self.registry_view().primitives,
                check_decls(ds, i as int, prims) == check_decls(ds, 0, prims),
            decreases decls@.len() - i,
        {
            let decl = &decls[i];
            assert(ds[i as int] == decl@);
            match self.try_infer_type(&decl.body) {
                None => {
                    return None;
                },
                Some(Err(e)) => {
                    let mut m = owned("type error in ");
                    m.append(decl.name.as_str());
                    m.append(": ");
                    m.append(e.as_str());
                    assert(m@ =~= decl_error_message(decl.name@, e@));
                    return Some(Err(m));
                },
                Some(Ok((dom, cod))) => {
                    match (&decl.dom, &decl.cod) {
                        (Some(expected_dom), Some(expected_cod)) => {
                            if dom != *expected_dom || cod != *expected_cod {
                                let mut m = owned("type annotation mismatch for ");
                                m.append(decl.name.as_str());
                                m.append(": inferred ");
                                m.append(debug_space(&dom).as_str());
                                m.append(" -> ");
                                m.append(debug_space(&cod).as_str());
                                m.append(", expected ");
                                m.append(debug_space(expected_dom).as_str());
                                m.append(" -> ");
                                m.append(debug_space(expected_cod).as_str());
                                assert(m@ =~= annotation_mismatch_message(
                                    decl.name@,
                                    dom@,
                                    cod@,
                                    expected_dom@,
                                    expected_cod@,
                                ));
                                return Some(Err(m));
                            }
                        },
                        _ => {},
                    }
                },
            }
            i = i + 1;
        }
        Some(Ok(()))
    }
}

/// The factors of a space: the parts of a product, or the space itself.
pub open spec fn factors(s: SpaceV) -> Seq<SpaceV> {
    match s {
        SpaceV::Product(parts) => parts,
        other => seq![other],
    }
}

/// Joining two spaces gives the product of their factors.
pub proof fn lemma_join_factors(a: SpaceV, b: SpaceV)
    ensures
        join(a, b) == SpaceV::Product(factors(a) + factors(b)),
{
    match (a, b) {
        (SpaceV::Product(v1), SpaceV::Product(v2)) => {},
        (SpaceV::Product(v1), s) => {
            assert(v1.push(s) =~= v1 + seq![s]);
        },
        (s, SpaceV::Product(v2)) => {},
        (s1, s2) => {
            assert(seq![s1, s2] =~= seq![s1] + seq![s2]);
        },
    }
}

/// Joining spaces is associative.
pub proof fn lemma_join_associative(a: SpaceV, b: SpaceV, c: SpaceV)
    ensures
        join(join(a, b), c) == join(a, join(b, c)),
{
    lemma_join_factors(a, b);
    lemma_join_factors(b, c);
    lemma_join_factors(join(a, b), c);
    lemma_join_factors(a, join(b, c));
    assert(factors(a) + factors(b) + factors(c) =~= factors(a) + (factors(b) + factors(c)));
}

proof fn lemma_sizes_sum_concat(u: Seq<SpaceV>, w: Seq<SpaceV>)
    ensures
        sizes_sum(u + w) == sizes_sum(u) + sizes_sum(w),
    decreases w.len(),
{
    if w.len() == 0 {
        assert(u + w =~= u);
    } else {
        lemma_sizes_sum_concat(u, w.drop_last());
        assert((u + w).drop_last() =~= u + w.drop_last());
    }
}

/// A value of a joined space takes as many bytes as values of both sides
/// together.
pub proof fn lemma_join_size(a: SpaceV, b: SpaceV)
    ensures
        space_size(join(a, b)) == space_size(a) + space_size(b),
{
    lemma_join_factors(a, b);
    lemma_sizes_sum_concat(factors(a), factors(b));
    lemma_factors_size(a);
    lemma_factors_size(b);
}

proof fn lemma_factors_size(a: SpaceV)
    ensures
        sizes_sum(factors(a)) == space_size(a),
{
    match a {
        SpaceV::Product(_) => {},
        _ => {
            assert(seq![a].drop_last() =~= Seq::<SpaceV>::empty());
            assert(sizes_sum(Seq::<SpaceV>::empty()) == 0);
            assert(sizes_sum(seq![a]) == sizes_sum(seq![a].drop_last()) + space_size(seq![a].last()));
        },
    }
}

/// Parallel wiring is associative for typing: `(f || g) || h` and
/// `f || (g || h)` have the same inferred type, or fail in the same way, on
/// every input. So `TypeChecker::infer_type` and `try_infer_type` give the
/// same outcome for both groupings.
pub proof fn lemma_parallel_typing_associative(f: FlowV, g: FlowV, h: FlowV, prims: Map<Seq<char>, PrimitiveV>)
    ensures
        infer(
            FlowV::Parallel(Box::new(FlowV::Parallel(Box::new(f), Box::new(g))), Box::new(h)),
            prims,
        ) == infer(
            FlowV::Parallel(Box::new(f), Box::new(FlowV::Parallel(Box::new(g), Box::new(h)))),
            prims,
        ),
{
    reveal_with_fuel(infer, 3);
    if let (Some(Ok((df, cf))), Some(Ok((dg, cg))), Some(Ok((dh, ch)))) = (
        infer(f, prims),
        infer(g, prims),
        infer(h, prims),
    ) {
        lemma_join_associative(df, dg, dh);
        lemma_join_associative(cf, cg, ch);
    }
}

/// Composition is associative for typing where it succeeds:
/// `(f >> g) >> h` has a type exactly when `f >> (g >> h)` has it, and then
/// the same one. So `TypeChecker::infer_type` succeeds on one grouping
/// exactly when it succeeds on the other, with the same type. Where both
/// joints mismatch, the two groupings report different mismatches first.
pub proof fn lemma_chain_typing_associative(f: FlowV, g: FlowV, h: FlowV, prims: Map<Seq<char>, PrimitiveV>)
    ensures
        forall|t: (SpaceV, SpaceV)| infer(
            FlowV::Chain(Box::new(FlowV::Chain(Box::new(f), Box::new(g))), Box::new(h)),
            prims,
        ) == Some(Ok::<(SpaceV, SpaceV), Seq<char>>(t)) <==> #[trigger] infer(
            FlowV::Chain(Box::new(f), Box::new(FlowV::Chain(Box::new(g), Box::new(h)))),
            prims,
        ) == Some(Ok::<(SpaceV, SpaceV), Seq<char>>(t)),
{
    reveal_with_fuel(infer, 3);
}

/// How feedback and derivatives are typed, in terms of the type of the flow
/// they surround: a feedback around a flow from a product to a product
/// keeps the first factor of its domain and the first factor of its
/// codomain; around any other flow it maps the flow's domain to itself; a
/// derivative maps `domain || codomain` to the domain; an error of the inner
/// flow is the error of both.
pub proof fn lemma_feedback_and_derivative_typing(f: FlowV, prims: Map<Seq<char>, PrimitiveV>)
    ensures
        match infer(f, prims) {
            Some(Ok((SpaceV::Product(ins), SpaceV::Product(outs)))) => ins.len() > 0 && outs.len()
                > 0 ==> infer(FlowV::Feedback(Box::new(f)), prims) == Some(
                Ok::<(SpaceV, SpaceV), Seq<char>>((ins[0], outs[0])),
            ),
            Some(Ok((d, _))) => infer(FlowV::Feedback(Box::new(f)), prims) == Some(
                Ok::<(SpaceV, SpaceV), Seq<char>>((d, d)),
            ),
            _ => true,
        },
        match infer(f, prims) {
            Some(Ok((d, c))) => infer(FlowV::Derivative(Box::new(f)), prims) == Some(
                Ok::<(SpaceV, SpaceV), Seq<char>>((SpaceV::Product(seq![d, c]), d)),
            ),
            Some(Err(e)) => {
                &&& infer(FlowV::Feedback(Box::new(f)), prims) == Some(Err::<(SpaceV, SpaceV), Seq<char>>(e))
                &&& infer(FlowV::Derivative(Box::new(f)), prims) == Some(Err::<(SpaceV, SpaceV), Seq<char>>(e))
            },
            None => true,
        },
{
}

/// How primitives, identities and compositions are typed: a registered
/// primitive has its registered spaces and an unknown one maps
/// `Tensor(128)` to itself; an identity maps its space to itself; a
/// composition whose middle spaces agree, or where either is `Unit`, goes
/// from the first flow's domain to the second flow's codomain, and one whose
/// middle spaces differ, neither being `Unit`, has no type.
pub proof fn lemma_primitive_and_chain_typing(f: FlowV, g: FlowV, name: Seq<char>, s: SpaceV, prims: Map<Seq<char>, PrimitiveV>)
    ensures
        prims.contains_key(name) ==> infer(FlowV::Primitive(name), prims)
            == Some(Ok::<(SpaceV, SpaceV), Seq<char>>((prims[name].dom, prims[name].cod))),
        !prims.contains_key(name) ==> infer(FlowV::Primitive(name), prims)
            == Some(Ok::<(SpaceV, SpaceV), Seq<char>>((SpaceV::Tensor(128), SpaceV::Tensor(128)))),
        infer(FlowV::Identity(s), prims) == Some(Ok::<(SpaceV, SpaceV), Seq<char>>((s, s))),
        match (infer(f, prims), infer(g, prims)) {
            (Some(Ok((df, cf))), Some(Ok((dg, cg)))) => {
                &&& (cf == dg || cf == SpaceV::Unit || dg == SpaceV::Unit) ==> infer(
                    FlowV::Chain(Box::new(f), Box::new(g)),
                    prims,
                ) == Some(Ok::<(SpaceV, SpaceV), Seq<char>>((df, cg)))
                &&& (cf != dg && cf != SpaceV::Unit && dg != SpaceV::Unit) ==> infer(
                    FlowV::Chain(Box::new(f), Box::new(g)),
                    prims,
                ) is Some && infer(FlowV::Chain(Box::new(f), Box::new(g)), prims)->0 is Err
            },
            _ => true,
        },
{
}

} // verus!
