//! The portable semantic model: spaces, effects, primitive signatures,
//! flows, composition, trace and gradient checking.

use vstd::prelude::*;
use crate::names::NameMap;
use crate::text::{decimal_text, debug_str, owned, str_debug, usize_text};
use vstd::std_specs::cmp::PartialEqSpecImpl;

verus! {

/// A space: the type of the data that a flow consumes or produces.
#[derive(Debug, Eq)]
pub enum Space {
    Unit,
    Scalar(String),
    Tensor { element: String, shape: Vec<usize> },
    Quantum { qubits: usize },
    Organoid { pins: usize },
    Logic { bits: usize },
    Product(Vec<Space>),
}

/// The mathematical value of a [`Space`].
pub enum SpaceV {
    Unit,
    Scalar(Seq<char>),
    Tensor { element: Seq<char>, shape: Seq<usize> },
    Quantum { qubits: usize },
    Organoid { pins: usize },
    Logic { bits: usize },
    Product(Seq<SpaceV>),
}

impl View for Space {
    type V = SpaceV;

    open spec fn view(&self) -> SpaceV
        decreases self,
    {
        match self {
            Space::Unit => SpaceV::Unit,
            Space::Scalar(s) => SpaceV::Scalar(s@),
            Space::Tensor { element, shape } => SpaceV::Tensor { element: element@, shape: shape@ },
            Space::Quantum { qubits } => SpaceV::Quantum { qubits: *qubits },
            Space::Organoid { pins } => SpaceV::Organoid { pins: *pins },
            Space::Logic { bits } => SpaceV::Logic { bits: *bits },
            Space::Product(parts) => SpaceV::Product(views_of(parts@)),
        }
    }
}

/// The views of a sequence of spaces, element by element.
pub open spec fn views_of(parts: Seq<Space>) -> Seq<SpaceV>
    decreases parts,
{
    if parts.len() == 0 {
        Seq::empty()
    } else {
        views_of(parts.drop_last()).push(parts.last().view())
    }
}

/// `views_of` keeps the length and views each element in place.
pub broadcast proof fn lemma_views_of(parts: Seq<Space>)
    ensures
        (#[trigger] views_of(parts)).len() == parts.len(),
        forall|j: int| 0 <= j < parts.len() ==> #[trigger] views_of(parts)[j] == parts[j]@,
    decreases parts.len(),
{
    if parts.len() > 0 {
        let rest = parts.drop_last();
        lemma_views_of(rest);
        assert(views_of(parts) == views_of(rest).push(parts.last().view()));
        assert forall|j: int| 0 <= j < parts.len() implies #[trigger] views_of(parts)[j]
            == parts[j]@ by {
            if j < rest.len() {
                assert(rest[j] == parts[j]);
            }
        }
    }
}

/// The factors of a space: the parts of a product, or the space itself.
pub open spec fn factors(s: SpaceV) -> Seq<SpaceV> {
    match s {
        SpaceV::Product(parts) => parts,
        other => seq![other],
    }
}

/// The product of two spaces, with the factors of products spliced in.
pub open spec fn product_of(left: SpaceV, right: SpaceV) -> SpaceV {
    SpaceV::Product(factors(left) + factors(right))
}

impl Clone for Space {
    #[verifier::loop_isolation(false)]
    fn clone(&self) -> (r: Self)
        ensures
            r@ == self@,
        decreases self,
    {
        broadcast use lemma_views_of;

        match self {
            Space::Unit => Space::Unit,
            Space::Scalar(s) => Space::Scalar(s.clone()),
            Space::Tensor { element, shape } => {
                let mut copy: Vec<usize> = Vec::new();
                let mut i: usize = 0;
                while i < shape.len()
                    invariant
                        i <= shape@.len(),
                        copy@ == shape@.take(i as int),
                    decreases shape@.len() - i,
                {
                    copy.push(shape[i]);
                    i = i + 1;
                    assert(copy@ =~= shape@.take(i as int));
                }
                assert(copy@ =~= shape@);
                Space::Tensor { element: element.clone(), shape: copy }
            },
            Space::Quantum { qubits } => Space::Quantum { qubits: *qubits },
            Space::Organoid { pins } => Space::Organoid { pins: *pins },
            Space::Logic { bits } => Space::Logic { bits: *bits },
            Space::Product(parts) => {
                let mut out: Vec<Space> = Vec::new();
                let mut i: usize = 0;
                while i < parts.len()
                    invariant
                        i <= parts@.len(),
                        out@.len() == i,
                        forall|j: int| 0 <= j < i ==> #[trigger] out@[j]@ == parts@[j]@,
                    decreases parts@.len() - i,
                {
                    out.push(parts[i].clone());
                    i = i + 1;
                }
                let r = Space::Product(out);
                assert(views_of(out@) =~= views_of(parts@));
                r
            },
        }
    }
}

/// Whether two spaces are equal, factor by factor.
#[verifier::loop_isolation(false)]
fn same_space(a: &Space, b: &Space) -> (r: bool)
    ensures
        r == (a@ == b@),
    decreases a,
{
    broadcast use lemma_views_of;

    match a {
        Space::Unit => match b {
            Space::Unit => true,
            _ => false,
        },
        Space::Scalar(x) => match b {
            Space::Scalar(y) => x.eq(y),
            _ => false,
        },
        Space::Tensor { element: e1, shape: s1 } => match b {
            Space::Tensor { element: e2, shape: s2 } => {
                if !e1.eq(e2) || s1.len() != s2.len() {
                    return false;
                }
                let mut i: usize = 0;
                while i < s1.len()
                    invariant
                        i <= s1@.len(),
                        forall|j: int| 0 <= j < i ==> s1@[j] == s2@[j],
                    decreases s1@.len() - i,
                {
                    if s1[i] != s2[i] {
                        return false;
                    }
                    i = i + 1;
                }
                assert(s1@ =~= s2@);
                true
            },
            _ => false,
        },
        Space::Quantum { qubits: x } => match b {
            Space::Quantum { qubits: y } => *x == *y,
            _ => false,
        },
        Space::Organoid { pins: x } => match b {
            Space::Organoid { pins: y } => *x == *y,
            _ => false,
        },
        Space::Logic { bits: x } => match b {
            Space::Logic { bits: y } => *x == *y,
            _ => false,
        },
        Space::Product(p1) => match b {
            Space::Product(p2) => {
                if p1.len() != p2.len() {
                    assert(views_of(p1@).len() != views_of(p2@).len());
                    return false;
                }
                let mut i: usize = 0;
                while i < p1.len()
                    invariant
                        i <= p1@.len(),
                        forall|j: int| 0 <= j < i ==> #[trigger] p1@[j]@ == p2@[j]@,
                    decreases p1@.len() - i,
                {
                    if !same_space(&p1[i], &p2[i]) {
                        assert(views_of(p1@)[i as int] != views_of(p2@)[i as int]);
                        return false;
                    }
                    i = i + 1;
                }
                assert(views_of(p1@) =~= views_of(p2@));
                true
            },
            _ => false,
        },
    }
}

impl PartialEq for Space {
    fn eq(&self, other: &Self) -> (r: bool) {
        same_space(self, other)
    }
}

impl PartialEqSpecImpl for Space {
    open spec fn obeys_eq_spec() -> bool {
        true
    }

    open spec fn eq_spec(&self, other: &Self) -> bool {
        self@ == other@
    }
}

impl Space {
    /// The product of two spaces. Products on either side are flattened
    /// into their factors, so that the product is associative.
    pub fn product(left: Self, right: Self) -> (r: Self)
        ensures
            r@ == product_of(left@, right@),
    {
        broadcast use lemma_views_of;

        let ghost lv = left@;
        let ghost rv = right@;
        let mut parts: Vec<Space> = match left {
            Space::Product(rest) => {
                assert(views_of(rest@) == factors(lv));
                rest
            },
            other => {
                let mut one: Vec<Space> = Vec::new();
                one.push(other);
                assert(views_of(one@) =~= factors(lv));
                one
            },
        };
        let ghost before = parts@;
        assert(views_of(before) == factors(lv));
        match right {
            Space::Product(rest) => {
                let mut rest = rest;
                let ghost rest0 = rest@;
                assert(views_of(rest0) == factors(rv));
                parts.append(&mut rest);
                assert(parts@ == before + rest0);
                assert(views_of(parts@) =~= views_of(before) + views_of(rest0));
            },
            other => {
                parts.push(other);
                assert(views_of(parts@) =~= views_of(before) + factors(rv));
            },
        }
        let r = Space::Product(parts);
        r
    }
}

/// The effects that a primitive may have.
#[derive(Debug, Clone, Copy, PartialEq, Eq, Structural)]
pub enum Effect {
    Pure,
    DeviceIo,
    HostIo,
    Nondeterministic,
}

/// How a primitive is differentiated.
#[derive(Debug, Clone, Copy, PartialEq, Eq, Structural)]
pub enum Derivative {
    Analytic,
    ReverseMode,
    StraightThrough,
    NonDifferentiable,
}

/// The signature of a primitive flow.
#[derive(Debug, PartialEq, Eq)]
pub struct Signature {
    pub domain: Space,
    pub codomain: Space,
    pub derivative: Derivative,
    pub effects: Vec<Effect>,
}

/// The mathematical value of a [`Signature`].
pub struct SignatureV {
    pub domain: SpaceV,
    pub codomain: SpaceV,
    pub derivative: Derivative,
    pub effects: Seq<Effect>,
}

impl View for Signature {
    type V = SignatureV;

    open spec fn view(&self) -> SignatureV {
        SignatureV {
            domain: self.domain@,
            codomain: self.codomain@,
            derivative: self.derivative,
            effects: self.effects@,
        }
    }
}

impl Clone for Signature {
    fn clone(&self) -> (r: Self)
        ensures
            r@ == self@,
    {
        let mut effects: Vec<Effect> = Vec::new();
        let mut i: usize = 0;
        while i < self.effects.len()
            invariant
                i <= self.effects@.len(),
                effects@ == self.effects@.take(i as int),
            decreases self.effects@.len() - i,
        {
            effects.push(self.effects[i]);
            i = i + 1;
            assert(effects@ =~= self.effects@.take(i as int));
        }
        assert(effects@ =~= self.effects@);
        Signature {
            domain: self.domain.clone(),
            codomain: self.codomain.clone(),
            derivative: self.derivative,
            effects,
        }
    }
}

/// The `Debug` text of a space: the variant's name, then its fields as
/// `Name(..)` or `Name { field: .. }` show them.
pub open spec fn space_debug(s: SpaceV) -> Seq<char>
    decreases s,
{
    match s {
        SpaceV::Unit => "Unit"@,
        SpaceV::Scalar(x) => "Scalar("@ + str_debug(x) + ")"@,
        SpaceV::Tensor { element, shape } => "Tensor { element: "@ + str_debug(element)
            + ", shape: ["@ + sizes_joined(shape) + "] }"@,
        SpaceV::Quantum { qubits } => "Quantum { qubits: "@ + decimal_text(qubits as nat) + " }"@,
        SpaceV::Organoid { pins } => "Organoid { pins: "@ + decimal_text(pins as nat) + " }"@,
        SpaceV::Logic { bits } => "Logic { bits: "@ + decimal_text(bits as nat) + " }"@,
        SpaceV::Product(parts) => "Product(["@ + spaces_joined(parts) + "])"@,
    }
}

/// The `Debug` texts of a sequence of spaces, separated by `", "`.
pub open spec fn spaces_joined(parts: Seq<SpaceV>) -> Seq<char>
    decreases parts,
{
    if parts.len() == 0 {
        Seq::empty()
    } else if parts.len() == 1 {
        space_debug(parts[0])
    } else {
        spaces_joined(parts.drop_last()) + ", "@ + space_debug(parts.last())
    }
}

/// The decimal texts of a sequence of sizes, separated by `", "`.
pub open spec fn sizes_joined(xs: Seq<usize>) -> Seq<char>
    decreases xs.len(),
{
    if xs.len() == 0 {
        Seq::empty()
    } else if xs.len() == 1 {
        decimal_text(xs[0] as nat)
    } else {
        sizes_joined(xs.drop_last()) + ", "@ + decimal_text(xs.last() as nat)
    }
}

/// The `Debug` text of a space, as `format!("{:?}", s)` gives it.
#[verifier::loop_isolation(false)]
pub fn debug_space(s: &Space) -> (r: String)
    ensures
        r@ == space_debug(s@),
    decreases s,
{
    broadcast use lemma_views_of;

    match s {
        Space::Unit => owned("Unit"),
        Space::Scalar(x) => {
            let mut r = owned("Scalar(");
            r.append(debug_str(x.as_str()).as_str());
            r.append(")");
            r
        },
        Space::Tensor { element, shape } => {
            let mut r = owned("Tensor { element: ");
            r.append(debug_str(element.as_str()).as_str());
            r.append(", shape: [");
            let ghost head = r@;
            let mut i: usize = 0;
            while i < shape.len()
                invariant
                    i <= shape@.len(),
                    r@ == head + sizes_joined(shape@.take(i as int)),
                decreases shape@.len() - i,
            {
                let ghost before = r@;
                if i > 0 {
                    r.append(", ");
                }
                r.append(usize_text(shape[i]).as_str());
                proof {
                    let t = shape@.take(i + 1);
                    assert(t.drop_last() =~= shape@.take(i as int));
                    if i == 0 {
                        assert(sizes_joined(shape@.take(0)) =~= Seq::<char>::empty());
                    }
                }
                i = i + 1;
            }
            assert(shape@.take(i as int) =~= shape@);
            r.append("] }");
            r
        },
        Space::Quantum { qubits } => {
            let mut r = owned("Quantum { qubits: ");
            r.append(usize_text(*qubits).as_str());
            r.append(" }");
            r
        },
        Space::Organoid { pins } => {
            let mut r = owned("Organoid { pins: ");
            r.append(usize_text(*pins).as_str());
            r.append(" }");
            r
        },
        Space::Logic { bits } => {
            let mut r = owned("Logic { bits: ");
            r.append(usize_text(*bits).as_str());
            r.append(" }");
            r
        },
        Space::Product(parts) => {
            let ghost vs = views_of(parts@);
            let mut r = owned("Product([");
            let ghost head = r@;
            let mut i: usize = 0;
            while i < parts.len()
                invariant
                    i <= parts@.len(),
                    r@ == head + spaces_joined(vs.take(i as int)),
                decreases parts@.len() - i,
            {
                if i > 0 {
                    r.append(", ");
                }
                r.append(debug_space(&parts[i]).as_str());
                proof {
                    let t = vs.take(i + 1);
                    assert(t.drop_last() =~= vs.take(i as int));
                    if i == 0 {
                        assert(spaces_joined(vs.take(0)) =~= Seq::<char>::empty());
                    }
                }
                i = i + 1;
            }
            assert(vs.take(i as int) =~= vs);
            r.append("])");
            r
        },
    }
}

/// A flow: a typed arrow between two spaces, built from primitives,
/// identities, composition, parallel wiring, feedback and gradients.
#[derive(Debug, Eq)]
pub enum Flow {
    Primitive { name: String, domain: Space, codomain: Space },
    Identity(Space),
    Chain(Box<Flow>, Box<Flow>),
    Parallel(Box<Flow>, Box<Flow>),
    Feedback(Box<Flow>),
    Gradient(Box<Flow>),
}

/// The mathematical value of a [`Flow`].
pub enum FlowV {
    Primitive { name: Seq<char>, domain: SpaceV, codomain: SpaceV },
    Identity(SpaceV),
    Chain(Box<FlowV>, Box<FlowV>),
    Parallel(Box<FlowV>, Box<FlowV>),
    Feedback(Box<FlowV>),
    Gradient(Box<FlowV>),
}

impl View for Flow {
    type V = FlowV;

    open spec fn view(&self) -> FlowV
        decreases self,
    {
        match self {
            Flow::Primitive { name, domain, codomain } => FlowV::Primitive {
                name: name@,
                domain: domain@,
                codomain: codomain@,
            },
            Flow::Identity(s) => FlowV::Identity(s@),
            Flow::Chain(l, r) => FlowV::Chain(Box::new((**l).view()), Box::new((**r).view())),
            Flow::Parallel(l, r) => FlowV::Parallel(Box::new((**l).view()), Box::new((**r).view())),
            Flow::Feedback(i) => FlowV::Feedback(Box::new((**i).view())),
            Flow::Gradient(i) => FlowV::Gradient(Box::new((**i).view())),
        }
    }
}

impl FlowV {
    /// The space a flow consumes.
    pub open spec fn domain(self) -> SpaceV
        decreases self,
    {
        match self {
            FlowV::Primitive { domain, .. } => domain,
            FlowV::Identity(s) => s,
            FlowV::Chain(l, _) => l.domain(),
            FlowV::Parallel(l, r) => SpaceV::Product(seq![l.domain(), r.domain()]),
            FlowV::Feedback(i) => i.domain(),
            FlowV::Gradient(i) => i.codomain(),
        }
    }

    /// The space a flow produces.
    pub open spec fn codomain(self) -> SpaceV
        decreases self,
    {
        match self {
            FlowV::Primitive { codomain, .. } => codomain,
            FlowV::Identity(s) => s,
            FlowV::Chain(_, r) => r.codomain(),
            FlowV::Parallel(l, r) => SpaceV::Product(seq![l.codomain(), r.codomain()]),
            FlowV::Feedback(i) => i.codomain(),
            FlowV::Gradient(i) => i.domain(),
        }
    }
}

impl Clone for Flow {
    fn clone(&self) -> (r: Self)
        ensures
            r@ == self@,
        decreases self,
    {
        match self {
            Flow::Primitive { name, domain, codomain } => Flow::Primitive {
                name: name.clone(),
                domain: domain.clone(),
                codomain: codomain.clone(),
            },
            Flow::Identity(s) => Flow::Identity(s.clone()),
            Flow::Chain(l, r) => Flow::Chain(Box::new((**l).clone()), Box::new((**r).clone())),
            Flow::Parallel(l, r) => Flow::Parallel(Box::new((**l).clone()), Box::new((**r).clone())),
            Flow::Feedback(i) => Flow::Feedback(Box::new((**i).clone())),
            Flow::Gradient(i) => Flow::Gradient(Box::new((**i).clone())),
        }
    }
}

/// Whether two flows are equal, node by node.
fn same_flow(a: &Flow, b: &Flow) -> (r: bool)
    ensures
        r == (a@ == b@),
    decreases a,
{
    match (a, b) {
        (
            Flow::Primitive { name: n1, domain: d1, codomain: c1 },
            Flow::Primitive { name: n2, domain: d2, codomain: c2 },
        ) => n1.eq(n2) && same_space(d1, d2) && same_space(c1, c2),
        (Flow::Identity(s1), Flow::Identity(s2)) => same_space(s1, s2),
        (Flow::Chain(l1, r1), Flow::Chain(l2, r2)) => same_flow(l1, l2) && same_flow(r1, r2),
        (Flow::Parallel(l1, r1), Flow::Parallel(l2, r2)) => same_flow(l1, l2) && same_flow(r1, r2),
        (Flow::Feedback(i1), Flow::Feedback(i2)) => same_flow(i1, i2),
        (Flow::Gradient(i1), Flow::Gradient(i2)) => same_flow(i1, i2),
        _ => false,
    }
}

impl PartialEq for Flow {
    fn eq(&self, other: &Self) -> (r: bool) {
        same_flow(self, other)
    }
}

impl PartialEqSpecImpl for Flow {
    open spec fn obeys_eq_spec() -> bool {
        true
    }

    open spec fn eq_spec(&self, other: &Self) -> bool {
        self@ == other@
    }
}

impl Flow {
    /// The space this flow consumes.
    pub fn domain(&self) -> (r: Space)
        ensures
            r@ == self@.domain(),
        decreases self,
    {
        match self {
            Flow::Primitive { domain, .. } => domain.clone(),
            Flow::Identity(space) => space.clone(),
            Flow::Chain(left, _) => left.domain(),
            Flow::Parallel(left, right) => {
                let mut parts: Vec<Space> = Vec::new();
                parts.push(left.domain());
                parts.push(right.domain());
                let r = Space::Product(parts);
                proof {
                    lemma_views_of(parts@);
                    assert(views_of(parts@) =~= seq![left@.domain(), right@.domain()]);
                }
                r
            },
            Flow::Feedback(inner) => inner.domain(),
            Flow::Gradient(inner) => inner.codomain(),
        }
    }

    /// The space this flow produces.
    pub fn codomain(&self) -> (r: Space)
        ensures
            r@ == self@.codomain(),
        decreases self,
    {
        match self {
            Flow::Primitive { codomain, .. } => codomain.clone(),
            Flow::Identity(space) => space.clone(),
            Flow::Chain(_, right) => right.codomain(),
            Flow::Parallel(left, right) => {
                let mut parts: Vec<Space> = Vec::new();
                parts.push(left.codomain());
                parts.push(right.codomain());
                let r = Space::Product(parts);
                proof {
                    lemma_views_of(parts@);
                    assert(views_of(parts@) =~= seq![left@.codomain(), right@.codomain()]);
                }
                r
            },
            Flow::Feedback(inner) => inner.codomain(),
            Flow::Gradient(inner) => inner.domain(),
        }
    }
}

/// The signature that `default_primitives` gives a scalar operation.
pub open spec fn scalar_signature() -> SignatureV {
    SignatureV {
        domain: SpaceV::Scalar("f64"@),
        codomain: SpaceV::Scalar("f64"@),
        derivative: Derivative::Analytic,
        effects: seq![Effect::Pure],
    }
}

/// The table of built-in primitives.
pub open spec fn default_signatures() -> Map<Seq<char>, SignatureV> {
    Map::empty().insert("add"@, scalar_signature()).insert("mul"@, scalar_signature()).insert(
        "neural_layer"@,
        SignatureV {
            domain: SpaceV::Tensor { element: "f32"@, shape: seq![128] },
            codomain: SpaceV::Tensor { element: "f32"@, shape: seq![64] },
            derivative: Derivative::ReverseMode,
            effects: seq![Effect::Pure],
        },
    ).insert(
        "quantum_gate"@,
        SignatureV {
            domain: SpaceV::Quantum { qubits: 2 },
            codomain: SpaceV::Quantum { qubits: 2 },
            derivative: Derivative::ReverseMode,
            effects: seq![Effect::DeviceIo],
        },
    ).insert(
        "organoid_pulse"@,
        SignatureV {
            domain: SpaceV::Organoid { pins: 64 },
            codomain: SpaceV::Organoid { pins: 64 },
            derivative: Derivative::ReverseMode,
            effects: seq![Effect::DeviceIo],
        },
    ).insert(
        "logic_step"@,
        SignatureV {
            domain: SpaceV::Logic { bits: 8 },
            codomain: SpaceV::Logic { bits: 8 },
            derivative: Derivative::StraightThrough,
            effects: seq![Effect::Pure],
        },
    )
}

fn scalar_f64() -> (r: Space)
    ensures
        r@ == SpaceV::Scalar("f64"@),
{
    Space::Scalar(owned("f64"))
}

fn pure_effects() -> (r: Vec<Effect>)
    ensures
        r@ == seq![Effect::Pure],
{
    let mut v: Vec<Effect> = Vec::new();
    v.push(Effect::Pure);
    v
}

fn device_effects() -> (r: Vec<Effect>)
    ensures
        r@ == seq![Effect::DeviceIo],
{
    let mut v: Vec<Effect> = Vec::new();
    v.push(Effect::DeviceIo);
    v
}

fn f32_tensor(n: usize) -> (r: Space)
    ensures
        r@ == (SpaceV::Tensor { element: "f32"@, shape: seq![n] }),
{
    let mut shape: Vec<usize> = Vec::new();
    shape.push(n);
    Space::Tensor { element: owned("f32"), shape }
}

/// The table of built-in primitives and their signatures.
pub fn default_primitives() -> (map: NameMap<Signature>)
    ensures
        map@ == default_signatures(),
{
    let mut map: NameMap<Signature> = NameMap::new();
    map.insert(
        owned("add"),
        Signature {
            domain: scalar_f64(),
            codomain: scalar_f64(),
            derivative: Derivative::Analytic,
            effects: pure_effects(),
        },
    );
    map.insert(
        owned("mul"),
        Signature {
            domain: scalar_f64(),
            codomain: scalar_f64(),
            derivative: Derivative::Analytic,
            effects: pure_effects(),
        },
    );
    map.insert(
        owned("neural_layer"),
        Signature {
            domain: f32_tensor(128),
            codomain: f32_tensor(64),
            derivative: Derivative::ReverseMode,
            effects: pure_effects(),
        },
    );
    map.insert(
        owned("quantum_gate"),
        Signature {
            domain: Space::Quantum { qubits: 2 },
            codomain: Space::Quantum { qubits: 2 },
            derivative: Derivative::ReverseMode,
            effects: device_effects(),
        },
    );
    map.insert(
        owned("organoid_pulse"),
        Signature {
            domain: Space::Organoid { pins: 64 },
            codomain: Space::Organoid { pins: 64 },
            derivative: Derivative::ReverseMode,
            effects: device_effects(),
        },
    );
    map.insert(
        owned("logic_step"),
        Signature {
            domain: Space::Logic { bits: 8 },
            codomain: Space::Logic { bits: 8 },
            derivative: Derivative::StraightThrough,
            effects: pure_effects(),
        },
    );
    map
}

/// The message for a primitive that the table does not know.
pub open spec fn unknown_primitive_message(name: Seq<char>) -> Seq<char> {
    "unknown primitive `"@ + name + "`"@
}

/// The message for a primitive used at other spaces than its signature's.
pub open spec fn primitive_mismatch_message(
    name: Seq<char>,
    sig_domain: SpaceV,
    sig_codomain: SpaceV,
    domain: SpaceV,
    codomain: SpaceV,
) -> Seq<char> {
    "primitive `"@ + name + "` requires "@ + space_debug(sig_domain) + " -> "@ + space_debug(
        sig_codomain,
    ) + ", got "@ + space_debug(domain) + " -> "@ + space_debug(codomain)
}

/// The message for a composition whose middle spaces differ.
pub open spec fn composition_message(
    ld: SpaceV,
    lc: SpaceV,
    rd: SpaceV,
    rc: SpaceV,
) -> Seq<char> {
    "composition mismatch: "@ + space_debug(ld) + " -> "@ + space_debug(lc) + " cannot feed "@
        + space_debug(rd) + " -> "@ + space_debug(rc)
}

/// The message for a feedback whose flow does not map a space to itself.
pub open spec fn feedback_message(d: SpaceV, c: SpaceV) -> Seq<char> {
    "feedback requires matching trace: "@ + space_debug(d) + " != "@ + space_debug(c)
}

/// The outcome of checking a flow against a table of primitive signatures:
/// every primitive is known and used at its signature's spaces, every
/// composition feeds a flow the space it consumes, and every feedback maps a
/// space to itself. The first failure, depth first and left to right, is
/// the error.
pub open spec fn check_flow(f: FlowV, registry: Map<Seq<char>, SignatureV>) -> Result<(), Seq<char>>
    decreases f,
{
    match f {
        FlowV::Primitive { name, domain, codomain } => {
            if !registry.contains_key(name) {
                Err(unknown_primitive_message(name))
            } else if registry[name].domain != domain || registry[name].codomain != codomain {
                Err(
                    primitive_mismatch_message(
                        name,
                        registry[name].domain,
                        registry[name].codomain,
                        domain,
                        codomain,
                    ),
                )
            } else {
                Ok(())
            }
        },
        FlowV::Identity(_) => Ok(()),
        FlowV::Chain(l, r) => match check_flow(*l, registry) {
            Err(e) => Err(e),
            Ok(_) => match check_flow(*r, registry) {
                Err(e) => Err(e),
                Ok(_) => if l.codomain() != r.domain() {
                    Err(composition_message(l.domain(), l.codomain(), r.domain(), r.codomain()))
                } else {
                    Ok(())
                },
            },
        },
        FlowV::Parallel(l, r) => match check_flow(*l, registry) {
            Err(e) => Err(e),
            Ok(_) => check_flow(*r, registry),
        },
        FlowV::Feedback(i) => match check_flow(*i, registry) {
            Err(e) => Err(e),
            Ok(_) => if i.domain() != i.codomain() {
                Err(feedback_message(i.domain(), i.codomain()))
            } else {
                Ok(())
            },
        },
        FlowV::Gradient(i) => check_flow(*i, registry),
    }
}

/// The view of a check's outcome.
pub open spec fn outcome_view(r: Result<(), String>) -> Result<(), Seq<char>> {
    match r {
        Ok(_) => Ok(()),
        Err(m) => Err(m@),
    }
}

/// Checks `flow` against the signatures in `registry`.
pub fn typecheck(flow: &Flow, registry: &NameMap<Signature>) -> (r: Result<(), String>)
    ensures
        outcome_view(r) == check_flow(flow@, registry@),
    decreases flow,
{
    match flow {
        Flow::Primitive { name, domain, codomain } => {
            let signature = match registry.get(name.as_str()) {
                Some(s) => s,
                None => {
                    let mut m = owned("unknown primitive `");
                    m.append(name.as_str());
                    m.append("`");
                    assert(m@ =~= unknown_primitive_message(name@));
                    return Err(m);
                },
            };
            if signature.domain != *domain || signature.codomain != *codomain {
                let mut m = owned("primitive `");
                m.append(name.as_str());
                m.append("` requires ");
                m.append(debug_space(&signature.domain).as_str());
                m.append(" -> ");
                m.append(debug_space(&signature.codomain).as_str());
                m.append(", got ");
                m.append(debug_space(domain).as_str());
                m.append(" -> ");
                m.append(debug_space(codomain).as_str());
                assert(m@ =~= primitive_mismatch_message(
                    name@,
                    signature.domain@,
                    signature.codomain@,
                    domain@,
                    codomain@,
                ));
                return Err(m);
            }
            Ok(())
        },
        Flow::Identity(_) => Ok(()),
        Flow::Chain(left, right) => {
            typecheck(left, registry)?;
            typecheck(right, registry)?;
            if left.codomain() != right.domain() {
                let mut m = owned("composition mismatch: ");
                m.append(debug_space(&left.domain()).as_str());
                m.append(" -> ");
                m.append(debug_space(&left.codomain()).as_str());
                m.append(" cannot feed ");
                m.append(debug_space(&right.domain()).as_str());
                m.append(" -> ");
                m.append(debug_space(&right.codomain()).as_str());
                assert(m@ =~= composition_message(
                    left@.domain(),
                    left@.codomain(),
                    right@.domain(),
                    right@.codomain(),
                ));
                return Err(m);
            }
            Ok(())
        },
        Flow::Parallel(left, right) => {
            typecheck(left, registry)?;
            typecheck(right, registry)?;
            Ok(())
        },
        Flow::Feedback(inner) => {
            typecheck(inner, registry)?;
            let domain = inner.domain();
            let codomain = inner.codomain();
            if domain != codomain {
                let mut m = owned("feedback requires matching trace: ");
                m.append(debug_space(&domain).as_str());
                m.append(" != ");
                m.append(debug_space(&codomain).as_str());
                assert(m@ =~= feedback_message(domain@, codomain@));
                return Err(m);
            }
            Ok(())
        },
        Flow::Gradient(inner) => {
            typecheck(inner, registry)?;
            Ok(())
        },
    }
}

/// A parsed program: its named spaces and its named flows.
#[derive(Debug)]
pub struct Program {
    pub spaces: NameMap<Space>,
    pub flows: NameMap<Flow>,
}

/// Whether two tables of spaces hold the same names with equal spaces.
fn same_space_table(a: &NameMap<Space>, b: &NameMap<Space>) -> (r: bool)
    ensures
        r == (a@ == b@),
{
    let n = a.len();
    if n != b.len() {
        return false;
    }
    let mut i: usize = 0;
    while i < n
        invariant
            n == a.size() == a@.len() == b@.len(),
            a@.dom().finite(),
            b@.dom().finite(),
            i <= n,
            forall|j: int| 0 <= j < i ==> b@.contains_key(#[trigger] a.key_at(j))
                && b@[a.key_at(j)] == a@[a.key_at(j)],
        decreases n - i,
    {
        let k = a.name_at(i);
        let v = a.value_at(i);
        match b.get(k.as_str()) {
            Some(w) => {
                if !same_space(v, w) {
                    return false;
                }
            },
            None => {
                return false;
            },
        }
        i = i + 1;
    }
    proof {
        a.lemma_keys();
        crate::names::lemma_maps_equal(a@, b@);
    }
    true
}

/// Whether two tables of flows hold the same names with equal flows.
fn same_flow_table(a: &NameMap<Flow>, b: &NameMap<Flow>) -> (r: bool)
    ensures
        r == (a@ == b@),
{
    let n = a.len();
    if n != b.len() {
        return false;
    }
    let mut i: usize = 0;
    while i < n
        invariant
            n == a.size() == a@.len() == b@.len(),
            a@.dom().finite(),
            b@.dom().finite(),
            i <= n,
            forall|j: int| 0 <= j < i ==> b@.contains_key(#[trigger] a.key_at(j))
                && b@[a.key_at(j)] == a@[a.key_at(j)],
        decreases n - i,
    {
        let k = a.name_at(i);
        let v = a.value_at(i);
        match b.get(k.as_str()) {
            Some(w) => {
                if !same_flow(v, w) {
                    return false;
                }
            },
            None => {
                return false;
            },
        }
        i = i + 1;
    }
    proof {
        a.lemma_keys();
        crate::names::lemma_maps_equal(a@, b@);
    }
    true
}

impl PartialEq for Program {
    fn eq(&self, other: &Self) -> (r: bool) {
        same_space_table(&self.spaces, &other.spaces) && same_flow_table(&self.flows, &other.flows)
    }
}

impl Eq for Program {}

impl PartialEqSpecImpl for Program {
    open spec fn obeys_eq_spec() -> bool {
        true
    }

    open spec fn eq_spec(&self, other: &Self) -> bool {
        self.spaces@ == other.spaces@ && self.flows@ == other.flows@
    }
}

impl Clone for Program {
    /// A copy with the same names, each space and flow copied.
    fn clone(&self) -> (r: Self)
        ensures
            r.spaces@ == self.spaces@,
            r.flows@ == self.flows@,
    {
        let r = Program { spaces: self.spaces.clone(), flows: self.flows.clone() };
        assert(r.spaces@ =~= self.spaces@);
        assert(r.flows@ =~= self.flows@);
        r
    }
}

/// The text that `lower_flow` gives for a flow.
pub open spec fn lowered(f: FlowV) -> Seq<char>
    decreases f,
{
    match f {
        FlowV::Primitive { name, .. } => "/* "@ + name + " */\n"@,
        FlowV::Identity(s) => "/* identity "@ + space_debug(s) + " */\n"@,
        FlowV::Chain(l, r) => lowered(*l) + lowered(*r),
        FlowV::Parallel(l, r) => lowered(*l) + lowered(*r),
        FlowV::Feedback(i) => "/* feedback trace */\n"@ + lowered(*i),
        FlowV::Gradient(i) => "/* grad */\n"@ + lowered(*i),
    }
}

/// Lowers a flow to a C comment skeleton, one line per primitive or
/// identity, with feedback and gradient markers before their inner flows.
pub fn lower_flow(flow: &Flow) -> (r: String)
    ensures
        r@ == lowered(flow@),
    decreases flow,
{
    match flow {
        Flow::Primitive { name, .. } => {
            let mut out = owned("/* ");
            out.append(name.as_str());
            out.append(" */\n");
            out
        },
        Flow::Identity(space) => {
            let mut out = owned("/* identity ");
            out.append(debug_space(space).as_str());
            out.append(" */\n");
            out
        },
        Flow::Chain(left, right) => {
            let mut out = String::new();
            out.append(lower_flow(left).as_str());
            out.append(lower_flow(right).as_str());
            out
        },
        Flow::Parallel(left, right) => {
            let mut out = String::new();
            out.append(lower_flow(left).as_str());
            out.append(lower_flow(right).as_str());
            out
        },
        Flow::Feedback(inner) => {
            let mut out = String::new();
            out.append("/* feedback trace */\n");
            out.append(lower_flow(inner).as_str());
            out
        },
        Flow::Gradient(inner) => {
            let mut out = String::new();
            out.append("/* grad */\n");
            out.append(lower_flow(inner).as_str());
            out
        },
    }
}

/// A flow is well typed against a table of signatures when each primitive
/// is used at its signature's spaces, each composition feeds a flow the
/// space it consumes, and each feedback maps a space to itself.
pub open spec fn well_typed(f: FlowV, registry: Map<Seq<char>, SignatureV>) -> bool
    decreases f,
{
    match f {
        FlowV::Primitive { name, domain, codomain } => {
            &&& registry.contains_key(name)
            &&& registry[name].domain == domain
            &&& registry[name].codomain == codomain
        },
        FlowV::Identity(_) => true,
        FlowV::Chain(l, r) => well_typed(*l, registry) && well_typed(*r, registry) && l.codomain()
            == r.domain(),
        FlowV::Parallel(l, r) => well_typed(*l, registry) && well_typed(*r, registry),
        FlowV::Feedback(i) => well_typed(*i, registry) && i.domain() == i.codomain(),
        FlowV::Gradient(i) => well_typed(*i, registry),
    }
}

/// `typecheck` accepts exactly the well-typed flows.
pub proof fn lemma_check_iff_well_typed(f: FlowV, registry: Map<Seq<char>, SignatureV>)
    ensures
        check_flow(f, registry) is Ok <==> well_typed(f, registry),
    decreases f,
{
    match f {
        FlowV::Chain(l, r) => {
            lemma_check_iff_well_typed(*l, registry);
            lemma_check_iff_well_typed(*r, registry);
        },
        FlowV::Parallel(l, r) => {
            lemma_check_iff_well_typed(*l, registry);
            lemma_check_iff_well_typed(*r, registry);
        },
        FlowV::Feedback(i) => {
            lemma_check_iff_well_typed(*i, registry);
        },
        FlowV::Gradient(i) => {
            lemma_check_iff_well_typed(*i, registry);
        },
        _ => {},
    }
}

/// A flow that checks against a table still checks against any table that
/// keeps every signature of the first.
pub proof fn lemma_check_monotone(
    f: FlowV,
    registry: Map<Seq<char>, SignatureV>,
    larger: Map<Seq<char>, SignatureV>,
)
    requires
        registry.submap_of(larger),
        check_flow(f, registry) is Ok,
    ensures
        check_flow(f, larger) is Ok,
{
    lemma_check_iff_well_typed(f, registry);
    lemma_well_typed_monotone(f, registry, larger);
    lemma_check_iff_well_typed(f, larger);
}

proof fn lemma_well_typed_monotone(
    f: FlowV,
    registry: Map<Seq<char>, SignatureV>,
    larger: Map<Seq<char>, SignatureV>,
)
    requires
        registry.submap_of(larger),
        well_typed(f, registry),
    ensures
        well_typed(f, larger),
    decreases f,
{
    match f {
        FlowV::Primitive { name, .. } => {
            assert(registry.contains_key(name));
        },
        FlowV::Chain(l, r) => {
            lemma_well_typed_monotone(*l, registry, larger);
            lemma_well_typed_monotone(*r, registry, larger);
        },
        FlowV::Parallel(l, r) => {
            lemma_well_typed_monotone(*l, registry, larger);
            lemma_well_typed_monotone(*r, registry, larger);
        },
        FlowV::Feedback(i) => {
            lemma_well_typed_monotone(*i, registry, larger);
        },
        FlowV::Gradient(i) => {
            lemma_well_typed_monotone(*i, registry, larger);
        },
        _ => {},
    }
}

/// The product of spaces is associative: factors of products are spliced
/// in, so bracketing does not matter.
pub proof fn lemma_product_associative(a: SpaceV, b: SpaceV, c: SpaceV)
    ensures
        product_of(product_of(a, b), c) == product_of(a, product_of(b, c)),
{
    assert(factors(a) + factors(b) + factors(c) =~= factors(a) + (factors(b) + factors(c)));
}

/// The factors of a product are the factors of its two sides.
pub proof fn lemma_product_factors(a: SpaceV, b: SpaceV)
    ensures
        factors(product_of(a, b)) == factors(a) + factors(b),
        factors(product_of(a, b)).len() == factors(a).len() + factors(b).len(),
{
}

/// The built-in primitives: exactly `add`, `mul`, `neural_layer`,
/// `quantum_gate`, `organoid_pulse` and `logic_step`. `add` and `mul` share
/// one signature, `f64 -> f64`, analytic and pure; `neural_layer` maps an
/// `f32` tensor of 128 to one of 64; `quantum_gate` acts on 2 qubits,
/// `organoid_pulse` on 64 pins, both with device effects; `logic_step` maps
/// 8 bits to 8 bits, straight through. Every built-in but `neural_layer`
/// maps a space to itself, so it composes with itself.
pub proof fn lemma_built_in_signatures()
    ensures
        default_signatures().dom() == set![
            "add"@,
            "mul"@,
            "neural_layer"@,
            "quantum_gate"@,
            "organoid_pulse"@,
            "logic_step"@,
        ],
        default_signatures()["mul"@] == default_signatures()["add"@],
        default_signatures()["add"@].domain == SpaceV::Scalar("f64"@),
        default_signatures()["add"@].codomain == SpaceV::Scalar("f64"@),
        default_signatures()["add"@].derivative == Derivative::Analytic,
        default_signatures()["add"@].effects == seq![Effect::Pure],
        default_signatures()["neural_layer"@].domain == (SpaceV::Tensor { element: "f32"@, shape: seq![128usize] }),
        default_signatures()["neural_layer"@].codomain == (SpaceV::Tensor { element: "f32"@, shape: seq![64usize] }),
        default_signatures()["neural_layer"@].derivative == Derivative::ReverseMode,
        default_signatures()["quantum_gate"@].domain == (SpaceV::Quantum { qubits: 2 }),
        default_signatures()["quantum_gate"@].effects == seq![Effect::DeviceIo],
        default_signatures()["organoid_pulse"@].domain == (SpaceV::Organoid { pins: 64 }),
        default_signatures()["organoid_pulse"@].effects == seq![Effect::DeviceIo],
        default_signatures()["logic_step"@].domain == (SpaceV::Logic { bits: 8 }),
        default_signatures()["logic_step"@].codomain == (SpaceV::Logic { bits: 8 }),
        default_signatures()["logic_step"@].derivative == Derivative::StraightThrough,
        forall|n: Seq<char>| #[trigger] default_signatures().contains_key(n) && n != "neural_layer"@
            ==> default_signatures()[n].domain == default_signatures()[n].codomain,
        forall|n: Seq<char>| #[trigger] default_signatures().contains_key(n) && n != "neural_layer"@ ==> {
            let p = FlowV::Primitive {
                name: n,
                domain: default_signatures()[n].domain,
                codomain: default_signatures()[n].codomain,
            };
            check_flow(FlowV::Chain(Box::new(p), Box::new(p)), default_signatures()) is Ok
        },
{
    reveal_strlit("add");
    reveal_strlit("mul");
    reveal_strlit("neural_layer");
    reveal_strlit("quantum_gate");
    reveal_strlit("organoid_pulse");
    reveal_strlit("logic_step");
    assert("add"@[0] == 'a' && "mul"@[0] == 'm' && "neural_layer"@[0] == 'n');
    assert("quantum_gate"@[0] == 'q' && "organoid_pulse"@[0] == 'o' && "logic_step"@[0] == 'l');
    assert(default_signatures().dom() =~= set![
        "add"@,
        "mul"@,
        "neural_layer"@,
        "quantum_gate"@,
        "organoid_pulse"@,
        "logic_step"@,
    ]);
    assert forall|n: Seq<char>| #[trigger] default_signatures().contains_key(n) && n != "neural_layer"@ implies {
        let p = FlowV::Primitive {
            name: n,
            domain: default_signatures()[n].domain,
            codomain: default_signatures()[n].codomain,
        };
        check_flow(FlowV::Chain(Box::new(p), Box::new(p)), default_signatures()) is Ok
    } by {
        reveal_with_fuel(check_flow, 2);
    }
}

/// The number of primitives and identities in a flow.
pub open spec fn leaf_count(f: FlowV) -> nat
    decreases f,
{
    match f {
        FlowV::Primitive { .. } => 1,
        FlowV::Identity(_) => 1,
        FlowV::Chain(l, r) => leaf_count(*l) + leaf_count(*r),
        FlowV::Parallel(l, r) => leaf_count(*l) + leaf_count(*r),
        FlowV::Feedback(i) => leaf_count(*i),
        FlowV::Gradient(i) => leaf_count(*i),
    }
}

/// Lowering keeps every part of a flow: wiring two flows side by side and
/// composing them lower alike, to the lowering of the first flow followed
/// by that of the second; a primitive lowers to a comment that names it;
/// and each primitive or identity adds a comment of at least seven
/// characters, so no part is dropped.
pub proof fn lemma_lowering_keeps_every_part(l: FlowV, r: FlowV, name: Seq<char>, d: SpaceV, c: SpaceV)
    ensures
        lowered(FlowV::Parallel(Box::new(l), Box::new(r))) == lowered(l) + lowered(r),
        lowered(FlowV::Chain(Box::new(l), Box::new(r))) == lowered(
            FlowV::Parallel(Box::new(l), Box::new(r)),
        ),
        lowered(FlowV::Primitive { name, domain: d, codomain: c }) == "/* "@ + name + " */\n"@,
        lowered(l).len() >= 7 * leaf_count(l),
{
    lemma_lowered_length(l);
}

proof fn lemma_lowered_length(f: FlowV)
    ensures
        lowered(f).len() >= 7 * leaf_count(f),
    decreases f,
{
    reveal_strlit("/* ");
    reveal_strlit(" */\n");
    reveal_strlit("/* identity ");
    match f {
        FlowV::Chain(l, r) => {
            lemma_lowered_length(*l);
            lemma_lowered_length(*r);
        },
        FlowV::Parallel(l, r) => {
            lemma_lowered_length(*l);
            lemma_lowered_length(*r);
        },
        FlowV::Feedback(i) => {
            lemma_lowered_length(*i);
        },
        FlowV::Gradient(i) => {
            lemma_lowered_length(*i);
        },
        _ => {},
    }
}

/// A gradient swaps the domain and codomain of its flow, so the gradient
/// of a gradient has the type of the flow itself.
pub proof fn lemma_gradient_swaps(f: FlowV)
    ensures
        FlowV::Gradient(Box::new(f)).domain() == f.codomain(),
        FlowV::Gradient(Box::new(f)).codomain() == f.domain(),
        FlowV::Gradient(Box::new(FlowV::Gradient(Box::new(f)))).domain() == f.domain(),
        FlowV::Gradient(Box::new(FlowV::Gradient(Box::new(f)))).codomain() == f.codomain(),
{
}

/// A composition consumes what its first flow consumes and produces what
/// its second flow produces; a parallel wiring consumes and produces the
/// pairs of its flows' spaces.
pub proof fn lemma_wiring_types(l: FlowV, r: FlowV)
    ensures
        FlowV::Chain(Box::new(l), Box::new(r)).domain() == l.domain(),
        FlowV::Chain(Box::new(l), Box::new(r)).codomain() == r.codomain(),
        FlowV::Parallel(Box::new(l), Box::new(r)).domain() == SpaceV::Product(seq![l.domain(), r.domain()]),
        FlowV::Parallel(Box::new(l), Box::new(r)).codomain() == SpaceV::Product(seq![l.codomain(), r.codomain()]),
{
}

} // verus!
