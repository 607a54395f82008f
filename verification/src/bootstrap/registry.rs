//! Primitives of the bootstrap compiler and the registry that holds them,
//! together with the spaces that a program declares.

use vstd::prelude::*;
use crate::bootstrap::ast::{Space, SpaceV, lemma_views_of, views_of};
use crate::text::owned;
use crate::names::NameMap;

verus! {

/// The device family that a primitive runs on.
#[derive(Debug, Clone, Copy, PartialEq, Eq, Structural)]
pub enum PrimitiveFamily {
    Scalar,
    Tensor,
    Quantum,
    Organoid,
    Logic,
}

/// A primitive: its type, its family, and the C code of its forward and
/// adjoint passes.
#[derive(Debug)]
pub struct Primitive {
    pub name: String,
    pub dom: Space,
    pub cod: Space,
    pub family: PrimitiveFamily,
    pub forward_c: String,
    pub adjoint_c: String,
}

/// The mathematical value of a [`Primitive`].
pub struct PrimitiveV {
    pub name: Seq<char>,
    pub dom: SpaceV,
    pub cod: SpaceV,
    pub family: PrimitiveFamily,
    pub forward_c: Seq<char>,
    pub adjoint_c: Seq<char>,
}

impl View for Primitive {
    type V = PrimitiveV;

    open spec fn view(&self) -> PrimitiveV {
        PrimitiveV {
            name: self.name@,
            dom: self.dom@,
            cod: self.cod@,
            family: self.family,
            forward_c: self.forward_c@,
            adjoint_c: self.adjoint_c@,
        }
    }
}

impl Clone for Primitive {
    fn clone(&self) -> (r: Self)
        ensures
            r@ == self@,
    {
        Primitive {
            name: self.name.clone(),
            dom: self.dom.clone(),
            cod: self.cod.clone(),
            family: self.family,
            forward_c: self.forward_c.clone(),
            adjoint_c: self.adjoint_c.clone(),
        }
    }
}

/// The primitives known to the compiler and the spaces a program declared.
#[derive(Debug)]
pub struct PrimitiveRegistry {
    pub primitives: NameMap<Primitive>,
    pub declared_spaces: NameMap<Space>,
}

/// The mathematical value of a [`PrimitiveRegistry`].
pub struct RegistryV {
    pub primitives: Map<Seq<char>, PrimitiveV>,
    pub declared_spaces: Map<Seq<char>, SpaceV>,
}

impl View for PrimitiveRegistry {
    type V = RegistryV;

    open spec fn view(&self) -> RegistryV {
        RegistryV { primitives: self.primitives@, declared_spaces: self.declared_spaces@ }
    }
}

impl Clone for PrimitiveRegistry {
    /// A copy with the same names, each primitive and space copied.
    fn clone(&self) -> (r: Self)
        ensures
            r@ == self@,
    {
        let r = PrimitiveRegistry {
            primitives: self.primitives.clone(),
            declared_spaces: self.declared_spaces.clone(),
        };
        assert(r@.primitives =~= self@.primitives);
        assert(r@.declared_spaces =~= self@.declared_spaces);
        r
    }
}

/// A primitive's value.
pub open spec fn primitive_v(
    name: Seq<char>,
    dom: SpaceV,
    cod: SpaceV,
    family: PrimitiveFamily,
    forward_c: Seq<char>,
    adjoint_c: Seq<char>,
) -> PrimitiveV {
    PrimitiveV { name, dom, cod, family, forward_c, adjoint_c }
}

/// Two `f64` scalars side by side.
pub open spec fn two_scalars() -> SpaceV {
    SpaceV::Product(seq![SpaceV::Scalar("f64"@), SpaceV::Scalar("f64"@)])
}

/// `primitives` with the built-in primitives registered over it, in order.
pub open spec fn with_defaults(primitives: Map<Seq<char>, PrimitiveV>) -> Map<Seq<char>, PrimitiveV> {
    primitives.insert(
        "add"@,
        primitive_v(
            "add"@,
            two_scalars(),
            SpaceV::Scalar("f64"@),
            PrimitiveFamily::Scalar,
            "*out = in[0] + in[1];"@,
            "grad_in[0] = *grad_out; grad_in[1] = *grad_out;"@,
        ),
    ).insert(
        "mul"@,
        primitive_v(
            "mul"@,
            two_scalars(),
            SpaceV::Scalar("f64"@),
            PrimitiveFamily::Scalar,
            "*out = in[0] * in[1];"@,
            "grad_in[0] = *grad_out * in[1]; grad_in[1] = *grad_out * in[0];"@,
        ),
    ).insert(
        "neural_layer"@,
        primitive_v(
            "neural_layer"@,
            SpaceV::Tensor(128),
            SpaceV::Tensor(64),
            PrimitiveFamily::Tensor,
            "cpu_dense_forward(in, out, 128, 64);"@,
            "cpu_dense_backward(grad_out, grad_in, 128, 64);"@,
        ),
    ).insert(
        "quantum_gate"@,
        primitive_v(
            "quantum_gate"@,
            SpaceV::Qubit(2),
            SpaceV::Qubit(2),
            PrimitiveFamily::Quantum,
            "quantum_unitary_apply(dev->qasm_fd, in, out, 2);"@,
            "quantum_parameter_shift_adjoint(dev->qasm_fd, grad_out, grad_in, 2);"@,
        ),
    ).insert(
        "organoid_step"@,
        primitive_v(
            "organoid_step"@,
            SpaceV::Organoid(64),
            SpaceV::Organoid(64),
            PrimitiveFamily::Organoid,
            "organoid_dac_adc_transceive(dev->mea_fd, in, out, 64);"@,
            "organoid_adjoint_sensitivity_integrate(dev->mea_fd, grad_out, grad_in, 64);"@,
        ),
    ).insert(
        "organoid_pulse"@,
        primitive_v(
            "organoid_pulse"@,
            SpaceV::Organoid(64),
            SpaceV::Organoid(64),
            PrimitiveFamily::Organoid,
            "organoid_dac_adc_transceive(dev->mea_fd, in, out, 64);"@,
            "organoid_adjoint_sensitivity_integrate(dev->mea_fd, grad_out, grad_in, 64);"@,
        ),
    ).insert(
        "logic_step"@,
        primitive_v(
            "logic_step"@,
            SpaceV::Logic(8),
            SpaceV::Logic(8),
            PrimitiveFamily::Logic,
            "logic_pack_apply(in, out, 8);"@,
            "logic_unpack_adjoint(grad_out, grad_in, 8);"@,
        ),
    )
}

/// The forward and adjoint code for `name`: the registered primitive's, or
/// a comment that names the missing primitive.
pub open spec fn default_impl(primitives: Map<Seq<char>, PrimitiveV>, name: Seq<char>) -> (Seq<char>, Seq<char>) {
    if primitives.contains_key(name) {
        (primitives[name].forward_c, primitives[name].adjoint_c)
    } else {
        (
            "/* default forward fallback for "@ + name + " */"@,
            "/* default adjoint fallback for "@ + name + " */"@,
        )
    }
}

fn two_f64() -> (r: Space)
    ensures
        r@ == two_scalars(),
{
    let mut parts: Vec<Space> = Vec::new();
    parts.push(Space::Scalar(owned("f64")));
    parts.push(Space::Scalar(owned("f64")));
    proof {
        lemma_views_of(parts@);
        assert(views_of(parts@) =~= seq![SpaceV::Scalar("f64"@), SpaceV::Scalar("f64"@)]);
    }
    Space::Product(parts)
}

fn primitive(
    name: &str,
    dom: Space,
    cod: Space,
    family: PrimitiveFamily,
    forward_c: &str,
    adjoint_c: &str,
) -> (r: Primitive)
    ensures
        r@ == primitive_v(name@, dom@, cod@, family, forward_c@, adjoint_c@),
{
    Primitive {
        name: owned(name),
        dom,
        cod,
        family,
        forward_c: owned(forward_c),
        adjoint_c: owned(adjoint_c),
    }
}

impl PrimitiveRegistry {
    /// A registry that holds the built-in primitives and no declared space.
    pub fn new() -> (r: Self)
        ensures
            r@.primitives == with_defaults(Map::empty()),
            r@.declared_spaces == Map::<Seq<char>, SpaceV>::empty(),
    {
        let mut reg = PrimitiveRegistry { primitives: NameMap::new(), declared_spaces: NameMap::new() };
        reg.register_defaults();
        reg
    }

    /// Registers the built-in primitives, replacing any of the same names.
    pub fn register_defaults(&mut self)
        ensures
            final(self)@.primitives == with_defaults(old(self)@.primitives),
            final(self)@.declared_spaces == old(self)@.declared_spaces,
    {
        self.register(
            primitive(
                "add",
                two_f64(),
                Space::Scalar(owned("f64")),
                PrimitiveFamily::Scalar,
                "*out = in[0] + in[1];",
                "grad_in[0] = *grad_out; grad_in[1] = *grad_out;",
            ),
        );
        self.register(
            primitive(
                "mul",
                two_f64(),
                Space::Scalar(owned("f64")),
                PrimitiveFamily::Scalar,
                "*out = in[0] * in[1];",
                "grad_in[0] = *grad_out * in[1]; grad_in[1] = *grad_out * in[0];",
            ),
        );
        self.register(
            primitive(
                "neural_layer",
                Space::Tensor(128),
                Space::Tensor(64),
                PrimitiveFamily::Tensor,
                "cpu_dense_forward(in, out, 128, 64);",
                "cpu_dense_backward(grad_out, grad_in, 128, 64);",
            ),
        );
        self.register(
            primitive(
                "quantum_gate",
                Space::Qubit(2),
                Space::Qubit(2),
                PrimitiveFamily::Quantum,
                "quantum_unitary_apply(dev->qasm_fd, in, out, 2);",
                "quantum_parameter_shift_adjoint(dev->qasm_fd, grad_out, grad_in, 2);",
            ),
        );
        self.register(
            primitive(
                "organoid_step",
                Space::Organoid(64),
                Space::Organoid(64),
                PrimitiveFamily::Organoid,
                "organoid_dac_adc_transceive(dev->mea_fd, in, out, 64);",
                "organoid_adjoint_sensitivity_integrate(dev->mea_fd, grad_out, grad_in, 64);",
            ),
        );
        self.register(
            primitive(
                "organoid_pulse",
                Space::Organoid(64),
                Space::Organoid(64),
                PrimitiveFamily::Organoid,
                "organoid_dac_adc_transceive(dev->mea_fd, in, out, 64);",
                "organoid_adjoint_sensitivity_integrate(dev->mea_fd, grad_out, grad_in, 64);",
            ),
        );
        self.register(
            primitive(
                "logic_step",
                Space::Logic(8),
                Space::Logic(8),
                PrimitiveFamily::Logic,
                "logic_pack_apply(in, out, 8);",
                "logic_unpack_adjoint(grad_out, grad_in, 8);",
            ),
        );
    }

    /// Registers `prim` under its name, replacing any primitive of that name.
    pub fn register(&mut self, prim: Primitive)
        ensures
            final(self)@.primitives == old(self)@.primitives.insert(prim@.name, prim@),
            final(self)@.declared_spaces == old(self)@.declared_spaces,
    {
        let name = prim.name.clone();
        self.primitives.insert(name, prim);
    }

    /// The primitive registered under `name`, if any.
    pub fn get(&self, name: &str) -> (r: Option<&Primitive>)
        ensures
            match r {
                Some(p) => self@.primitives.contains_key(name@) && self@.primitives[name@] == p@,
                None => !self@.primitives.contains_key(name@),
            },
    {
        self.primitives.get(name)
    }

    /// The forward and adjoint code for `name`.
    pub fn get_default_impl(&self, name: &str) -> (r: (String, String))
        ensures
            (r.0@, r.1@) == default_impl(self@.primitives, name@),
    {
        if let Some(prim) = self.get(name) {
            (prim.forward_c.clone(), prim.adjoint_c.clone())
        } else {
            let mut forward = owned("/* default forward fallback for ");
            forward.append(name);
            forward.append(" */");
            let mut adjoint = owned("/* default adjoint fallback for ");
            adjoint.append(name);
            adjoint.append(" */");
            assert(forward@ =~= "/* default forward fallback for "@ + name@ + " */"@);
            assert(adjoint@ =~= "/* default adjoint fallback for "@ + name@ + " */"@);
            (forward, adjoint)
        }
    }
}

/// After registering a primitive, its name gives it back, and every other
/// name keeps what it had.
pub proof fn lemma_register_then_get(primitives: Map<Seq<char>, PrimitiveV>, p: PrimitiveV, other: Seq<char>)
    ensures
        primitives.insert(p.name, p).contains_key(p.name),
        primitives.insert(p.name, p)[p.name] == p,
        other != p.name ==> primitives.insert(p.name, p).contains_key(other) == primitives.contains_key(other),
        other != p.name && primitives.contains_key(other) ==> primitives.insert(p.name, p)[other] == primitives[other],
{
}

/// After the built-in primitives are registered, each of their names is
/// known, whatever the registry held before, and names that were known
/// stay known.
pub proof fn lemma_defaults_registered(primitives: Map<Seq<char>, PrimitiveV>, other: Seq<char>)
    ensures
        with_defaults(primitives).contains_key("add"@),
        with_defaults(primitives).contains_key("mul"@),
        with_defaults(primitives).contains_key("neural_layer"@),
        with_defaults(primitives).contains_key("quantum_gate"@),
        with_defaults(primitives).contains_key("organoid_step"@),
        with_defaults(primitives).contains_key("organoid_pulse"@),
        with_defaults(primitives).contains_key("logic_step"@),
        primitives.contains_key(other) ==> with_defaults(primitives).contains_key(other),
{
}

/// The code for a registered name is the primitive's own; for any other
/// name it is a fallback comment.
pub proof fn lemma_default_impl_of_registered(primitives: Map<Seq<char>, PrimitiveV>, p: PrimitiveV)
    ensures
        default_impl(primitives.insert(p.name, p), p.name) == (p.forward_c, p.adjoint_c),
{
}

} // verus!
