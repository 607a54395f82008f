//! Spaces, flows and flow declarations of the bootstrap compiler.

use vstd::prelude::*;
use vstd::arithmetic::power2::{pow2, lemma_pow2_strictly_increases, lemma2_to64};
use vstd::std_specs::cmp::PartialEqSpecImpl;
use vstd::bits::lemma_usize_shl_is_mul;
use crate::text::{decimal_text, debug_str, owned, str_debug, usize_text};

verus! {

/// A space of the bootstrap compiler.
#[derive(Debug, Eq)]
pub enum Space {
    Scalar(String),
    Tensor(usize),
    Qubit(usize),
    Organoid(usize),
    Logic(usize),
    Product(Vec<Space>),
    Unit,
}

/// The mathematical value of a [`Space`].
pub enum SpaceV {
    Scalar(Seq<char>),
    Tensor(usize),
    Qubit(usize),
    Organoid(usize),
    Logic(usize),
    Product(Seq<SpaceV>),
    Unit,
}

impl View for Space {
    type V = SpaceV;

    open spec fn view(&self) -> SpaceV
        decreases self,
    {
        match self {
            Space::Scalar(s) => SpaceV::Scalar(s@),
            Space::Tensor(n) => SpaceV::Tensor(*n),
            Space::Qubit(n) => SpaceV::Qubit(*n),
            Space::Organoid(n) => SpaceV::Organoid(*n),
            Space::Logic(n) => SpaceV::Logic(*n),
            Space::Product(parts) => SpaceV::Product(views_of(parts@)),
            Space::Unit => SpaceV::Unit,
        }
    }
}

/// The views of a sequence of spaces, element by element.
pub open spec fn views_of(parts: Seq<Space>) -> Seq<SpaceV>
    decreases parts,
{
    if parts.len() == 0 {
        Seq::empty()
    } else {
        views_of(parts.drop_last()).push(parts.last().view())
    }
}

/// `views_of` keeps the length and views each element in place.
pub broadcast proof fn lemma_views_of(parts: Seq<Space>)
    ensures
        (#[trigger] views_of(parts)).len() == parts.len(),
        forall|j: int| 0 <= j < parts.len() ==> #[trigger] views_of(parts)[j] == parts[j]@,
    decreases parts.len(),
{
    if parts.len() > 0 {
        let rest = parts.drop_last();
        lemma_views_of(rest);
        assert(views_of(parts) == views_of(rest).push(parts.last().view()));
        assert forall|j: int| 0 <= j < parts.len() implies #[trigger] views_of(parts)[j]
            == parts[j]@ by {
            if j < rest.len() {
                assert(rest[j] == parts[j]);
            }
        }
    }
}

impl Clone for Space {
    #[verifier::loop_isolation(false)]
    fn clone(&self) -> (r: Self)
        ensures
            r@ == self@,
        decreases self,
    {
        broadcast use lemma_views_of;

        match self {
            Space::Scalar(s) => Space::Scalar(s.clone()),
            Space::Tensor(n) => Space::Tensor(*n),
            Space::Qubit(n) => Space::Qubit(*n),
            Space::Organoid(n) => Space::Organoid(*n),
            Space::Logic(n) => Space::Logic(*n),
            Space::Product(parts) => {
                let mut out: Vec<Space> = Vec::new();
                let mut i: usize = 0;
                while i < parts.len()
                    invariant
                        i <= parts@.len(),
                        out@.len() == i,
                        forall|j: int| 0 <= j < i ==> #[trigger] out@[j]@ == parts@[j]@,
                    decreases parts@.len() - i,
                {
                    out.push(parts[i].clone());
                    i = i + 1;
                }
                let r = Space::Product(out);
                assert(views_of(out@) =~= views_of(parts@));
                r
            },
            Space::Unit => Space::Unit,
        }
    }
}

/// Whether two spaces are equal, factor by factor.
#[verifier::loop_isolation(false)]
fn same_space(a: &Space, b: &Space) -> (r: bool)
    ensures
        r == (a@ == b@),
    decreases a,
{
    broadcast use lemma_views_of;

    match a {
        Space::Scalar(x) => match b {
            Space::Scalar(y) => x.eq(y),
            _ => false,
        },
        Space::Tensor(x) => match b {
            Space::Tensor(y) => *x == *y,
            _ => false,
        },
        Space::Qubit(x) => match b {
            Space::Qubit(y) => *x == *y,
            _ => false,
        },
        Space::Organoid(x) => match b {
            Space::Organoid(y) => *x == *y,
            _ => false,
        },
        Space::Logic(x) => match b {
            Space::Logic(y) => *x == *y,
            _ => false,
        },
        Space::Product(p1) => match b {
            Space::Product(p2) => {
                if p1.len() != p2.len() {
                    assert(views_of(p1@).len() != views_of(p2@).len());
                    return false;
                }
                let mut i: usize = 0;
                while i < p1.len()
                    invariant
                        i <= p1@.len(),
                        forall|j: int| 0 <= j < i ==> #[trigger] p1@[j]@ == p2@[j]@,
                    decreases p1@.len() - i,
                {
                    if !same_space(&p1[i], &p2[i]) {
                        assert(views_of(p1@)[i as int] != views_of(p2@)[i as int]);
                        return false;
                    }
                    i = i + 1;
                }
                assert(views_of(p1@) =~= views_of(p2@));
                true
            },
            _ => false,
        },
        Space::Unit => match b {
            Space::Unit => true,
            _ => false,
        },
    }
}

impl PartialEq for Space {
    fn eq(&self, other: &Self) -> (r: bool) {
        same_space(self, other)
    }
}

impl PartialEqSpecImpl for Space {
    open spec fn obeys_eq_spec() -> bool {
        true
    }

    open spec fn eq_spec(&self, other: &Self) -> bool {
        self@ == other@
    }
}

/// The number of bytes that a value of a space occupies: 8 for a scalar
/// (an `f64`), 4 per element of a tensor or organoid channel (an `f32`),
/// two `f32` per amplitude of a `2^n`-amplitude qubit register, one byte per
/// eight logic bits rounded up, and the sum of the factors for a product.
pub open spec fn space_size(s: SpaceV) -> nat
    decreases s,
{
    match s {
        SpaceV::Scalar(_) => 8,
        SpaceV::Tensor(n) => (n * 4) as nat,
        SpaceV::Qubit(n) => pow2(n as nat) * 4 * 2,
        SpaceV::Organoid(n) => (n * 4) as nat,
        SpaceV::Logic(n) => ((n + 7) / 8) as nat,
        SpaceV::Product(parts) => sizes_sum(parts),
        SpaceV::Unit => 0,
    }
}

/// The sum of the sizes of a sequence of spaces.
pub open spec fn sizes_sum(parts: Seq<SpaceV>) -> nat
    decreases parts,
{
    if parts.len() == 0 {
        0
    } else {
        sizes_sum(parts.drop_last()) + space_size(parts.last())
    }
}

proof fn lemma_sizes_sum_prefix(parts: Seq<SpaceV>, k: int)
    requires
        0 <= k < parts.len(),
    ensures
        sizes_sum(parts.take(k + 1)) == sizes_sum(parts.take(k)) + space_size(parts[k]),
        sizes_sum(parts.take(k + 1)) <= sizes_sum(parts),
    decreases parts.len(),
{
    assert(parts.take(k + 1).drop_last() =~= parts.take(k));
    if k + 1 < parts.len() {
        lemma_sizes_sum_prefix(parts.drop_last(), k);
        assert(parts.drop_last().take(k + 1) =~= parts.take(k + 1));
    } else {
        assert(parts.take(k + 1) =~= parts);
    }
}

/// The C type that carries a value of a space.
pub open spec fn c_type(s: SpaceV) -> Seq<char> {
    match s {
        SpaceV::Scalar(_) => "double"@,
        SpaceV::Tensor(_) => "float*"@,
        SpaceV::Qubit(_) => "float*"@,
        SpaceV::Organoid(_) => "float*"@,
        SpaceV::Logic(_) => "uint8_t*"@,
        SpaceV::Product(_) => "void*"@,
        SpaceV::Unit => "void"@,
    }
}

impl Space {
    /// The number of bytes that a value of this space occupies.
    #[verifier::loop_isolation(false)]
    pub fn size_in_bytes(&self) -> (r: usize)
        requires
            space_size(self@) <= usize::MAX,
        ensures
            r == space_size(self@),
        decreases self,
    {
        broadcast use lemma_views_of;

        match self {
            Space::Scalar(_) => 8,
            Space::Tensor(n) => *n * 4,
            Space::Qubit(n) => {
                proof {
                    if *n >= usize::BITS {
                        if *n > usize::BITS {
                            lemma_pow2_strictly_increases(usize::BITS as nat, *n as nat);
                        }
                        lemma2_to64();
                    }
                    lemma_usize_shl_is_mul(1, *n);
                }
                (1usize << *n) * 4 * 2
            },
            Space::Organoid(n) => *n * 4,
            Space::Logic(n) => *n / 8 + if *n % 8 == 0 { 0 } else { 1 },
            Space::Product(spaces) => {
                let ghost vs = views_of(spaces@);
                let mut total: usize = 0;
                let mut i: usize = 0;
                assert(vs.take(0) =~= Seq::<SpaceV>::empty());
                while i < spaces.len()
                    invariant
                        i <= spaces@.len(),
                        total == sizes_sum(vs.take(i as int)),
                    decreases spaces@.len() - i,
                {
                    proof {
                        lemma_sizes_sum_prefix(vs, i as int);
                    }
                    total = total + spaces[i].size_in_bytes();
                    i = i + 1;
                }
                assert(vs.take(i as int) =~= vs);
                total
            },
            Space::Unit => 0,
        }
    }

    /// The C type that carries a value of this space.
    pub fn c_type_string(&self) -> (r: String)
        ensures
            r@ == c_type(self@),
    {
        match self {
            Space::Scalar(_) => owned("double"),
            Space::Tensor(_) => owned("float*"),
            Space::Qubit(_) => owned("float*"),
            Space::Organoid(_) => owned("float*"),
            Space::Logic(_) => owned("uint8_t*"),
            Space::Product(_) => owned("void*"),
            Space::Unit => owned("void"),
        }
    }
}

/// The `Debug` text of a space: the variant's name, with its field in
/// brackets where it has one.
pub open spec fn space_debug(s: SpaceV) -> Seq<char>
    decreases s,
{
    match s {
        SpaceV::Scalar(x) => "Scalar("@ + str_debug(x) + ")"@,
        SpaceV::Tensor(n) => "Tensor("@ + decimal_text(n as nat) + ")"@,
        SpaceV::Qubit(n) => "Qubit("@ + decimal_text(n as nat) + ")"@,
        SpaceV::Organoid(n) => "Organoid("@ + decimal_text(n as nat) + ")"@,
        SpaceV::Logic(n) => "Logic("@ + decimal_text(n as nat) + ")"@,
        SpaceV::Product(parts) => "Product(["@ + spaces_joined(parts) + "])"@,
        SpaceV::Unit => "Unit"@,
    }
}

/// The `Debug` texts of a sequence of spaces, separated by `", "`.
pub open spec fn spaces_joined(parts: Seq<SpaceV>) -> Seq<char>
    decreases parts,
{
    if parts.len() == 0 {
        Seq::empty()
    } else if parts.len() == 1 {
        space_debug(parts[0])
    } else {
        spaces_joined(parts.drop_last()) + ", "@ + space_debug(parts.last())
    }
}

/// `head` followed by `n` and a closing bracket: the `Debug` text of a
/// variant that holds one size, where `head` is the name and `(`.
fn sized_debug(head: &str, n: usize) -> (r: String)
    ensures
        r@ == head@ + decimal_text(n as nat) + ")"@,
{
    let mut r = owned(head);
    r.append(usize_text(n).as_str());
    r.append(")");
    r
}

/// The `Debug` text of a space, as `format!("{:?}", s)` gives it.
#[verifier::loop_isolation(false)]
pub fn debug_space(s: &Space) -> (r: String)
    ensures
        r@ == space_debug(s@),
    decreases s,
{
    broadcast use lemma_views_of;

    match s {
        Space::Scalar(x) => {
            let mut r = owned("Scalar(");
            r.append(debug_str(x.as_str()).as_str());
            r.append(")");
            r
        },
        Space::Tensor(n) => sized_debug("Tensor(", *n),
        Space::Qubit(n) => sized_debug("Qubit(", *n),
        Space::Organoid(n) => sized_debug("Organoid(", *n),
        Space::Logic(n) => sized_debug("Logic(", *n),
        Space::Product(parts) => {
            let ghost vs = views_of(parts@);
            let mut r = owned("Product([");
            let ghost head = r@;
            let mut i: usize = 0;
            while i < parts.len()
                invariant
                    i <= parts@.len(),
                    r@ == head + spaces_joined(vs.take(i as int)),
                decreases parts@.len() - i,
            {
                if i > 0 {
                    r.append(", ");
                }
                r.append(debug_space(&parts[i]).as_str());
                proof {
                    let t = vs.take(i + 1);
                    assert(t.drop_last() =~= vs.take(i as int));
                    if i == 0 {
                        assert(spaces_joined(vs.take(0)) =~= Seq::<char>::empty());
                    }
                }
                i = i + 1;
            }
            assert(vs.take(i as int) =~= vs);
            r.append("])");
            r
        },
        Space::Unit => owned("Unit"),
    }
}

/// A flow of the bootstrap compiler.
#[derive(Debug)]
pub enum Flow {
    Primitive(String),
    Chain(Box<Flow>, Box<Flow>),
    Parallel(Box<Flow>, Box<Flow>),
    Feedback(Box<Flow>),
    Identity(Space),
    Derivative(Box<Flow>),
}

/// The mathematical value of a [`Flow`].
pub enum FlowV {
    Primitive(Seq<char>),
    Chain(Box<FlowV>, Box<FlowV>),
    Parallel(Box<FlowV>, Box<FlowV>),
    Feedback(Box<FlowV>),
    Identity(SpaceV),
    Derivative(Box<FlowV>),
}

impl View for Flow {
    type V = FlowV;

    open spec fn view(&self) -> FlowV
        decreases self,
    {
        match self {
            Flow::Primitive(name) => FlowV::Primitive(name@),
            Flow::Chain(f, g) => FlowV::Chain(Box::new((**f).view()), Box::new((**g).view())),
            Flow::Parallel(f, g) => FlowV::Parallel(Box::new((**f).view()), Box::new((**g).view())),
            Flow::Feedback(i) => FlowV::Feedback(Box::new((**i).view())),
            Flow::Identity(s) => FlowV::Identity(s@),
            Flow::Derivative(i) => FlowV::Derivative(Box::new((**i).view())),
        }
    }
}

impl Clone for Flow {
    fn clone(&self) -> (r: Self)
        ensures
            r@ == self@,
        decreases self,
    {
        match self {
            Flow::Primitive(name) => Flow::Primitive(name.clone()),
            Flow::Chain(f, g) => Flow::Chain(Box::new((**f).clone()), Box::new((**g).clone())),
            Flow::Parallel(f, g) => Flow::Parallel(Box::new((**f).clone()), Box::new((**g).clone())),
            Flow::Feedback(i) => Flow::Feedback(Box::new((**i).clone())),
            Flow::Identity(s) => Flow::Identity(s.clone()),
            Flow::Derivative(i) => Flow::Derivative(Box::new((**i).clone())),
        }
    }
}

/// A named flow, with its annotated type when it has one.
#[derive(Debug)]
pub struct FlowDecl {
    pub name: String,
    pub dom: Option<Space>,
    pub cod: Option<Space>,
    pub body: Flow,
}

/// The mathematical value of a [`FlowDecl`].
pub struct FlowDeclV {
    pub name: Seq<char>,
    pub dom: Option<SpaceV>,
    pub cod: Option<SpaceV>,
    pub body: FlowV,
}

/// The view of an optional space.
pub open spec fn option_view(s: Option<Space>) -> Option<SpaceV> {
    match s {
        Some(s) => Some(s@),
        None => None,
    }
}

impl View for FlowDecl {
    type V = FlowDeclV;

    open spec fn view(&self) -> FlowDeclV {
        FlowDeclV {
            name: self.name@,
            dom: option_view(self.dom),
            cod: option_view(self.cod),
            body: self.body@,
        }
    }
}

fn clone_option(s: &Option<Space>) -> (r: Option<Space>)
    ensures
        option_view(r) == option_view(*s),
{
    match s {
        Some(s) => Some(s.clone()),
        None => None,
    }
}

impl Clone for FlowDecl {
    fn clone(&self) -> (r: Self)
        ensures
            r@ == self@,
    {
        FlowDecl {
            name: self.name.clone(),
            dom: clone_option(&self.dom),
            cod: clone_option(&self.cod),
            body: self.body.clone(),
        }
    }
}

} // verus!
