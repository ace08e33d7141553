//! The identity of a symbol: the descriptors that lead to it.

use crate::items::views;
use crate::text::all_plain;
use vstd::prelude::*;
use vstd::string::StringExecFns;

verus! {

/// What tells methods of one name apart.
#[derive(Clone, Debug, PartialEq, Eq, Hash)]
pub struct MethodDisambiguator {
    pub text: String,
}

impl View for MethodDisambiguator {
    type V = Seq<char>;

    open spec fn view(&self) -> Seq<char> {
        self.text@
    }
}

impl MethodDisambiguator {
    /// The disambiguator of a method that needs none.
    pub fn empty() -> (d: MethodDisambiguator)
        ensures
            d@ == Seq::<char>::empty(),
    {
        let text = String::new();
        assert(text@ =~= Seq::<char>::empty());
        MethodDisambiguator { text }
    }
}

/// One step on the way to a symbol.
#[derive(Clone, Debug, PartialEq, Eq, Hash)]
pub enum Descriptor {
    Namespace(String),
    Type(String),
    Term(String),
    Method { name: String, disambiguator: MethodDisambiguator },
    Macro(String),
}

/// The contents of a [`Descriptor`].
pub enum DescriptorView {
    Namespace(Seq<char>),
    Type(Seq<char>),
    Term(Seq<char>),
    Method { name: Seq<char>, disambiguator: Seq<char> },
    Macro(Seq<char>),
}

impl View for Descriptor {
    type V = DescriptorView;

    open spec fn view(&self) -> DescriptorView {
        match self {
            Descriptor::Namespace(name) => DescriptorView::Namespace(name@),
            Descriptor::Type(name) => DescriptorView::Type(name@),
            Descriptor::Term(name) => DescriptorView::Term(name@),
            Descriptor::Method { name, disambiguator } => DescriptorView::Method {
                name: name@,
                disambiguator: disambiguator@,
            },
            Descriptor::Macro(name) => DescriptorView::Macro(name@),
        }
    }
}

impl DescriptorView {
    /// The name of the step.
    pub open spec fn name(self) -> Seq<char> {
        match self {
            DescriptorView::Namespace(name) => name,
            DescriptorView::Type(name) => name,
            DescriptorView::Term(name) => name,
            DescriptorView::Method { name, disambiguator } => name,
            DescriptorView::Macro(name) => name,
        }
    }

    /// The step as it stands in the text of a symbol's identity.
    pub open spec fn rendered(self) -> Seq<char> {
        match self {
            DescriptorView::Namespace(name) => name + "/"@,
            DescriptorView::Type(name) => name + "#"@,
            DescriptorView::Term(name) => name + "."@,
            DescriptorView::Method { name, disambiguator } => name + "("@ + disambiguator + ")."@,
            DescriptorView::Macro(name) => name + "!"@,
        }
    }
}

/// The descriptor of a method that needs no disambiguator.
pub open spec fn method_view(name: Seq<char>) -> DescriptorView {
    DescriptorView::Method { name, disambiguator: Seq::empty() }
}

impl Descriptor {
    /// A method that needs no disambiguator.
    pub fn method(name: String) -> (d: Descriptor)
        ensures
            d@ == method_view(name@),
    {
        Descriptor::Method { name, disambiguator: MethodDisambiguator::empty() }
    }

    /// The name of the step.
    pub fn name(&self) -> (name: &str)
        ensures
            name@ == self@.name(),
    {
        match self {
            Descriptor::Namespace(name) => name.as_str(),
            Descriptor::Type(name) => name.as_str(),
            Descriptor::Term(name) => name.as_str(),
            Descriptor::Method { name, disambiguator: _ } => name.as_str(),
            Descriptor::Macro(name) => name.as_str(),
        }
    }

    /// An equal descriptor.
    pub fn copy(&self) -> (d: Descriptor)
        ensures
            d@ == self@,
    {
        match self {
            Descriptor::Namespace(name) => Descriptor::Namespace(name.as_str().to_owned()),
            Descriptor::Type(name) => Descriptor::Type(name.as_str().to_owned()),
            Descriptor::Term(name) => Descriptor::Term(name.as_str().to_owned()),
            Descriptor::Method { name, disambiguator } => Descriptor::Method {
                name: name.as_str().to_owned(),
                disambiguator: MethodDisambiguator { text: disambiguator.text.as_str().to_owned() },
            },
            Descriptor::Macro(name) => Descriptor::Macro(name.as_str().to_owned()),
        }
    }

    /// Appends the step as it stands in the text of a symbol's identity.
    fn render(&self, out: &mut String)
        ensures
            final(out)@ == old(out)@ + self@.rendered(),
    {
        out.append(self.name());
        match self {
            Descriptor::Namespace(_) => out.append("/"),
            Descriptor::Type(_) => out.append("#"),
            Descriptor::Term(_) => out.append("."),
            Descriptor::Method { name: _, disambiguator } => {
                out.append("(");
                out.append(disambiguator.text.as_str());
                out.append(").");
            },
            Descriptor::Macro(_) => out.append("!"),
        }
    }
}

/// Equal descriptors, in order.
pub fn copy_descriptors(descriptors: &Vec<Descriptor>) -> (copies: Vec<Descriptor>)
    ensures
        views(copies@) == views(descriptors@),
{
    let mut copies: Vec<Descriptor> = Vec::new();
    let mut i: usize = 0;
    while i < descriptors.len()
        invariant
            i <= descriptors@.len(),
            copies@.len() == i,
            forall|j: int| 0 <= j < i ==> #[trigger] copies@[j]@ == descriptors@[j]@,
        decreases descriptors@.len() - i,
    {
        copies.push(descriptors[i].copy());
        i += 1;
    }
    assert(views(copies@) =~= views(descriptors@));
    copies
}

/// The identity of a symbol.
#[derive(Clone, Debug, PartialEq, Eq, Hash)]
pub struct SymbolId {
    pub descriptors: Vec<Descriptor>,
}

impl View for SymbolId {
    type V = Seq<DescriptorView>;

    open spec fn view(&self) -> Seq<DescriptorView> {
        views(self.descriptors@)
    }
}

/// The first `n` steps, as they stand in the text of a symbol's identity.
pub open spec fn rendered_steps(steps: Seq<DescriptorView>, n: int) -> Seq<char>
    decreases n,
{
    if n <= 0 {
        Seq::empty()
    } else {
        rendered_steps(steps, n - 1) + steps[n - 1].rendered()
    }
}

/// The text of a symbol's identity: the scheme, three empty fields and the steps.
pub open spec fn scip_text(steps: Seq<DescriptorView>) -> Seq<char> {
    "codegraph . . . "@ + rendered_steps(steps, steps.len() as int)
}

/// The steps into namespaces.
pub open spec fn namespace_steps(names: Seq<Seq<char>>) -> Seq<DescriptorView> {
    names.map_values(|name: Seq<char>| DescriptorView::Namespace(name))
}

/// Different lists of namespaces have different texts, where no name holds a `/`.
pub proof fn namespaces_render_apart(a: Seq<Seq<char>>, b: Seq<Seq<char>>)
    requires
        all_plain(a, '/'),
        all_plain(b, '/'),
        a != b,
    ensures
        scip_text(namespace_steps(a)) != scip_text(namespace_steps(b)),
{
    if scip_text(namespace_steps(a)) == scip_text(namespace_steps(b)) {
        let front = "codegraph . . . "@;
        let x = rendered_steps(namespace_steps(a), a.len() as int);
        let y = rendered_steps(namespace_steps(b), b.len() as int);
        assert((front + x).subrange(front.len() as int, (front + x).len() as int) =~= x);
        assert((front + y).subrange(front.len() as int, (front + y).len() as int) =~= y);
        rendered_alike(a, b, a.len() as int, b.len() as int);
        assert(a =~= b);
    }
}

/// A list of namespaces that is not empty ends with `/` in its text.
proof fn rendered_ends(a: Seq<Seq<char>>, n: int)
    requires
        0 <= n <= a.len(),
    ensures
        ({
            let x = rendered_steps(namespace_steps(a), n);
            if n == 0 {
                x.len() == 0
            } else {
                x.len() > 0 && x.last() == '/'
            }
        }),
{
    reveal_strlit("/");
}

proof fn rendered_alike(a: Seq<Seq<char>>, b: Seq<Seq<char>>, n: int, m: int)
    requires
        all_plain(a, '/'),
        all_plain(b, '/'),
        0 <= n <= a.len(),
        0 <= m <= b.len(),
        rendered_steps(namespace_steps(a), n) == rendered_steps(namespace_steps(b), m),
    ensures
        n == m,
        forall|k: int| 0 <= k < n ==> #[trigger] a[k] == b[k],
    decreases n,
{
    rendered_ends(a, n);
    rendered_ends(b, m);
    if n > 0 && m > 0 {
        reveal_strlit("/");
        let x = rendered_steps(namespace_steps(a), n - 1);
        let y = rendered_steps(namespace_steps(b), m - 1);
        let whole = rendered_steps(namespace_steps(a), n);
        rendered_ends(a, n - 1);
        rendered_ends(b, m - 1);
        assert(whole == x + (a[n - 1] + "/"@));
        assert(whole == y + (b[m - 1] + "/"@));
        if x.len() < y.len() {
            assert(whole[y.len() - 1] == '/');
            assert(a[n - 1][y.len() - 1 - x.len()] == '/');
        } else if y.len() < x.len() {
            assert(whole[x.len() - 1] == '/');
            assert(b[m - 1][x.len() - 1 - y.len()] == '/');
        }
        assert(x =~= whole.subrange(0, x.len() as int));
        assert(y =~= whole.subrange(0, x.len() as int));
        assert(a[n - 1] =~= whole.subrange(x.len() as int, whole.len() - 1));
        assert(b[m - 1] =~= whole.subrange(x.len() as int, whole.len() - 1));
        rendered_alike(a, b, n - 1, m - 1);
    }
}

impl SymbolId {
    /// The text of the identity.
    pub fn to_scip_string(&self) -> (text: String)
        ensures
            text@ == scip_text(self@),
    {
        let mut text = "codegraph . . . ".to_owned();
        let mut i: usize = 0;
        while i < self.descriptors.len()
            invariant
                i <= self.descriptors@.len(),
                text@ == "codegraph . . . "@ + rendered_steps(self@, i as int),
            decreases self.descriptors@.len() - i,
        {
            self.descriptors[i].render(&mut text);
            i += 1;
        }
        text
    }

    /// An equal identity.
    pub fn copy(&self) -> (id: SymbolId)
        ensures
            id@ == self@,
    {
        SymbolId { descriptors: copy_descriptors(&self.descriptors) }
    }
}

} // verus!
