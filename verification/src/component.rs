//! Item paths: ordered sequences of named and anonymous components.

use vstd::prelude::*;

verus! {

/// The spec-level value of a single path component.
pub enum ComponentModel {
    /// A named component.
    Str(Seq<char>),
    /// An anonymous block, numbered by sibling order.
    Block(int),
    /// An anonymous closure, numbered by sibling order.
    Closure(int),
    /// An anonymous async block, numbered by sibling order.
    AsyncBlock(int),
    /// The anonymous slot of a macro call, numbered by sibling order.
    Macro(int),
}

/// A single component of an item path.
///
/// Anonymous constructs carry the index they were given among their
/// siblings rather than a name.
#[derive(Debug, Clone)]
pub enum Component {
    /// A named component.
    Str(String),
    /// An anonymous block, numbered by sibling order.
    Block(usize),
    /// An anonymous closure, numbered by sibling order.
    Closure(usize),
    /// An anonymous async block, numbered by sibling order.
    AsyncBlock(usize),
    /// The anonymous slot of a macro call, numbered by sibling order.
    Macro(usize),
}

impl View for Component {
    type V = ComponentModel;

    open spec fn view(&self) -> ComponentModel {
        match self {
            Component::Str(s) => ComponentModel::Str(s@),
            Component::Block(n) => ComponentModel::Block(*n as int),
            Component::Closure(n) => ComponentModel::Closure(*n as int),
            Component::AsyncBlock(n) => ComponentModel::AsyncBlock(*n as int),
            Component::Macro(n) => ComponentModel::Macro(*n as int),
        }
    }
}

impl DeepView for Component {
    type V = ComponentModel;

    open spec fn deep_view(&self) -> ComponentModel {
        self.view()
    }
}

impl Component {
    /// An exact copy of the component.
    pub fn cloned(&self) -> (r: Self)
        ensures
            r@ == self@,
    {
        match self {
            Component::Str(s) => Component::Str(s.clone()),
            Component::Block(n) => Component::Block(*n),
            Component::Closure(n) => Component::Closure(*n),
            Component::AsyncBlock(n) => Component::AsyncBlock(*n),
            Component::Macro(n) => Component::Macro(*n),
        }
    }

    /// True when the component is a named one.
    pub fn is_str(&self) -> (r: bool)
        ensures
            r == (self@ is Str),
    {
        match self {
            Component::Str(_) => true,
            _ => false,
        }
    }
}

impl PartialEq for Component {
    fn eq(&self, other: &Self) -> (r: bool) {
        match (self, other) {
            (Component::Str(a), Component::Str(b)) => *a == *b,
            (Component::Block(a), Component::Block(b)) => *a == *b,
            (Component::Closure(a), Component::Closure(b)) => *a == *b,
            (Component::AsyncBlock(a), Component::AsyncBlock(b)) => *a == *b,
            (Component::Macro(a), Component::Macro(b)) => *a == *b,
            _ => false,
        }
    }
}

impl vstd::std_specs::cmp::PartialEqSpecImpl for Component {
    open spec fn obeys_eq_spec() -> bool {
        true
    }

    open spec fn eq_spec(&self, other: &Self) -> bool {
        self@ == other@
    }
}

/// A full item path: the ordered components naming one declaration.
#[derive(Debug)]
pub struct Item {
    components: Vec<Component>,
}

impl View for Item {
    type V = Seq<ComponentModel>;

    closed spec fn view(&self) -> Seq<ComponentModel> {
        self.components.deep_view()
    }
}

impl Item {
    /// The empty path.
    pub fn new() -> (r: Self)
        ensures
            r@ == Seq::<ComponentModel>::empty(),
    {
        let components: Vec<Component> = Vec::new();
        assert(components.deep_view() =~= Seq::<ComponentModel>::empty());
        Item { components }
    }

    /// Wrap a vector of components.
    pub fn of(components: Vec<Component>) -> (r: Self)
        ensures
            r@ == components.deep_view(),
    {
        Item { components }
    }

    /// Append a component.
    pub fn push(&mut self, c: Component)
        ensures
            final(self)@ == old(self)@.push(c@),
    {
        let ghost cv = c@;
        self.components.push(c);
        assert(self.components.deep_view() =~= old(self)@.push(cv));
    }

    /// The components, in order.
    pub fn components(&self) -> (r: &Vec<Component>)
        ensures
            r.deep_view() == self@,
    {
        &self.components
    }

    /// The number of components.
    pub fn len(&self) -> (r: usize)
        ensures
            r == self@.len(),
    {
        self.components.len()
    }

    /// True when the path has no components.
    pub fn is_empty(&self) -> (r: bool)
        ensures
            r == (self@.len() == 0),
    {
        self.components.len() == 0
    }

    /// The components, taken out of the path.
    pub fn into_vec(self) -> (r: Vec<Component>)
        ensures
            r.deep_view() == self@,
    {
        self.components
    }

    /// An exact copy of the path.
    pub fn cloned(&self) -> (r: Self)
        ensures
            r@ == self@,
    {
        let mut components: Vec<Component> = Vec::new();
        let mut i: usize = 0;
        while i < self.components.len()
            invariant
                i <= self.components.len(),
                components@.len() == i,
                forall|j: int| 0 <= j < i ==> components@[j]@ == self.components@[j]@,
            decreases self.components.len() - i,
        {
            components.push(self.components[i].cloned());
            i = i + 1;
        }
        proof {
            assert forall|j: int| 0 <= j < components@.len() implies components.deep_view()[j]
                == self@[j] by {
                assert(components.deep_view()[j] == components@[j].deep_view());
                assert(self@[j] == self.components@[j].deep_view());
            }
            assert(components.deep_view() =~= self@);
        }
        Item { components }
    }
}

} // verus!
