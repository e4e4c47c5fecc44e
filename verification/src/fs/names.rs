//! Maps from names to nodes.
use vstd::prelude::*;

verus! {

/// What a name stands for: the number of a file or of a directory.
#[derive(Clone, Copy, Debug, PartialEq, Eq, Structural)]
pub enum Child {
    File(usize),
    Dir(usize),
}

/// A hash map from names to nodes, held in a [`hashbrown::HashMap`].
#[verifier::external_body]
pub struct NameMap {
    map: hashbrown::HashMap<String, Child>,
}

/// What a [`NameMap`] holds.
pub uninterp spec fn nodes_by_name(map: NameMap) -> Map<Seq<char>, Child>;

/// The map that holds nothing.
pub open spec fn no_names() -> Map<Seq<char>, Child> {
    Map::empty()
}

/// The value of a list of names with their nodes.
pub open spec fn pair_views(pairs: Seq<(String, Child)>) -> Seq<(Seq<char>, Child)> {
    pairs.map_values(|p: (String, Child)| (p.0@, p.1))
}

/// Whether `pairs` holds the entries of `m`, each once, in some order.
pub open spec fn is_enumeration(pairs: Seq<(Seq<char>, Child)>, m: Map<Seq<char>, Child>) -> bool {
    &&& forall|i: int|
        0 <= i < pairs.len() ==> m.contains_key((#[trigger] pairs[i]).0) && m[pairs[i].0]
            == pairs[i].1
    &&& forall|i: int, j: int|
        0 <= i < j < pairs.len() ==> (#[trigger] pairs[i]).0 != (#[trigger] pairs[j]).0
    &&& forall|name: Seq<char>| #[trigger]
        m.contains_key(name) ==> exists|i: int|
            0 <= i < pairs.len() && (#[trigger] pairs[i]).0 == name
}

impl View for NameMap {
    type V = Map<Seq<char>, Child>;

    open spec fn view(&self) -> Map<Seq<char>, Child> {
        nodes_by_name(*self)
    }
}

impl NameMap {
    /// [`hashbrown::HashMap::new`]: a map that holds nothing.
    #[verifier::external_body]
    pub(crate) fn new() -> (r: NameMap)
        ensures
            nodes_by_name(r) == no_names(),
    {
        NameMap { map: hashbrown::HashMap::new() }
    }

    /// [`hashbrown::HashMap::get`]: the node of `name`, if the map holds it.
    #[verifier::external_body]
    pub(crate) fn get(&self, name: &str) -> (r: Option<Child>)
        ensures
            r == if nodes_by_name(*self).contains_key(name@) {
                Some(nodes_by_name(*self)[name@])
            } else {
                None
            },
    {
        self.map.get(name).copied()
    }

    /// [`hashbrown::HashMap::contains_key`]: whether the map holds `name`.
    #[verifier::external_body]
    pub(crate) fn contains_key(&self, name: &str) -> (r: bool)
        ensures
            r == nodes_by_name(*self).contains_key(name@),
    {
        self.map.contains_key(name)
    }

    /// [`hashbrown::HashMap::insert`]: `name` stands for `node` from now on; what it stood for
    /// before is returned.
    #[verifier::external_body]
    pub(crate) fn insert(&mut self, name: String, node: Child) -> (r: Option<Child>)
        ensures
            nodes_by_name(*final(self)) == nodes_by_name(*old(self)).insert(name@, node),
            r == if nodes_by_name(*old(self)).contains_key(name@) {
                Some(nodes_by_name(*old(self))[name@])
            } else {
                None
            },
    {
        self.map.insert(name, node)
    }

    /// [`hashbrown::HashMap::remove`]: the map no longer holds `name`; what it stood for is
    /// returned.
    #[verifier::external_body]
    pub(crate) fn remove(&mut self, name: &str) -> (r: Option<Child>)
        ensures
            nodes_by_name(*final(self)) == nodes_by_name(*old(self)).remove(name@),
            r == if nodes_by_name(*old(self)).contains_key(name@) {
                Some(nodes_by_name(*old(self))[name@])
            } else {
                None
            },
    {
        self.map.remove(name)
    }

    /// [`hashbrown::HashMap::is_empty`]: whether the map holds nothing.
    #[verifier::external_body]
    pub(crate) fn is_empty(&self) -> (r: bool)
        ensures
            r == (nodes_by_name(*self) == no_names()),
    {
        self.map.is_empty()
    }

    /// [`hashbrown::HashMap::iter`]: every entry once. The order is not specified.
    #[verifier::external_body]
    pub(crate) fn entries(&self) -> (r: Vec<(String, Child)>)
        ensures
            is_enumeration(pair_views(r@), nodes_by_name(*self)),
    {
        self.map.iter().map(|(name, node)| (name.clone(), *node)).collect()
    }
}

} // verus!
