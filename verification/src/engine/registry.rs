//! The kinds of nodes that a graph may hold.
use crate::text::{contains_text, lists, texts};
use vstd::prelude::*;

verus! {

/// The registered kinds, each of them once.
#[derive(Debug)]
pub struct NodeRegistry {
    kinds: Vec<String>,
}

/// Whether a text is among some texts.
pub open spec fn named(kinds: Seq<Seq<char>>, kind: Seq<char>) -> bool {
    exists|i: int| 0 <= i < kinds.len() && #[trigger] kinds[i] == kind
}

proof fn lemma_named(items: Seq<String>, key: Seq<char>)
    ensures
        named(texts(items), key) == lists(items, key),
{
    let views = texts(items);
    if lists(items, key) {
        let i = choose|i: int| 0 <= i < items.len() && (#[trigger] items[i])@ == key;
        assert(views[i] == key);
    }
    if named(views, key) {
        let i = choose|i: int| 0 <= i < views.len() && #[trigger] views[i] == key;
        assert(items[i]@ == key);
    }
}

impl View for NodeRegistry {
    type V = Seq<Seq<char>>;

    closed spec fn view(&self) -> Seq<Seq<char>> {
        texts(self.kinds@)
    }
}

/// The kinds with one more, which takes the place of an equal one.
pub open spec fn registered(kinds: Seq<Seq<char>>, kind: Seq<char>) -> Seq<Seq<char>> {
    if named(kinds, kind) {
        kinds
    } else {
        kinds.push(kind)
    }
}

impl NodeRegistry {
    pub fn new() -> (r: NodeRegistry)
        ensures
            r@ == Seq::<Seq<char>>::empty(),
    {
        let r = NodeRegistry { kinds: Vec::new() };
        proof {
            assert(r@ =~= Seq::<Seq<char>>::empty());
        }
        r
    }

    /// Registers a kind.
    pub fn register(&mut self, kind: &str)
        ensures
            final(self)@ == registered(old(self)@, kind@),
    {
        proof {
            lemma_named(self.kinds@, kind@);
        }
        if !contains_text(&self.kinds, kind) {
            let ghost before = self@;
            self.kinds.push(kind.to_owned());
            proof {
                assert(self@ =~= before.push(kind@));
            }
        }
    }

    /// Whether a kind is registered.
    pub fn contains(&self, kind: &str) -> (r: bool)
        ensures
            r == named(self@, kind@),
    {
        proof {
            lemma_named(self.kinds@, kind@);
        }
        contains_text(&self.kinds, kind)
    }

    /// The registered kinds, in the order of their registration.
    pub fn kinds(&self) -> (r: &Vec<String>)
        ensures
            texts(r@) == self@,
    {
        &self.kinds
    }
}

/// No kind is registered twice.
pub open spec fn kinds_distinct(kinds: Seq<Seq<char>>) -> bool {
    forall|i: int, j: int|
        0 <= i < j < kinds.len() ==> #[trigger] kinds[i] != #[trigger] kinds[j]
}

/// Registering keeps every kind single and makes the new kind known.
pub proof fn law_registering_keeps_kinds_distinct(kinds: Seq<Seq<char>>, kind: Seq<char>)
    requires
        kinds_distinct(kinds),
    ensures
        kinds_distinct(registered(kinds, kind)),
        named(registered(kinds, kind), kind),
{
    if !named(kinds, kind) {
        assert(kinds.push(kind)[kinds.len() as int] == kind);
    }
}

} // verus!
