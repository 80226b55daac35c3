use vstd::prelude::*;
use crate::pair::{str_eq, Triple};

verus! {

/// A fact as the contracts see it: `(a, b, c)`.
pub type FactView = (Seq<char>, Seq<char>, Seq<char>);

/// The fact is stored under the key `(a, b)`.
pub open spec fn has_key(t: FactView, a: Seq<char>, b: Seq<char>) -> bool {
    t.0 == a && t.1 == b
}

/// The fact mentions `x` as one of its three parts.
pub open spec fn touches(t: FactView, x: Seq<char>) -> bool {
    t.0 == x || t.1 == x || t.2 == x
}

/// The first stored fact under the key `(a, b)`, if any.
pub open spec fn lookup(rows: Seq<FactView>, a: Seq<char>, b: Seq<char>) -> Option<FactView>
    decreases rows.len(),
{
    if rows.len() == 0 {
        None
    } else if has_key(rows[0], a, b) {
        Some(rows[0])
    } else {
        lookup(rows.drop_first(), a, b)
    }
}

/// The stored facts that mention `x`, in the order they were stored.
pub open spec fn touching(rows: Seq<FactView>, x: Seq<char>) -> Seq<FactView>
    decreases rows.len(),
{
    if rows.len() == 0 {
        Seq::empty()
    } else if touches(rows.last(), x) {
        touching(rows.drop_last(), x).push(rows.last())
    } else {
        touching(rows.drop_last(), x)
    }
}

/// The views of a sequence of facts.
pub open spec fn views(ts: Seq<Triple>) -> Seq<FactView> {
    ts.map_values(|t: Triple| t@)
}

/// Once a fact is stored under a key that had none, a lookup of that key finds it.
pub proof fn lemma_lookup_after_insert(rows: Seq<FactView>, t: FactView)
    requires
        lookup(rows, t.0, t.1) is None,
    ensures
        lookup(rows.push(t), t.0, t.1) == Some(t),
    decreases rows.len(),
{
    if rows.len() > 0 {
        assert(rows.push(t).drop_first() =~= rows.drop_first().push(t));
        lemma_lookup_after_insert(rows.drop_first(), t);
    }
}

/// An append-only table of facts, kept in the order they were stored.
///
/// Nothing stops two facts under one key: a lookup returns the first.
pub struct TripleStore {
    rows: Vec<Triple>,
}

impl View for TripleStore {
    type V = Seq<FactView>;

    closed spec fn view(&self) -> Seq<FactView> {
        views(self.rows@)
    }
}

impl TripleStore {
    /// An empty store.
    pub fn new() -> (r: TripleStore)
        ensures
            r@ == Seq::<FactView>::empty(),
    {
        let r = TripleStore { rows: Vec::new() };
        assert(r@ =~= Seq::<FactView>::empty());
        r
    }

    /// Appends a fact, whether or not its key is already stored.
    pub fn insert(&mut self, t: Triple)
        ensures
            final(self)@ == old(self)@.push(t@),
    {
        self.rows.push(t);
        assert(self@ =~= old(self)@.push(t@));
    }

    /// The first fact stored under the key `(a, b)`, or `None` when there is none.
    pub fn get(&self, a: &str, b: &str) -> (r: Option<Triple>)
        ensures
            r matches Some(t) ==> lookup(self@, a@, b@) == Some(t@),
            r is None ==> lookup(self@, a@, b@) is None,
    {
        let n = self.rows.len();
        let mut i: usize = 0;
        assert(self@.skip(0) =~= self@);
        while i < n
            invariant
                n == self.rows@.len(),
                n == self@.len(),
                i <= n,
                lookup(self@, a@, b@) == lookup(self@.skip(i as int), a@, b@),
            decreases n - i,
        {
            let t = &self.rows[i];
            assert(self@[i as int] == t@);
            if str_eq(t.a.as_str(), a) && str_eq(t.b.as_str(), b) {
                return Some(t.clone());
            }
            assert(self@.skip(i as int).drop_first() =~= self@.skip(i + 1));
            i = i + 1;
        }
        None
    }

    /// Every stored fact that mentions `x` as `a`, `b` or `c`, in the order stored.
    pub fn find_by_operand(&self, x: &str) -> (r: Vec<Triple>)
        ensures
            views(r@) == touching(self@, x@),
    {
        let n = self.rows.len();
        let mut r: Vec<Triple> = Vec::new();
        let mut i: usize = 0;
        assert(self@.take(0) =~= Seq::<FactView>::empty());
        assert(views(r@) =~= Seq::<FactView>::empty());
        while i < n
            invariant
                n == self.rows@.len(),
                n == self@.len(),
                i <= n,
                views(r@) == touching(self@.take(i as int), x@),
            decreases n - i,
        {
            let t = &self.rows[i];
            assert(self@[i as int] == t@);
            assert(self@.take(i + 1).drop_last() =~= self@.take(i as int));
            assert(self@.take(i + 1).last() == t@);
            if str_eq(t.a.as_str(), x) || str_eq(t.b.as_str(), x) || str_eq(t.c.as_str(), x) {
                let ghost before = r@;
                r.push(t.clone());
                assert(views(r@) =~= views(before).push(t@));
            }
            i = i + 1;
        }
        assert(self@.take(n as int) =~= self@);
        r
    }

    /// Every stored fact, in the order stored.
    pub fn list_all(&self) -> (r: Vec<Triple>)
        ensures
            views(r@) == self@,
    {
        let n = self.rows.len();
        let mut r: Vec<Triple> = Vec::new();
        let mut i: usize = 0;
        while i < n
            invariant
                n == self.rows@.len(),
                n == self@.len(),
                i <= n,
                views(r@) =~= self@.take(i as int),
            decreases n - i,
        {
            let t = &self.rows[i];
            assert(self@[i as int] == t@);
            let ghost before = r@;
            r.push(t.clone());
            assert(views(r@) =~= views(before).push(t@));
            assert(self@.take(i + 1) =~= self@.take(i as int).push(t@));
            i = i + 1;
        }
        assert(self@.take(n as int) =~= self@);
        r
    }
}

} // verus!
