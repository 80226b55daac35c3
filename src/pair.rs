use vstd::prelude::*;

verus! {

/// Strict lexicographic order on character sequences, by code point.
///
/// UTF-8 preserves code-point order, so this is the order of `<` on `str`.
pub open spec fn seq_lt(x: Seq<char>, y: Seq<char>) -> bool
    decreases x.len(),
{
    if y.len() == 0 {
        false
    } else if x.len() == 0 {
        true
    } else if x[0] != y[0] {
        x[0] < y[0]
    } else {
        seq_lt(x.drop_first(), y.drop_first())
    }
}

/// The canonical form of the unordered pair `{x, y}`: the greater operand first.
pub open spec fn canonical_of(x: Seq<char>, y: Seq<char>) -> (Seq<char>, Seq<char>) {
    if seq_lt(x, y) {
        (y, x)
    } else {
        (x, y)
    }
}

/// No sequence sorts before itself.
pub proof fn lemma_lt_irreflexive(x: Seq<char>)
    ensures
        !seq_lt(x, x),
    decreases x.len(),
{
    if x.len() > 0 {
        lemma_lt_irreflexive(x.drop_first());
    }
}

/// The order is asymmetric.
pub proof fn lemma_lt_asymmetric(x: Seq<char>, y: Seq<char>)
    ensures
        !(seq_lt(x, y) && seq_lt(y, x)),
    decreases x.len(),
{
    if x.len() > 0 && y.len() > 0 && x[0] == y[0] {
        lemma_lt_asymmetric(x.drop_first(), y.drop_first());
    }
}

/// The order is total: two sequences that neither precede the other are equal.
pub proof fn lemma_lt_total(x: Seq<char>, y: Seq<char>)
    ensures
        seq_lt(x, y) || seq_lt(y, x) || x == y,
    decreases x.len(),
{
    if x.len() > 0 && y.len() > 0 {
        if x[0] == y[0] {
            lemma_lt_total(x.drop_first(), y.drop_first());
            if x.drop_first() == y.drop_first() {
                assert(x =~= seq![x[0]] + x.drop_first());
                assert(y =~= seq![y[0]] + y.drop_first());
            }
        }
    } else if x.len() == 0 && y.len() == 0 {
        assert(x =~= y);
    }
}

/// Canonicalization ignores the order of the operands:
/// `{x, y}` and `{y, x}` give the same key.
pub proof fn lemma_canonical_commutes(x: Seq<char>, y: Seq<char>)
    ensures
        canonical_of(x, y) == canonical_of(y, x),
{
    lemma_lt_asymmetric(x, y);
    lemma_lt_total(x, y);
}

/// A pair of equal operands is its own canonical form.
pub proof fn lemma_canonical_equal_operands(x: Seq<char>)
    ensures
        canonical_of(x, x) == (x, x),
{
    lemma_lt_irreflexive(x);
}

/// Canonicalizing a canonical pair changes nothing.
pub proof fn lemma_canonical_idempotent(x: Seq<char>, y: Seq<char>)
    ensures
        canonical_of(canonical_of(x, y).0, canonical_of(x, y).1) == canonical_of(x, y),
{
    lemma_lt_asymmetric(x, y);
}

/// Compares two strings by code point, as `<` on `str` does.
pub fn str_lt(x: &str, y: &str) -> (r: bool)
    ensures
        r == seq_lt(x@, y@),
{
    let lx = x.unicode_len();
    let ly = y.unicode_len();
    let mut i: usize = 0;
    assert(x@.skip(0) =~= x@);
    assert(y@.skip(0) =~= y@);
    while i < lx && i < ly
        invariant
            lx == x@.len(),
            ly == y@.len(),
            i <= lx,
            i <= ly,
            seq_lt(x@, y@) == seq_lt(x@.skip(i as int), y@.skip(i as int)),
        decreases lx - i,
    {
        let cx = x.get_char(i);
        let cy = y.get_char(i);
        if cx != cy {
            return cx < cy;
        }
        assert(x@.skip(i as int).drop_first() =~= x@.skip(i + 1));
        assert(y@.skip(i as int).drop_first() =~= y@.skip(i + 1));
        i = i + 1;
    }
    ly > i && lx == i
}

/// Tells whether two strings hold the same characters.
pub fn str_eq(x: &str, y: &str) -> (r: bool)
    ensures
        r == (x@ == y@),
{
    let lx = x.unicode_len();
    let ly = y.unicode_len();
    if lx != ly {
        return false;
    }
    let mut i: usize = 0;
    while i < lx
        invariant
            lx == x@.len(),
            ly == y@.len(),
            lx == ly,
            i <= lx,
            x@.take(i as int) == y@.take(i as int),
        decreases lx - i,
    {
        if x.get_char(i) != y.get_char(i) {
            assert(x@[i as int] != y@[i as int]);
            return false;
        }
        assert(x@.take(i + 1) =~= x@.take(i as int).push(x@[i as int]));
        assert(y@.take(i + 1) =~= y@.take(i as int).push(y@[i as int]));
        i = i + 1;
    }
    assert(x@ =~= x@.take(lx as int));
    assert(y@ =~= y@.take(ly as int));
    true
}

/// An unordered combination of two operands.
#[derive(Debug)]
pub struct Pair {
    pub a: String,
    pub b: String,
}

impl View for Pair {
    type V = (Seq<char>, Seq<char>);

    open spec fn view(&self) -> (Seq<char>, Seq<char>) {
        (self.a@, self.b@)
    }
}

impl Pair {
    /// Builds a pair from its two operands, in the order given.
    pub fn new(a: String, b: String) -> (r: Pair)
        ensures
            r@ == (a@, b@),
    {
        Pair { a, b }
    }

    /// The key under which this pair is stored: the greater operand in `a`,
    /// the lesser in `b`, so that `{x, y}` and `{y, x}` share one key.
    pub fn canonical(self) -> (r: Pair)
        ensures
            r@ == canonical_of(self@.0, self@.1),
    {
        if str_lt(self.a.as_str(), self.b.as_str()) {
            Pair { a: self.b, b: self.a }
        } else {
            self
        }
    }
}

/// A stored fact: the canonical pair `(a, b)` and what they combine into, `c`.
#[derive(Debug)]
pub struct Triple {
    pub a: String,
    pub b: String,
    pub c: String,
}

impl View for Triple {
    type V = (Seq<char>, Seq<char>, Seq<char>);

    open spec fn view(&self) -> (Seq<char>, Seq<char>, Seq<char>) {
        (self.a@, self.b@, self.c@)
    }
}

impl Clone for Triple {
    fn clone(&self) -> (r: Triple)
        ensures
            r@ == self@,
    {
        Triple { a: self.a.clone(), b: self.b.clone(), c: self.c.clone() }
    }
}

impl PartialEq for Triple {
    fn eq(&self, o: &Triple) -> (r: bool) {
        self.a == o.a && self.b == o.b && self.c == o.c
    }
}

impl vstd::std_specs::cmp::PartialEqSpecImpl for Triple {
    open spec fn obeys_eq_spec() -> bool {
        true
    }

    open spec fn eq_spec(&self, o: &Triple) -> bool {
        self@ == o@
    }
}

impl Triple {
    /// Builds a fact from its three parts.
    pub fn new(a: String, b: String, c: String) -> (r: Triple)
        ensures
            r@ == (a@, b@, c@),
    {
        Triple { a, b, c }
    }
}

} // verus!
