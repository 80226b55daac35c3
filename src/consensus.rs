use vstd::prelude::*;
use crate::error::ResolveError;

verus! {

/// The answer recorded when no sampled completion succeeded.
pub const UNDEFINED: &'static str = "undefined";

/// How answers are drawn from the completion oracle.
#[derive(Clone, Copy, Debug)]
pub enum Strategy {
    /// One completion; its text is the answer.
    Simple,
    /// Sampled completions settled by majority vote. The count is the
    /// configured sample count; one call fewer than it is made.
    Sample(u8),
}

/// How many completion calls a strategy makes.
pub open spec fn calls_of(strategy: Strategy) -> nat {
    match strategy {
        Strategy::Simple => 1,
        Strategy::Sample(n) => if n >= 1 { (n - 1) as nat } else { 0 },
    }
}

impl Strategy {
    /// How many completion calls this strategy makes: one for `Simple`, and
    /// one fewer than the configured count for `Sample`.
    pub fn calls(&self) -> (r: usize)
        ensures
            r == calls_of(*self),
    {
        match self {
            Strategy::Simple => 1,
            Strategy::Sample(n) => if *n >= 1 { (*n - 1) as usize } else { 0 },
        }
    }
}

/// The characters of Unicode's White_Space property, which `char::is_whitespace`
/// and `str::trim` go by.
pub open spec fn is_white_space(c: char) -> bool {
    let u = c as u32;
    (0x09 <= u && u <= 0x0d) || u == 0x20 || u == 0x85 || u == 0xa0 || u == 0x1680
        || (0x2000 <= u && u <= 0x200a) || u == 0x2028 || u == 0x2029 || u == 0x202f
        || u == 0x205f || u == 0x3000
}

/// `s` without its leading white space.
pub open spec fn trim_start(s: Seq<char>) -> Seq<char>
    decreases s.len(),
{
    if s.len() > 0 && is_white_space(s[0]) {
        trim_start(s.drop_first())
    } else {
        s
    }
}

/// `s` without its trailing white space.
pub open spec fn trim_end(s: Seq<char>) -> Seq<char>
    decreases s.len(),
{
    if s.len() > 0 && is_white_space(s.last()) {
        trim_end(s.drop_last())
    } else {
        s
    }
}

/// `s` without white space at either end.
pub open spec fn trimmed(s: Seq<char>) -> Seq<char> {
    trim_end(trim_start(s))
}

/// Relies on `str::trim`: the string with leading and trailing characters of
/// the White_Space property removed.
#[verifier::external_body]
fn trim(s: &str) -> (r: String)
    ensures
        r@ == trimmed(s@),
{
    s.trim().to_string()
}

/// Cleans a raw completion into an answer: surrounding whitespace removed.
pub fn process_result(s: &str) -> (r: String)
    ensures
        r@ == trimmed(s@),
{
    trim(s)
}

/// The views of a sequence of strings.
pub open spec fn texts(v: Seq<String>) -> Seq<Seq<char>> {
    v.map_values(|s: String| s@)
}

/// How many times `w` occurs in `s`.
pub open spec fn count(s: Seq<Seq<char>>, w: Seq<char>) -> nat
    decreases s.len(),
{
    if s.len() == 0 {
        0
    } else {
        count(s.drop_last(), w) + if s.last() == w { 1nat } else { 0nat }
    }
}

/// `s[i]` occurs at least as often as any element, and is the first such.
pub open spec fn is_first_mode(s: Seq<Seq<char>>, i: int) -> bool {
    &&& 0 <= i < s.len()
    &&& forall|j: int| 0 <= j < s.len() ==> count(s, #[trigger] s[j]) <= count(s, s[i])
    &&& forall|j: int| 0 <= j < i ==> count(s, #[trigger] s[j]) < count(s, s[i])
}

/// `c` is the majority vote of `s`: its most frequent answer, the first seen
/// among equally frequent ones, or `undefined` when there is no answer.
pub open spec fn is_consensus(s: Seq<Seq<char>>, c: Seq<char>) -> bool {
    if s.len() == 0 {
        c == UNDEFINED@
    } else {
        exists|i: int| is_first_mode(s, i) && c == s[i]
    }
}

/// The answers of the successful completions, trimmed, in order.
pub open spec fn trimmed_successes(outcomes: Seq<Result<String, String>>) -> Seq<Seq<char>>
    decreases outcomes.len(),
{
    if outcomes.len() == 0 {
        Seq::empty()
    } else {
        let p = trimmed_successes(outcomes.drop_last());
        match outcomes.last() {
            Ok(s) => p.push(trimmed(s@)),
            Err(_) => p,
        }
    }
}

/// `c` is what `strategy` makes of the outcomes of its calls: the trimmed text
/// of the one call for `Simple`, the majority vote over the trimmed texts of
/// the calls that succeeded for `Sample`.
pub open spec fn settles_to(strategy: Strategy, outcomes: Seq<Result<String, String>>, c: Seq<char>) -> bool {
    match strategy {
        Strategy::Simple => outcomes[0] matches Ok(s) && c == trimmed(s@),
        Strategy::Sample(_) => is_consensus(trimmed_successes(outcomes), c),
    }
}

/// The outcomes give no answer: the one call of `Simple` failed.
pub open spec fn settle_fails(strategy: Strategy, outcomes: Seq<Result<String, String>>) -> bool {
    strategy is Simple && outcomes[0] is Err
}

/// When every sampled call fails the answer is `undefined`.
pub proof fn lemma_all_failed_is_undefined(n: u8, outcomes: Seq<Result<String, String>>, c: Seq<char>)
    requires
        forall|i: int| 0 <= i < outcomes.len() ==> #[trigger] outcomes[i] is Err,
        settles_to(Strategy::Sample(n), outcomes, c),
    ensures
        c == UNDEFINED@,
{
    lemma_no_success_is_empty(outcomes);
}

/// With no successful call there is no answer to vote on.
proof fn lemma_no_success_is_empty(outcomes: Seq<Result<String, String>>)
    requires
        forall|i: int| 0 <= i < outcomes.len() ==> #[trigger] outcomes[i] is Err,
    ensures
        trimmed_successes(outcomes).len() == 0,
    decreases outcomes.len(),
{
    if outcomes.len() > 0 {
        assert(outcomes.last() is Err);
        let p = outcomes.drop_last();
        assert forall|i: int| 0 <= i < p.len() implies #[trigger] p[i] is Err by {
            assert(p[i] == outcomes[i]);
        }
        lemma_no_success_is_empty(p);
    }
}

/// The majority vote is a function of the votes: no two answers both win.
pub proof fn lemma_consensus_unique(s: Seq<Seq<char>>, c1: Seq<char>, c2: Seq<char>)
    requires
        is_consensus(s, c1),
        is_consensus(s, c2),
    ensures
        c1 == c2,
{
    if s.len() > 0 {
        let i = choose|i: int| is_first_mode(s, i) && c1 == s[i];
        let j = choose|j: int| is_first_mode(s, j) && c2 == s[j];
        if i < j {
            assert(count(s, s[i]) < count(s, s[j]));
            assert(count(s, s[j]) <= count(s, s[i]));
        } else if j < i {
            assert(count(s, s[j]) < count(s, s[i]));
            assert(count(s, s[i]) <= count(s, s[j]));
        }
    }
}

/// How many of `samples` equal `w`.
fn count_in(samples: &Vec<String>, w: &String) -> (r: usize)
    ensures
        r == count(texts(samples@), w@),
{
    let n = samples.len();
    let mut k: usize = 0;
    let mut i: usize = 0;
    assert(texts(samples@).take(0) =~= Seq::<Seq<char>>::empty());
    while i < n
        invariant
            n == samples@.len(),
            i <= n,
            k <= i,
            k == count(texts(samples@).take(i as int), w@),
        decreases n - i,
    {
        assert(texts(samples@).take(i + 1).drop_last() =~= texts(samples@).take(i as int));
        if samples[i] == *w {
            k = k + 1;
        }
        i = i + 1;
    }
    assert(texts(samples@).take(n as int) =~= texts(samples@));
    k
}

/// The majority vote over answers: the most frequent, the first seen among
/// equally frequent ones, and `undefined` when there are none.
pub fn majority(samples: &Vec<String>) -> (r: String)
    ensures
        is_consensus(texts(samples@), r@),
{
    let n = samples.len();
    if n == 0 {
        return UNDEFINED.to_string();
    }
    let ghost s = texts(samples@);
    let mut best: usize = 0;
    let mut best_count = count_in(samples, &samples[0]);
    let mut i: usize = 1;
    while i < n
        invariant
            n == samples@.len(),
            s == texts(samples@),
            best < i <= n,
            best_count == count(s, s[best as int]),
            forall|j: int| 0 <= j < i ==> count(s, #[trigger] s[j]) <= best_count,
            forall|j: int| 0 <= j < best ==> count(s, #[trigger] s[j]) < best_count,
        decreases n - i,
    {
        let k = count_in(samples, &samples[i]);
        if k > best_count {
            best = i;
            best_count = k;
        }
        i = i + 1;
    }
    assert(is_first_mode(s, best as int));
    samples[best].clone()
}

/// Settles the outcomes of the completion calls into an answer.
///
/// `Simple`: the trimmed text of its one call, or an `Oracle` error when that
/// call failed. `Sample`: the majority vote over the trimmed texts of the
/// calls that succeeded; failed calls are left out, and with none left the
/// answer is `undefined`.
pub fn settle(strategy: Strategy, outcomes: &Vec<Result<String, String>>) -> (r: Result<String, ResolveError>)
    requires
        outcomes@.len() == calls_of(strategy),
    ensures
        r matches Ok(c) ==> settles_to(strategy, outcomes@, c@),
        r is Err <==> settle_fails(strategy, outcomes@),
        r matches Err(e) ==> (outcomes@[0] matches Err(m) && e == ResolveError::Oracle(m)),
{
    match strategy {
        Strategy::Simple => match &outcomes[0] {
            Ok(s) => Ok(process_result(s.as_str())),
            Err(e) => Err(ResolveError::Oracle(e.clone())),
        },
        Strategy::Sample(_) => {
            let n = outcomes.len();
            let mut answers: Vec<String> = Vec::new();
            let mut i: usize = 0;
            assert(outcomes@.take(0) =~= Seq::<Result<String, String>>::empty());
            assert(texts(answers@) =~= Seq::<Seq<char>>::empty());
            while i < n
                invariant
                    n == outcomes@.len(),
                    i <= n,
                    texts(answers@) == trimmed_successes(outcomes@.take(i as int)),
                decreases n - i,
            {
                assert(outcomes@.take(i + 1).drop_last() =~= outcomes@.take(i as int));
                assert(outcomes@.take(i + 1).last() == outcomes@[i as int]);
                match &outcomes[i] {
                    Ok(s) => {
                        let ghost before = answers@;
                        answers.push(process_result(s.as_str()));
                        assert(texts(answers@) =~= texts(before).push(trimmed(s@)));
                    },
                    Err(_) => {},
                }
                i = i + 1;
            }
            assert(outcomes@.take(n as int) =~= outcomes@);
            Ok(majority(&answers))
        },
    }
}

} // verus!
