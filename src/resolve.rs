use vstd::prelude::*;
use crate::consensus::{calls_of, settle, settle_fails, settles_to, Strategy};
use crate::context::{build_context, context_of, render_examples, render_lines};
use crate::error::ResolveError;
use crate::pair::{canonical_of, Pair, Triple};
use crate::prompt::{prompt, prompt_text};
use crate::store::{lemma_lookup_after_insert, lookup, touching, views, FactView, TripleStore};

verus! {

/// What the caller is asked to do next for a request.
#[derive(Debug)]
pub enum Action {
    /// Look up the stored fact under the key `(a, b)`.
    Lookup { a: String, b: String },
    /// Fetch the stored facts that mention this operand.
    FindByOperand(String),
    /// Make `calls` completion calls on `prompt`, all at once, and wait for all.
    Complete { prompt: String, calls: usize },
    /// Store this fact.
    Persist(Triple),
    /// The request is over: send this back.
    Respond(Result<Triple, ResolveError>),
}

/// What came of the last action.
pub enum Event {
    /// The lookup found this fact; `None` for a miss and for any store failure.
    Looked(Option<Triple>),
    /// The facts that mention the operand, or why the store could not give them.
    Found(Result<Vec<Triple>, String>),
    /// The outcome of each completion call.
    Completed(Vec<Result<String, String>>),
    /// Whether the fact was stored.
    Persisted(Result<(), String>),
}

/// Where a request stands.
pub enum Phase {
    /// Waiting for the lookup of the key.
    Lookup,
    /// Waiting for the facts that mention the first operand.
    FindA,
    /// Waiting for the facts that mention the second; holds those of the first.
    FindB(Vec<Triple>),
    /// Waiting for the completions.
    Complete,
    /// Waiting for the fact to be stored; holds the fact.
    Persist(Triple),
    /// The request has been answered.
    Done,
}

/// The decisions of one request: look up the canonical key; on a hit answer
/// with the stored fact; on a miss gather context, render the prompt, settle
/// the completions, store the fact, and answer with it.
pub struct Resolver {
    key: Pair,
    strategy: Strategy,
    phase: Phase,
}

/// The event is the one the phase waits for.
pub open spec fn accepts(phase: Phase, strategy: Strategy, event: Event) -> bool {
    match phase {
        Phase::Lookup => event is Looked,
        Phase::FindA => event is Found,
        Phase::FindB(_) => event is Found,
        Phase::Complete => event matches Event::Completed(v) && v@.len() == calls_of(strategy),
        Phase::Persist(_) => event is Persisted,
        Phase::Done => false,
    }
}

/// The prompt for the canonical key `k` given the facts that mention each operand.
pub open spec fn prompt_for(k: (Seq<char>, Seq<char>), from_a: Seq<Triple>, from_b: Seq<Triple>) -> Seq<char> {
    prompt_text(k.0, k.1, render_lines(context_of(views(from_a), views(from_b))))
}

/// The answer `r` ends the request with `Ok(t)` and the phase is `Done`.
pub open spec fn responds_ok(r: Action, t: (Seq<char>, Seq<char>, Seq<char>), phase: Phase) -> bool {
    r matches Action::Respond(Ok(u)) && u@ == t && phase is Done
}

/// The answer `r` ends the request with the error `e` and the phase is `Done`.
pub open spec fn responds_err(r: Action, e: ResolveError, phase: Phase) -> bool {
    r matches Action::Respond(Err(f)) && f == e && phase is Done
}

/// How a step from `phase` on `event` moves the request for the key `k`.
pub open spec fn step_post(
    k: (Seq<char>, Seq<char>),
    strategy: Strategy,
    phase: Phase,
    event: Event,
    next: Phase,
    r: Action,
) -> bool {
    match (phase, event) {
        (Phase::Lookup, Event::Looked(Some(t))) => responds_ok(r, t@, next),
        (Phase::Lookup, Event::Looked(None)) => r matches Action::FindByOperand(x) && x@ == k.0
            && next is FindA,
        (Phase::FindA, Event::Found(Ok(v))) => r matches Action::FindByOperand(x) && (x@ == k.1
            && (next matches Phase::FindB(w) && views(w@) == views(v@))),
        (Phase::FindB(w), Event::Found(Ok(v))) => (
            r matches Action::Complete { prompt, calls } && (prompt@ == prompt_for(k, w@, v@)
                && calls == calls_of(strategy) && next is Complete)),
        (_, Event::Found(Err(m))) => responds_err(r, ResolveError::Store(m), next),
        (Phase::Complete, Event::Completed(outs)) => if settle_fails(strategy, outs@) {
            outs@[0] matches Err(m) && responds_err(r, ResolveError::Oracle(m), next)
        } else {
            r matches Action::Persist(t) && (t@.0 == k.0 && t@.1 == k.1
                && settles_to(strategy, outs@, t@.2) && (next matches Phase::Persist(u) && u@ == t@))
        },
        (Phase::Persist(t), Event::Persisted(Ok(_))) => responds_ok(r, t@, next),
        (Phase::Persist(_), Event::Persisted(Err(m))) => responds_err(r, ResolveError::Store(m), next),
        _ => false,
    }
}

impl Resolver {
    /// The canonical key of the request.
    pub closed spec fn key(&self) -> (Seq<char>, Seq<char>) {
        self.key@
    }

    /// The strategy that settles completions.
    pub closed spec fn strategy(&self) -> Strategy {
        self.strategy
    }

    /// Where the request stands.
    pub closed spec fn phase(&self) -> Phase {
        self.phase
    }

    /// Starts a request for `pair`: its key is the canonical form of the pair,
    /// and the first action looks that key up.
    pub fn start(pair: Pair, strategy: Strategy) -> (r: (Resolver, Action))
        ensures
            r.0.key() == canonical_of(pair@.0, pair@.1),
            r.0.strategy() == strategy,
            r.0.phase() is Lookup,
            r.1 matches Action::Lookup { a, b } && (a@, b@) == r.0.key(),
    {
        let key = pair.canonical();
        let a = key.a.clone();
        let b = key.b.clone();
        (Resolver { key, strategy, phase: Phase::Lookup }, Action::Lookup { a, b })
    }

    /// Takes the outcome of the last action and gives the next one.
    pub fn step(&mut self, event: Event) -> (r: Action)
        requires
            accepts(old(self).phase(), old(self).strategy(), event),
        ensures
            final(self).key() == old(self).key(),
            final(self).strategy() == old(self).strategy(),
            step_post(old(self).key(), old(self).strategy(), old(self).phase(), event, final(self).phase(), r),
    {
        let mut phase = Phase::Done;
        std::mem::swap(&mut phase, &mut self.phase);
        match (phase, event) {
            (Phase::Lookup, Event::Looked(Some(t))) => Action::Respond(Ok(t)),
            (Phase::Lookup, Event::Looked(None)) => {
                self.phase = Phase::FindA;
                Action::FindByOperand(self.key.a.clone())
            },
            (Phase::FindA, Event::Found(Ok(v))) => {
                self.phase = Phase::FindB(v);
                Action::FindByOperand(self.key.b.clone())
            },
            (Phase::FindB(w), Event::Found(Ok(v))) => {
                let context = build_context(&w, &v);
                let examples = render_examples(&context);
                match prompt(self.key.a.as_str(), self.key.b.as_str(), examples.as_str()) {
                    Ok(p) => {
                        self.phase = Phase::Complete;
                        Action::Complete { prompt: p, calls: self.strategy.calls() }
                    },
                    Err(e) => Action::Respond(Err(e)),
                }
            },
            (_, Event::Found(Err(m))) => Action::Respond(Err(ResolveError::Store(m))),
            (Phase::Complete, Event::Completed(outs)) => match settle(self.strategy, &outs) {
                Ok(c) => {
                    let t = Triple { a: self.key.a.clone(), b: self.key.b.clone(), c };
                    self.phase = Phase::Persist(t.clone());
                    Action::Persist(t)
                },
                Err(e) => Action::Respond(Err(e)),
            },
            (Phase::Persist(t), Event::Persisted(Ok(_))) => Action::Respond(Ok(t)),
            (_, Event::Persisted(Err(m))) => Action::Respond(Err(ResolveError::Store(m))),
            // `accepts` rules out every other pairing of phase and event.
            _ => Action::Respond(Err(ResolveError::Store(String::new()))),
        }
    }
}

/// Resolving `pair` against the facts `rows`, where the completions settle to
/// `c`: the stored fact and `rows` unchanged on a hit; otherwise the new fact
/// under the canonical key, and `rows` with it appended.
pub open spec fn resolved(rows: Seq<FactView>, pair: (Seq<char>, Seq<char>), c: Seq<char>) -> (FactView, Seq<FactView>) {
    let k = canonical_of(pair.0, pair.1);
    match lookup(rows, k.0, k.1) {
        Some(t) => (t, rows),
        None => ((k.0, k.1, c), rows.push((k.0, k.1, c))),
    }
}

/// Resolving a pair a second time, with nothing stored in between, is a hit:
/// it returns the fact of the first resolution and stores nothing, whatever
/// the completions would have given.
pub proof fn lemma_resolve_twice(rows: Seq<FactView>, pair: (Seq<char>, Seq<char>), c1: Seq<char>, c2: Seq<char>)
    ensures
        resolved(resolved(rows, pair, c1).1, pair, c2) == resolved(rows, pair, c1),
{
    let k = canonical_of(pair.0, pair.1);
    if lookup(rows, k.0, k.1) is None {
        lemma_lookup_after_insert(rows, (k.0, k.1, c1));
    }
}

/// The example lines of the prompt for the key `k`, from the facts of `rows`.
pub open spec fn examples_for(rows: Seq<FactView>, k: (Seq<char>, Seq<char>)) -> Seq<char> {
    render_lines(context_of(touching(rows, k.0), touching(rows, k.1)))
}

/// Each of `outs` is what `oracle` may return on the prompt `p` rendered for
/// the key `k` from the facts of `rows`.
pub open spec fn answered_by<F: Fn(&str) -> Result<String, String>>(
    oracle: F,
    rows: Seq<FactView>,
    k: (Seq<char>, Seq<char>),
    p: &str,
    outs: Seq<Result<String, String>>,
) -> bool {
    &&& p@ == prompt_text(k.0, k.1, examples_for(rows, k))
    &&& forall|i: int| 0 <= i < outs.len() ==> oracle.ensures((p,), #[trigger] outs[i])
}

/// Answers `pair` from `store`, calling `oracle` on the prompt on a miss and
/// storing what the completions settle to.
///
/// A hit returns the stored fact and calls nothing. On a miss the prompt is
/// rendered from the facts that mention each operand, the oracle is called as
/// many times as the strategy asks, and the fact with the settled answer is
/// stored and returned. A miss fails only under `Simple`, when the one call
/// fails; on a failure nothing is stored.
pub fn resolve_in<F: Fn(&str) -> Result<String, String>>(
    store: &mut TripleStore,
    strategy: Strategy,
    pair: Pair,
    oracle: &F,
) -> (r: Result<Triple, ResolveError>)
    requires
        forall|p: &str| oracle.requires((p,)),
    ensures
        r matches Ok(t) ==> (t@, final(store)@) == resolved(old(store)@, pair@, t@.2),
        r is Err ==> final(store)@ == old(store)@,
        ({
            let k = canonical_of(pair@.0, pair@.1);
            lookup(old(store)@, k.0, k.1) is Some ==> r is Ok
        }),
        r matches Err(e) ==> (e is Oracle && strategy is Simple),
        ({
            let k = canonical_of(pair@.0, pair@.1);
            lookup(old(store)@, k.0, k.1) is None && strategy is Sample ==> r is Ok
        }),
        ({
            let k = canonical_of(pair@.0, pair@.1);
            lookup(old(store)@, k.0, k.1) is None ==> (r matches Ok(t) ==> exists|p: &str, outs: Seq<Result<String, String>>|
                answered_by(*oracle, old(store)@, k, p, outs) && outs.len() == calls_of(strategy)
                && settles_to(strategy, outs, t@.2))
        }),
        ({
            let k = canonical_of(pair@.0, pair@.1);
            r matches Err(ResolveError::Oracle(m)) ==> exists|p: &str, outs: Seq<Result<String, String>>|
                answered_by(*oracle, old(store)@, k, p, outs) && outs.len() == 1 && outs[0] == Err::<String, String>(m)
        }),
{
    let ghost rows = store@;
    let ghost k = canonical_of(pair@.0, pair@.1);
    let (mut res, act) = Resolver::start(pair, strategy);
    let found = match act {
        Action::Lookup { a, b } => store.get(a.as_str(), b.as_str()),
        _ => {
            proof { assert(false); }
            None
        },
    };
    let act = res.step(Event::Looked(found));
    let from_a = match act {
        Action::Respond(r) => return r,
        Action::FindByOperand(x) => store.find_by_operand(x.as_str()),
        _ => {
            proof { assert(false); }
            Vec::new()
        },
    };
    let ghost va = views(from_a@);
    let act = res.step(Event::Found(Ok(from_a)));
    let from_b = match act {
        Action::FindByOperand(x) => store.find_by_operand(x.as_str()),
        _ => {
            proof { assert(false); }
            Vec::new()
        },
    };
    let ghost vb = views(from_b@);
    assert(va == touching(rows, k.0) && vb == touching(rows, k.1));
    let act = res.step(Event::Found(Ok(from_b)));
    let (p, calls) = match act {
        Action::Respond(r) => return r,
        Action::Complete { prompt, calls } => (prompt, calls),
        _ => {
            proof { assert(false); }
            (String::new(), 0)
        },
    };
    let ps: &str = p.as_str();
    let mut outcomes: Vec<Result<String, String>> = Vec::new();
    let mut i: usize = 0;
    while i < calls
        invariant
            i <= calls,
            outcomes@.len() == i,
            forall|q: &str| oracle.requires((q,)),
            forall|j: int| 0 <= j < i ==> oracle.ensures((ps,), #[trigger] outcomes@[j]),
        decreases calls - i,
    {
        let out = oracle(ps);
        outcomes.push(out);
        i = i + 1;
    }
    assert(answered_by(*oracle, rows, k, ps, outcomes@));
    let ghost outs = outcomes@;
    let act = res.step(Event::Completed(outcomes));
    let fact = match act {
        Action::Respond(r) => return r,
        Action::Persist(t) => t,
        _ => {
            proof { assert(false); }
            return Err(ResolveError::Store(String::new()));
        },
    };
    let ghost f = fact@;
    store.insert(fact);
    let act = res.step(Event::Persisted(Ok(())));
    match act {
        Action::Respond(r) => {
            assert(lookup(rows, k.0, k.1) is None);
            assert(r matches Ok(t) && t@ == f);
            assert(answered_by(*oracle, rows, k, ps, outs) && outs.len() == calls_of(strategy)
                && settles_to(strategy, outs, f.2));
            r
        },
        _ => {
            proof { assert(false); }
            Err(ResolveError::Store(String::new()))
        },
    }
}

} // verus!
