//! The guard's decision engine: the state of an asynchronous check and an
//! inversion flag select one of four outcomes.

use vstd::prelude::*;

verus! {

/// What reading an asynchronous boolean check gives: not yet resolved,
/// resolved to a value, or resolved to an error.
pub enum CheckResult<E> {
    Pending,
    Success(bool),
    Failure(E),
}

/// What a guarded route shows.
#[derive(Clone, Copy, Debug, PartialEq, Eq, Structural)]
pub enum Outcome {
    /// The protected view: the (possibly inverted) check holds.
    ShowProtected,
    /// The fallback view: the check has not resolved yet.
    ShowFallback,
    /// The error view: the check resolved to an error.
    ShowError,
    /// A redirect to the guard's redirect path: the (possibly inverted) check fails.
    Redirect,
}

/// The condition that the guard tests on a resolved value.
pub open spec fn effective_condition(value: bool, invert: bool) -> bool {
    if invert { !value } else { value }
}

/// The decision table of the guard.
pub open spec fn decide_spec<E>(check: CheckResult<E>, invert: bool) -> Outcome {
    match check {
        CheckResult::Success(v) => if effective_condition(v, invert) {
            Outcome::ShowProtected
        } else {
            Outcome::Redirect
        },
        CheckResult::Failure(_) => Outcome::ShowError,
        CheckResult::Pending => Outcome::ShowFallback,
    }
}

/// Maps the state of the check and the inversion flag to the outcome to show.
/// The error value of a failed check is not inspected.
pub fn decide<E>(check: &CheckResult<E>, invert: bool) -> (r: Outcome)
    ensures
        r == decide_spec(*check, invert),
{
    match check {
        CheckResult::Success(v) => {
            let holds = if invert { !*v } else { *v };
            if holds {
                Outcome::ShowProtected
            } else {
                Outcome::Redirect
            }
        },
        CheckResult::Failure(_) => Outcome::ShowError,
        CheckResult::Pending => Outcome::ShowFallback,
    }
}

impl<E> CheckResult<E> {
    /// The state of a check from what reading the resource gives: nothing yet,
    /// a value, or an error.
    pub fn from_read(read: Option<Result<bool, E>>) -> (r: CheckResult<E>)
        ensures
            r == match read {
                None => CheckResult::Pending,
                Some(Ok(v)) => CheckResult::Success(v),
                Some(Err(e)) => CheckResult::Failure(e),
            },
    {
        match read {
            None => CheckResult::Pending,
            Some(Ok(v)) => CheckResult::Success(v),
            Some(Err(e)) => CheckResult::Failure(e),
        }
    }
}

/// What happens to a guarded route: it is built, or its view is rendered
/// with the check in a given state.
pub enum GuardEvent<E> {
    Built,
    Render(CheckResult<E>),
}

/// What a guarded route does in answer to an event: ask the resource to
/// fetch the check again, or show an outcome.
#[derive(Clone, Copy, Debug, PartialEq, Eq, Structural)]
pub enum GuardAction {
    Refetch,
    Show(Outcome),
}

/// The answer of a guard with inversion flag `invert` to `event`.
pub open spec fn react<E>(invert: bool, event: GuardEvent<E>) -> GuardAction {
    match event {
        GuardEvent::Built => GuardAction::Refetch,
        GuardEvent::Render(check) => GuardAction::Show(decide_spec(check, invert)),
    }
}

/// The answers to `events`, one for each, in order.
pub open spec fn reactions<E>(invert: bool, events: Seq<GuardEvent<E>>) -> Seq<GuardAction> {
    events.map_values(|e: GuardEvent<E>| react(invert, e))
}

/// The number of refetches among `actions`.
pub open spec fn count_refetches(actions: Seq<GuardAction>) -> nat
    decreases actions.len(),
{
    if actions.len() == 0 {
        0
    } else {
        (if actions[0] is Refetch { 1nat } else { 0nat }) + count_refetches(actions.drop_first())
    }
}

/// The configuration of a guarded route: whether the check is inverted, and
/// where to redirect when it fails. Both are fixed when the guard is made.
pub struct Guard {
    invert: bool,
    redirect_path: String,
}

impl Guard {
    pub closed spec fn inverted(&self) -> bool {
        self.invert
    }

    pub closed spec fn redirect_target(&self) -> Seq<char> {
        self.redirect_path@
    }

    /// A guard that redirects to `redirect_path` when the (possibly inverted)
    /// check fails.
    pub fn new(redirect_path: String, invert: bool) -> (r: Guard)
        ensures
            r.inverted() == invert,
            r.redirect_target() == redirect_path@,
    {
        Guard { invert, redirect_path }
    }

    /// Whether the check is inverted.
    pub fn invert(&self) -> (r: bool)
        ensures
            r == self.inverted(),
    {
        self.invert
    }

    /// The path a `Redirect` outcome leads to.
    pub fn redirect_path(&self) -> (r: &String)
        ensures
            r@ == self.redirect_target(),
    {
        &self.redirect_path
    }

    /// The outcome to show for the check in state `check`.
    pub fn select<E>(&self, check: &CheckResult<E>) -> (r: Outcome)
        ensures
            r == decide_spec(*check, self.inverted()),
    {
        decide(check, self.invert)
    }

    /// The guard's answer to `event`: a refetch when the route is built, the
    /// outcome of the check's current state when it is rendered.
    pub fn on_event<E>(&self, event: &GuardEvent<E>) -> (r: GuardAction)
        ensures
            r == react(self.inverted(), *event),
    {
        match event {
            GuardEvent::Built => GuardAction::Refetch,
            GuardEvent::Render(check) => GuardAction::Show(self.select(check)),
        }
    }

    /// The guard's answers to `events`, in order.
    pub fn run<E>(&self, events: &Vec<GuardEvent<E>>) -> (r: Vec<GuardAction>)
        ensures
            r@ == reactions(self.inverted(), events@),
    {
        let mut out: Vec<GuardAction> = Vec::new();
        let mut i: usize = 0;
        while i < events.len()
            invariant
                i <= events@.len(),
                out@ == reactions(self.inverted(), events@.subrange(0, i as int)),
            decreases events@.len() - i,
        {
            let a = self.on_event(&events[i]);
            out.push(a);
            assert(events@.subrange(0, i + 1) == events@.subrange(0, i as int).push(events@[i as int]));
            i = i + 1;
        }
        assert(events@.subrange(0, i as int) == events@);
        out
    }
}

/// Decision table, read whole: every state of the check and every flag gives
/// exactly one of the table's outcomes, and each outcome comes from exactly
/// the states the table gives it.
pub proof fn lemma_decide_table<E>(check: CheckResult<E>, invert: bool)
    ensures
        decide_spec(check, invert) == Outcome::ShowProtected <==> (check matches CheckResult::Success(v)
            && v != invert),
        decide_spec(check, invert) == Outcome::Redirect <==> (check matches CheckResult::Success(v) && v
            == invert),
        decide_spec(check, invert) == Outcome::ShowError <==> check is Failure,
        decide_spec(check, invert) == Outcome::ShowFallback <==> check is Pending,
{
}

/// Rendering twice while the check stays in one state shows the same outcome
/// both times: the guard keeps no state of its own between renders.
pub proof fn lemma_rerender_same_outcome<E>(invert: bool, check: CheckResult<E>)
    ensures
        ({
            let acts = reactions(invert, seq![GuardEvent::Render(check), GuardEvent::Render(check)]);
            &&& acts.len() == 2
            &&& acts[0] == acts[1]
            &&& acts[0] == GuardAction::Show(decide_spec(check, invert))
        }),
{
}

/// A guarded route asks for exactly one refetch: when it is built. However
/// many renders follow, whatever state the check is in, none asks again.
pub proof fn lemma_single_refetch<E>(invert: bool, checks: Seq<CheckResult<E>>)
    ensures
        count_refetches(
            reactions(invert, seq![GuardEvent::<E>::Built] + checks.map_values(|c: CheckResult<E>| GuardEvent::Render(c))),
        ) == 1,
{
    let renders = checks.map_values(|c: CheckResult<E>| GuardEvent::Render(c));
    let acts = reactions(invert, seq![GuardEvent::<E>::Built] + renders);
    assert(acts.drop_first() == reactions(invert, renders));
    lemma_renders_never_refetch(invert, checks);
}

proof fn lemma_renders_never_refetch<E>(invert: bool, checks: Seq<CheckResult<E>>)
    ensures
        count_refetches(reactions(invert, checks.map_values(|c: CheckResult<E>| GuardEvent::Render(c))))
            == 0,
    decreases checks.len(),
{
    if checks.len() > 0 {
        let acts = reactions(invert, checks.map_values(|c: CheckResult<E>| GuardEvent::Render(c)));
        assert(acts.drop_first() == reactions(
            invert,
            checks.drop_first().map_values(|c: CheckResult<E>| GuardEvent::Render(c)),
        ));
        lemma_renders_never_refetch(invert, checks.drop_first());
    }
}

} // verus!
