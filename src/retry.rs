use vstd::prelude::*;

use crate::endpoint::Endpoint;
use crate::kind::{disconnect_class, is_disconnect_error, ErrorKind};

verus! {

/// How many operation attempts one `read` or `write` may make.
pub const ATTEMPTS: usize = 5;

/// A `read` or `write` in progress, about to make attempt number `attempt`
/// (counted from 1) against the current socket.
#[derive(Clone, Copy, Debug, PartialEq, Eq)]
pub struct Retry {
    /// Where every reconnect of this operation goes.
    pub address: Endpoint,
    pub attempt: usize,
}

/// Attempt number `attempt` failed with a disconnect-class error: a fresh
/// connection to `address` is owed before anything else happens.
#[derive(Clone, Copy, Debug, PartialEq, Eq)]
pub struct PendingReconnect {
    pub address: Endpoint,
    pub attempt: usize,
}

/// What to do once an attempt has reported its outcome.
#[derive(Clone, Copy, Debug, PartialEq, Eq)]
pub enum AfterAttempt {
    /// The operation succeeded with this byte count.
    Done(usize),
    /// Hand the attempt's error to the caller, unretried.
    Surface,
    /// Reconnect, then report how that went.
    Reconnect(PendingReconnect),
}

/// What to do once a reconnect has reported whether it succeeded.
#[derive(Clone, Copy, Debug, PartialEq, Eq)]
pub enum AfterReconnect {
    /// Try the operation again on the new socket.
    Again(Retry),
    /// The reconnect failed: hand the caller the error of the attempt that
    /// led to it.
    Surface,
    /// The budget is spent: fail with a timeout naming this many attempts.
    Exhausted(usize),
}

impl Retry {
    /// The state in which every operation starts.
    pub open spec fn initial(address: Endpoint) -> Retry {
        Retry { address, attempt: 1 }
    }

    /// The decision taken on the outcome of an attempt.
    pub open spec fn step(self, outcome: Result<usize, ErrorKind>) -> AfterAttempt {
        match outcome {
            Ok(n) => AfterAttempt::Done(n),
            Err(kind) => if disconnect_class(kind) {
                AfterAttempt::Reconnect(PendingReconnect { address: self.address, attempt: self.attempt })
            } else {
                AfterAttempt::Surface
            },
        }
    }

    /// Starts an operation whose reconnects go to `address`.
    pub fn new(address: Endpoint) -> (r: Retry)
        ensures
            r == Retry::initial(address),
    {
        Retry { address, attempt: 1 }
    }

    /// The number of the attempt about to be made.
    pub fn attempt_number(&self) -> (r: usize)
        ensures
            r == self.attempt,
    {
        self.attempt
    }

    /// Decides what follows an attempt: success is returned at once, an
    /// error that is not disconnect-class is surfaced at once, and a
    /// disconnect-class error asks for a reconnect to the stored address.
    pub fn after_attempt(self, outcome: Result<usize, ErrorKind>) -> (r: AfterAttempt)
        ensures
            r == self.step(outcome),
    {
        match outcome {
            Ok(n) => AfterAttempt::Done(n),
            Err(kind) => if is_disconnect_error(&kind) {
                AfterAttempt::Reconnect(PendingReconnect { address: self.address, attempt: self.attempt })
            } else {
                AfterAttempt::Surface
            },
        }
    }
}

impl PendingReconnect {
    /// The decision taken once the reconnect has succeeded or failed.
    pub open spec fn step(self, connected: bool) -> AfterReconnect {
        if !connected {
            AfterReconnect::Surface
        } else if self.attempt >= ATTEMPTS {
            AfterReconnect::Exhausted(self.attempt)
        } else {
            AfterReconnect::Again(Retry { address: self.address, attempt: (self.attempt + 1) as usize })
        }
    }

    /// The address to reconnect to.
    pub fn target(&self) -> (r: Endpoint)
        ensures
            r == self.address,
    {
        self.address
    }

    /// Decides what follows a reconnect: a failed one surfaces the original
    /// error; a successful one allows another attempt, unless the attempt
    /// that failed was the last of the budget.
    pub fn after_reconnect(self, connected: bool) -> (r: AfterReconnect)
        ensures
            r == self.step(connected),
    {
        if !connected {
            AfterReconnect::Surface
        } else if self.attempt >= ATTEMPTS {
            AfterReconnect::Exhausted(self.attempt)
        } else {
            AfterReconnect::Again(Retry { address: self.address, attempt: self.attempt + 1 })
        }
    }
}

/// How a `read` or `write` ends.
#[derive(Clone, Copy, Debug, PartialEq, Eq)]
pub enum Ending {
    /// It returned this byte count.
    Done(usize),
    /// It returned the error of one of its attempts, of this kind.
    Failed(ErrorKind),
    /// It gave up with a timeout after this many attempts.
    Exhausted(usize),
}

/// The end of an operation that starts in `r`, when its successive attempts
/// report `outcomes` and its successive reconnects report `links`; `None`
/// while it still waits for an outcome that the sequences do not hold.
pub open spec fn run(r: Retry, outcomes: Seq<Result<usize, ErrorKind>>, links: Seq<bool>) -> Option<Ending>
    decreases outcomes.len(),
{
    if outcomes.len() == 0 {
        None
    } else {
        match outcomes[0] {
            Ok(n) => Some(Ending::Done(n)),
            Err(kind) => match r.step(outcomes[0]) {
                AfterAttempt::Reconnect(p) => if links.len() == 0 {
                    None
                } else {
                    match p.step(links[0]) {
                        AfterReconnect::Again(next) => run(next, outcomes.drop_first(), links.drop_first()),
                        AfterReconnect::Surface => Some(Ending::Failed(kind)),
                        AfterReconnect::Exhausted(n) => Some(Ending::Exhausted(n)),
                    }
                },
                _ => Some(Ending::Failed(kind)),
            },
        }
    }
}

/// The addresses of the reconnects that the same operation asks for, in order.
pub open spec fn reconnect_targets(r: Retry, outcomes: Seq<Result<usize, ErrorKind>>, links: Seq<bool>) -> Seq<Endpoint>
    decreases outcomes.len(),
{
    if outcomes.len() == 0 {
        Seq::empty()
    } else {
        match r.step(outcomes[0]) {
            AfterAttempt::Reconnect(p) => seq![p.address] + if links.len() == 0 {
                Seq::empty()
            } else {
                match p.step(links[0]) {
                    AfterReconnect::Again(next) => reconnect_targets(next, outcomes.drop_first(), links.drop_first()),
                    _ => Seq::empty(),
                }
            },
            _ => Seq::empty(),
        }
    }
}

/// `j` disconnect-class failures, each followed by a successful reconnect,
/// that stay within the budget only move the operation on by `j` attempts,
/// and ask for `j` reconnects to its address.
proof fn lemma_disconnect_prefix(r: Retry, outcomes: Seq<Result<usize, ErrorKind>>, links: Seq<bool>, j: nat)
    requires
        1 <= r.attempt,
        r.attempt + j <= ATTEMPTS,
        outcomes.len() >= j,
        links.len() >= j,
        forall|i: int| 0 <= i < j ==> (#[trigger] outcomes[i]) is Err && disconnect_class(outcomes[i]->Err_0),
        forall|i: int| 0 <= i < j ==> #[trigger] links[i],
    ensures
        run(r, outcomes, links) == run(
            (Retry { address: r.address, attempt: (r.attempt + j) as usize }),
            outcomes.skip(j as int),
            links.skip(j as int),
        ),
        reconnect_targets(r, outcomes, links) == Seq::new(j, |i: int| r.address) + reconnect_targets(
            (Retry { address: r.address, attempt: (r.attempt + j) as usize }),
            outcomes.skip(j as int),
            links.skip(j as int),
        ),
    decreases j,
{
    if j == 0 {
        assert(outcomes.skip(0) =~= outcomes);
        assert(links.skip(0) =~= links);
        assert(Seq::new(0, |i: int| r.address) + reconnect_targets(r, outcomes, links) =~= reconnect_targets(r, outcomes, links));
    } else {
        let next = Retry { address: r.address, attempt: (r.attempt + 1) as usize };
        let o = outcomes.drop_first();
        let l = links.drop_first();
        assert(outcomes[0] is Err && disconnect_class(outcomes[0]->Err_0));
        assert(links[0]);
        assert forall|i: int| 0 <= i < j - 1 implies (#[trigger] o[i]) is Err && disconnect_class(o[i]->Err_0) by {
            assert(o[i] == outcomes[i + 1]);
        }
        assert forall|i: int| 0 <= i < j - 1 implies #[trigger] l[i] by {
            assert(l[i] == links[i + 1]);
        }
        lemma_disconnect_prefix(next, o, l, (j - 1) as nat);
        assert(o.skip(j - 1) =~= outcomes.skip(j as int));
        assert(l.skip(j - 1) =~= links.skip(j as int));
        let last = Retry { address: r.address, attempt: (r.attempt + j) as usize };
        let rest = reconnect_targets(last, outcomes.skip(j as int), links.skip(j as int));
        assert(seq![r.address] + (Seq::new((j - 1) as nat, |i: int| r.address) + rest) =~= Seq::new(j, |i: int| r.address) + rest);
    }
}

/// An operation whose first attempt succeeds returns that attempt's byte
/// count and reconnects nowhere.
pub proof fn lemma_first_attempt_succeeds(address: Endpoint, outcomes: Seq<Result<usize, ErrorKind>>, links: Seq<bool>, n: usize)
    requires
        outcomes.len() > 0,
        outcomes[0] == Ok::<usize, ErrorKind>(n),
    ensures
        run(Retry::initial(address), outcomes, links) == Some(Ending::Done(n)),
        reconnect_targets(Retry::initial(address), outcomes, links).len() == 0,
{
}

/// When the connection drops and reconnecting works, the operation carries on
/// transparently: after fewer than the budget's number of disconnect-class
/// failures, each followed by a successful reconnect, an attempt that succeeds
/// ends the operation with its byte count, with one reconnect per failure.
pub proof fn lemma_reconnect_then_succeed(
    address: Endpoint,
    outcomes: Seq<Result<usize, ErrorKind>>,
    links: Seq<bool>,
    failures: nat,
    n: usize,
)
    requires
        failures < ATTEMPTS,
        outcomes.len() > failures,
        links.len() >= failures,
        forall|i: int| 0 <= i < failures ==> (#[trigger] outcomes[i]) is Err && disconnect_class(outcomes[i]->Err_0),
        forall|i: int| 0 <= i < failures ==> #[trigger] links[i],
        outcomes[failures as int] == Ok::<usize, ErrorKind>(n),
    ensures
        run(Retry::initial(address), outcomes, links) == Some(Ending::Done(n)),
        reconnect_targets(Retry::initial(address), outcomes, links) == Seq::new(failures, |i: int| address),
{
    let r = Retry::initial(address);
    lemma_disconnect_prefix(r, outcomes, links, failures);
    assert(outcomes.skip(failures as int)[0] == outcomes[failures as int]);
    let last = Retry { address, attempt: (1 + failures) as usize };
    assert(reconnect_targets(last, outcomes.skip(failures as int), links.skip(failures as int)) =~= Seq::<Endpoint>::empty());
    assert(Seq::new(failures, |i: int| address) + Seq::<Endpoint>::empty() =~= Seq::new(failures, |i: int| address));
}

/// When every attempt of the budget fails with a disconnect-class error and
/// every reconnect succeeds, the operation gives up after exactly the
/// budget's number of attempts, having reconnected after each of them.
pub proof fn lemma_budget_exhausted(address: Endpoint, outcomes: Seq<Result<usize, ErrorKind>>, links: Seq<bool>)
    requires
        outcomes.len() >= ATTEMPTS,
        links.len() >= ATTEMPTS,
        forall|i: int| 0 <= i < ATTEMPTS ==> (#[trigger] outcomes[i]) is Err && disconnect_class(outcomes[i]->Err_0),
        forall|i: int| 0 <= i < ATTEMPTS ==> #[trigger] links[i],
    ensures
        run(Retry::initial(address), outcomes, links) == Some(Ending::Exhausted(ATTEMPTS)),
        reconnect_targets(Retry::initial(address), outcomes, links) == Seq::new(ATTEMPTS as nat, |i: int| address),
{
    let r = Retry::initial(address);
    let j: nat = (ATTEMPTS - 1) as nat;
    lemma_disconnect_prefix(r, outcomes, links, j);
    let o = outcomes.skip(j as int);
    let l = links.skip(j as int);
    assert(o[0] == outcomes[j as int]);
    assert(l[0] == links[j as int]);
    let last = Retry { address, attempt: ATTEMPTS };
    assert(reconnect_targets(last, o, l) =~= seq![address]);
    assert(Seq::new(j, |i: int| address) + seq![address] =~= Seq::new(ATTEMPTS as nat, |i: int| address));
}

/// A failed reconnect ends the operation at once with the error of the
/// attempt that led to it, whatever the remaining budget.
pub proof fn lemma_failed_reconnect_surfaces(address: Endpoint, outcomes: Seq<Result<usize, ErrorKind>>, links: Seq<bool>, kind: ErrorKind)
    requires
        outcomes.len() > 0,
        links.len() > 0,
        outcomes[0] == Err::<usize, ErrorKind>(kind),
        disconnect_class(kind),
        !links[0],
    ensures
        run(Retry::initial(address), outcomes, links) == Some(Ending::Failed(kind)),
        reconnect_targets(Retry::initial(address), outcomes, links) == seq![address],
{
    assert(seq![address] + Seq::<Endpoint>::empty() =~= seq![address]);
}

/// An error that is not disconnect-class is returned by the first attempt,
/// with no reconnect made.
pub proof fn lemma_other_errors_not_retried(address: Endpoint, outcomes: Seq<Result<usize, ErrorKind>>, links: Seq<bool>, kind: ErrorKind)
    requires
        outcomes.len() > 0,
        outcomes[0] == Err::<usize, ErrorKind>(kind),
        !disconnect_class(kind),
    ensures
        run(Retry::initial(address), outcomes, links) == Some(Ending::Failed(kind)),
        reconnect_targets(Retry::initial(address), outcomes, links).len() == 0,
{
}

/// However many reconnects an operation makes, each goes to the address it
/// was started with.
pub proof fn lemma_reconnects_keep_address(r: Retry, outcomes: Seq<Result<usize, ErrorKind>>, links: Seq<bool>)
    ensures
        forall|i: int| 0 <= i < reconnect_targets(r, outcomes, links).len()
            ==> #[trigger] reconnect_targets(r, outcomes, links)[i] == r.address,
    decreases outcomes.len(),
{
    if outcomes.len() > 0 && links.len() > 0 {
        match r.step(outcomes[0]) {
            AfterAttempt::Reconnect(p) => match p.step(links[0]) {
                AfterReconnect::Again(next) => {
                    lemma_reconnects_keep_address(next, outcomes.drop_first(), links.drop_first());
                },
                _ => {},
            },
            _ => {},
        }
    }
}

} // verus!
