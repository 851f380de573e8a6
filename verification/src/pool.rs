//! The token pool: a process-wide issuer and tracker of concurrency permits.
//!
//! A [`JobToken`] stands for one occupied concurrency slot. Tokens come from
//! one of two pool variants behind one interface: an *inherited* pool that
//! delegates to an externally shared counting primitive (a jobserver), and an
//! *in-process* pool that is nothing but a local counter. The variant is
//! selected once, before any task runs, and never switched afterward.
//!
//! The pool itself performs no operating-system work. Where the inherited
//! variant needs the shared primitive probed, waited on or credited, its
//! methods return an instruction and the embedding program carries it out,
//! reporting the outcome back as a plain value. Every decision — when the
//! implicit token is consumed or restored, when a request to the helper
//! thread is issued, what each probe result means — is made and verified
//! here.

use vstd::prelude::*;
use vstd::string::StringExecFns;

use crate::error::{Error, ErrorKind};
use crate::strutil::{
    chars_numeral_value, is_u32_numeral, lemma_nonempty_tokens_append, parse_u32,
    spec_nonempty_tokens, spec_nonempty_tokens_from, spec_strip_plus,
};

verus! {

/// One occupied concurrency slot.
///
/// A token is created only by a successful pool acquisition and is given
/// back by passing it to a release method, which consumes it. Ownership
/// makes the release discipline a type-system fact: a token that was moved
/// into a release call cannot be released again, and a token cannot be
/// duplicated, so every token is released at most once.
pub struct JobToken {
    _seal: (),
}

impl JobToken {
    /// Tokens are minted by the pools in this module only.
    pub(crate) fn mint() -> JobToken {
        JobToken { _seal: () }
    }
}

/// The local fallback pool: a plain counter of free slots.
///
/// `available` is how many slots are currently free; `capacity` is how many
/// slots the pool started with. A well-formed pool never has more free slots
/// than its capacity, so the number of outstanding tokens is always
/// `capacity - available`.
pub struct InProcessJobServer {
    pub available: u32,
    pub capacity: u32,
}

/// In a well-formed in-process pool the free count never exceeds the
/// starting capacity, so a release can never credit a slot that was not
/// first taken.
pub open spec fn in_process_wf(p: InProcessJobServer) -> bool {
    p.available <= p.capacity
}

/// One successful acquisition: a slot was taken from `pre`, leaving `post`.
pub open spec fn spec_acquired(pre: InProcessJobServer, post: InProcessJobServer) -> bool {
    &&& pre.available > 0
    &&& post.available == pre.available - 1
    &&& post.capacity == pre.capacity
}

/// One release: a slot went back into `pre`, leaving `post`.
pub open spec fn spec_released(pre: InProcessJobServer, post: InProcessJobServer) -> bool {
    &&& pre.available < pre.capacity
    &&& post.available == pre.available + 1
    &&& post.capacity == pre.capacity
}

impl InProcessJobServer {
    /// A fresh pool with `capacity` free slots.
    pub fn new(capacity: u32) -> (p: InProcessJobServer)
        ensures
            p.available == capacity,
            p.capacity == capacity,
            in_process_wf(p),
    {
        InProcessJobServer { available: capacity, capacity }
    }

    /// How many slots are free right now.
    pub fn available(&self) -> (n: u32)
        ensures
            n == self.available,
    {
        self.available
    }

    /// How many slots the pool started with.
    pub fn capacity(&self) -> (n: u32)
        ensures
            n == self.capacity,
    {
        self.capacity
    }

    /// The number of free slots, as seen by specifications.
    pub open spec fn spec_available(&self) -> u32 {
        self.available
    }

    /// The starting capacity, as seen by specifications.
    pub open spec fn spec_capacity(&self) -> u32 {
        self.capacity
    }

    /// Take one slot if any is free; never suspends.
    ///
    /// Returns a token exactly when a slot was free, and then the free count
    /// goes down by one. Whichever caller polls at the moment a slot is free
    /// wins it; no fairness is promised.
    pub fn try_acquire(&mut self) -> (t: Option<JobToken>)
        ensures
            old(self).available > 0 ==> t.is_some() && spec_acquired(*old(self), *final(self)),
            old(self).available == 0 ==> t.is_none() && *final(self) == *old(self),
    {
        if self.available > 0 {
            self.available = self.available - 1;
            Some(JobToken::mint())
        } else {
            None
        }
    }

    /// Give one slot back, consuming the token that stood for it.
    ///
    /// A released slot always came from an acquisition on a well-formed
    /// pool, so the free count is strictly below capacity when this is
    /// called; the count therefore never climbs past where it started.
    pub fn release(&mut self, t: JobToken) -> (r: ())
        requires
            old(self).available < old(self).capacity,
        ensures
            spec_released(*old(self), *final(self)),
    {
        let JobToken { _seal } = t;
        self.available = self.available + 1;
    }
}

/// Law: one acquire/release cycle is invisible.
///
/// For every well-formed in-process pool, acquiring a token and then
/// releasing it leaves the free count exactly where it started, and at no
/// point — in particular not after the release — does the free count exceed
/// the pool's starting capacity. Chained over N cycles this is why a pool
/// that hands out and collects N tokens ends at its starting count with no
/// double credit.
pub proof fn lemma_acquire_release_roundtrip(
    p0: InProcessJobServer,
    p1: InProcessJobServer,
    p2: InProcessJobServer,
)
    requires
        in_process_wf(p0),
        spec_acquired(p0, p1),
        spec_released(p1, p2),
    ensures
        p2.available == p0.available,
        p2.capacity == p0.capacity,
        p2.available <= p0.capacity,
        in_process_wf(p1),
        in_process_wf(p2),
{
}

/// The inherited pool: a handle to an externally shared counting primitive
/// plus the process's one implicit token.
///
/// The implicit token is the single "free" slot granted to this process by
/// its parent at startup, recorded as a flag rather than acquired from the
/// shared primitive. At most one implicit token exists per process: the flag
/// is a boolean, consumed before the primitive is touched on acquisition and
/// restored before the primitive is credited on release.
pub struct InheritedJobServer {
    pub global_implicit_token: bool,
}

/// What a release of an inherited-pool token asks the embedding program
/// to do.
#[derive(Debug, PartialEq, Eq, Structural)]
pub enum ReleaseDisposition {
    /// The slot was absorbed by restoring the implicit-token flag; nothing
    /// touches the shared primitive.
    RestoredImplicit,
    /// The flag was already set, so one unit must be credited back to the
    /// shared primitive (one byte written to the pipe, or the semaphore
    /// count raised by one).
    ReturnToPrimitive,
}

impl InheritedJobServer {
    /// A freshly opened inherited pool: the parent's grant is in hand.
    pub fn new() -> (s: InheritedJobServer)
        ensures
            s.global_implicit_token,
    {
        InheritedJobServer { global_implicit_token: true }
    }

    /// Whether this process currently holds its implicit token.
    pub open spec fn spec_has_implicit(&self) -> bool {
        self.global_implicit_token
    }

    /// Consume the implicit token if this process still holds it.
    ///
    /// This is the first step of every acquisition: it succeeds exactly when
    /// the flag was set, and clears it.
    pub fn take_implicit(&mut self) -> (t: Option<JobToken>)
        ensures
            old(self).global_implicit_token ==> t.is_some() && !final(self).global_implicit_token,
            !old(self).global_implicit_token ==> t.is_none() && *final(self) == *old(self),
    {
        if self.global_implicit_token {
            self.global_implicit_token = false;
            Some(JobToken::mint())
        } else {
            None
        }
    }

    /// Turn a successful probe of the shared primitive into a token.
    ///
    /// Called after the embedding program acquired one unit from the shared
    /// primitive (a byte read from the pipe, or a satisfied semaphore wait);
    /// the unit is represented from here on by the returned token.
    pub fn token_from_primitive(&mut self) -> (t: JobToken)
        ensures
            *final(self) == *old(self),
    {
        JobToken::mint()
    }

    /// Give a token back: restore the implicit flag first, credit the shared
    /// primitive only if the flag is already set.
    ///
    /// Exactly one of the two dispositions is returned, and the flag is set
    /// afterward in either case, so at most one implicit token ever exists.
    pub fn release(&mut self, t: JobToken) -> (r: ReleaseDisposition)
        ensures
            !old(self).global_implicit_token ==> r == ReleaseDisposition::RestoredImplicit
                && final(self).global_implicit_token,
            old(self).global_implicit_token ==> r == ReleaseDisposition::ReturnToPrimitive
                && *final(self) == *old(self),
            final(self).global_implicit_token,
    {
        let JobToken { _seal } = t;
        if !self.global_implicit_token {
            self.global_implicit_token = true;
            ReleaseDisposition::RestoredImplicit
        } else {
            ReleaseDisposition::ReturnToPrimitive
        }
    }
}

/// The process-wide token pool: inherited where a usable jobserver handle
/// was found in the environment, the in-process counter otherwise.
///
/// The choice is made once, from the environment values read at startup,
/// and the selected variant is used for the life of the process.
pub enum JobTokenServer {
    /// Delegates to the externally shared primitive.
    Inherited { server: InheritedJobServer },
    /// Counts locally, with no external coordination.
    InProcess { server: InProcessJobServer },
}

/// The result of one non-blocking acquisition attempt on the pool.
pub enum TryAcquire {
    /// The attempt is decided: a token, or nothing free right now.
    Ready { token: Option<JobToken> },
    /// The implicit token is spent and the pool is inherited: the shared
    /// primitive must be probed (without blocking) to decide the attempt.
    /// On a successful probe, [`InheritedJobServer::token_from_primitive`]
    /// converts the acquired unit into a token.
    ProbePrimitive,
}

impl JobTokenServer {
    /// Select the pool variant, once, from the environment values.
    ///
    /// `inherited` carries the opened handle state when the jobserver
    /// environment variables were present and usable. When they are absent
    /// (or the handle failed to open), the pool falls back to the in-process
    /// variant whose capacity comes from the parallelism hint: the hint
    /// parsed as an unsigned integer, or 4 on absence or any parse failure.
    pub fn new(inherited: Option<InheritedJobServer>, parallelism_hint: Option<&str>) -> (s:
        JobTokenServer)
        ensures
            inherited matches Some(i) ==> (s matches JobTokenServer::Inherited { server } && server
                == i),
            inherited is None ==> (s matches JobTokenServer::InProcess { server }
                && server.spec_available() == spec_parallelism(spec_hint_view(parallelism_hint))
                && server.spec_capacity() == spec_parallelism(spec_hint_view(parallelism_hint))),
    {
        match inherited {
            Some(server) => JobTokenServer::Inherited { server },
            None => JobTokenServer::InProcess {
                server: InProcessJobServer::new(parallelism_from_hint(parallelism_hint)),
            },
        }
    }

    /// One non-blocking acquisition attempt.
    ///
    /// The in-process variant decides immediately from its counter. The
    /// inherited variant first tries to consume the implicit token; when
    /// that is spent, the caller is asked to probe the shared primitive.
    pub fn try_acquire(&mut self) -> (r: TryAcquire)
        ensures
            (*old(self) matches JobTokenServer::InProcess { server: p } ==> {
                &&& *final(self) matches JobTokenServer::InProcess { server: q }
                &&& (p.spec_available() > 0 ==> (r matches TryAcquire::Ready { token }
                    && token.is_some()) && spec_acquired(p, q))
                &&& (p.spec_available() == 0 ==> (r matches TryAcquire::Ready { token }
                    && token.is_none()) && q == p)
            }),
            (*old(self) matches JobTokenServer::Inherited { server: p } ==> {
                &&& *final(self) matches JobTokenServer::Inherited { server: q }
                &&& (p.spec_has_implicit() ==> (r matches TryAcquire::Ready { token }
                    && token.is_some()) && !q.spec_has_implicit())
                &&& (!p.spec_has_implicit() ==> r is ProbePrimitive && q == p)
            }),
    {
        match self {
            JobTokenServer::InProcess { server } => TryAcquire::Ready {
                token: server.try_acquire(),
            },
            JobTokenServer::Inherited { server } => match server.take_implicit() {
                Some(t) => TryAcquire::Ready { token: Some(t) },
                None => TryAcquire::ProbePrimitive,
            },
        }
    }
}

/// The hint an in-process pool is built from, as specifications see it:
/// the numeral's value, or 4 on absence or any parse failure.
pub open spec fn spec_parallelism(h: Option<Seq<char>>) -> int {
    match h {
        None => 4,
        Some(s) => if is_u32_numeral(s) {
            chars_numeral_value(spec_strip_plus(s))
        } else {
            4
        },
    }
}

/// The view of an optional hint string.
pub open spec fn spec_hint_view(h: Option<&str>) -> Option<Seq<char>> {
    match h {
        None => None,
        Some(s) => Some(s@),
    }
}

/// The capacity of the in-process pool: the parallelism hint parsed as an
/// unsigned integer, or 4 when the hint is absent or does not parse.
pub fn parallelism_from_hint(hint: Option<&str>) -> (n: u32)
    ensures
        n == spec_parallelism(spec_hint_view(hint)),
{
    match hint {
        None => 4,
        Some(s) => match parse_u32(s) {
            Some(v) => v,
            None => 4,
        },
    }
}


/// What the embedding program saw on the helper thread's result queue when
/// it was polled: the helper performs the blocking wait on the shared
/// primitive and queues one result per requested token.
pub enum HelperPoll {
    /// A token was acquired from the shared primitive and is ready to take.
    Granted,
    /// The helper's wait on the shared primitive failed at the OS level.
    GrantFailed { message: String },
    /// The result channel is closed: the helper thread is gone while the
    /// pool still stands, which violates the pool's invariants.
    Disconnected,
    /// Nothing queued yet.
    Empty,
}

/// What one scheduler turn of a pending acquisition decided.
pub enum AcquireStep {
    /// A token is in hand; the acquisition is over.
    Acquired { token: JobToken },
    /// The acquisition failed for good; no token is held.
    Failed { error: Error },
    /// The caller must instruct the helper thread to perform one blocking
    /// wait on the shared primitive, then poll again next turn.
    RequestToken,
    /// Nothing to do this turn but poll again on the next one.
    Wait,
}

/// Which way one scheduler turn of a pending acquisition goes: the four
/// outcomes of [`AcquireStep`], as specifications classify them.
#[derive(Clone, Copy, Debug, PartialEq, Eq, Structural)]
pub enum AcquireDecision {
    /// A token is granted this turn.
    Grant,
    /// The acquisition fails this turn.
    Fail,
    /// One blocking request must be issued, then wait.
    Request,
    /// Wait for the next turn.
    Wait,
}

/// The decision a step embodies.
pub open spec fn spec_step_decision(r: AcquireStep) -> AcquireDecision {
    match r {
        AcquireStep::Acquired { .. } => AcquireDecision::Grant,
        AcquireStep::Failed { .. } => AcquireDecision::Fail,
        AcquireStep::RequestToken => AcquireDecision::Request,
        AcquireStep::Wait => AcquireDecision::Wait,
    }
}

/// The pool as the driver uses it while a build runs: the selected variant,
/// the state of the one in-flight request to the shared primitive, and the
/// bank of helper results that were taken off the queue but not yet handed
/// to a waiter.
///
/// At most one request to the helper thread is outstanding at a time,
/// multiplexed across all waiters: a second task that wants a token while a
/// request is pending simply polls the same result queue instead of issuing
/// another request. The embedding program's poll *consumes* whatever the
/// queue holds, so every observation is folded into the bank first and a
/// waiter is then served from the pool's own state; a granted unit that the
/// implicit token outruns stays banked for the next waiter and is never
/// lost.
pub struct ActiveJobTokenServer {
    pub server: JobTokenServer,
    pub request_outstanding: bool,
    /// Units already acquired from the shared primitive and held for the
    /// next waiter.
    pub banked_grants: u32,
    /// A failed wait observed on the queue and not yet reported to a
    /// waiter.
    pub banked_failure: Option<Error>,
}

/// How many banked grants there are once this turn's observation is folded
/// in.
pub open spec fn spec_folded_grants(s: ActiveJobTokenServer, helper: HelperPoll) -> int {
    s.banked_grants + if helper is Granted {
        1int
    } else {
        0int
    }
}

/// Whether this turn's observation carries a failure of its own.
pub open spec fn spec_observed_failure(helper: HelperPoll) -> bool {
    helper is Disconnected || helper matches HelperPoll::GrantFailed { .. }
}

/// Whether a failure is available once this turn's observation is folded
/// in.
pub open spec fn spec_has_failure(s: ActiveJobTokenServer, helper: HelperPoll) -> bool {
    spec_observed_failure(helper) || s.banked_failure is Some
}

/// Whether an error is exactly the failure this turn folds in: the
/// operating-system error of a failed wait, the invariant violation of a
/// closed channel, or the failure already banked.
pub open spec fn failure_of(e: Error, s: ActiveJobTokenServer, helper: HelperPoll) -> bool {
    match helper {
        HelperPoll::GrantFailed { message } => e.kind == ErrorKind::IOError && e.message@
            == message@,
        HelperPoll::Disconnected => e.kind == ErrorKind::JobserverHelpThreadError,
        _ => match s.banked_failure {
            Some(b) => e == b,
            None => false,
        },
    }
}

/// Whether a banked failure is exactly what this turn's fold leaves behind.
pub open spec fn banked_failure_updated(
    s: ActiveJobTokenServer,
    helper: HelperPoll,
    after: Option<Error>,
) -> bool {
    match helper {
        HelperPoll::GrantFailed { message } => after matches Some(e) && e.kind == ErrorKind::IOError
            && e.message@ == message@,
        HelperPoll::Disconnected => after matches Some(e) && e.kind
            == ErrorKind::JobserverHelpThreadError,
        _ => after == s.banked_failure,
    }
}

/// Which way one acquisition turn goes, from the pool's state and this
/// turn's observation: the in-process counter decides alone; the inherited
/// pool serves the implicit token first, then a banked or just-granted
/// unit, then reports a failure, and otherwise issues at most one request.
pub open spec fn spec_acquire_decision(s: ActiveJobTokenServer, helper: HelperPoll) -> AcquireDecision {
    match s.server {
        JobTokenServer::InProcess { server: p } => if p.available > 0 {
            AcquireDecision::Grant
        } else {
            AcquireDecision::Wait
        },
        JobTokenServer::Inherited { server: h } => if h.global_implicit_token {
            AcquireDecision::Grant
        } else if spec_folded_grants(s, helper) > 0 {
            AcquireDecision::Grant
        } else if spec_has_failure(s, helper) {
            AcquireDecision::Fail
        } else if s.request_outstanding {
            AcquireDecision::Wait
        } else {
            AcquireDecision::Request
        },
    }
}

impl ActiveJobTokenServer {
    /// Enter the active state: no request to the helper thread is pending
    /// and nothing is banked.
    pub fn new(server: JobTokenServer) -> (s: ActiveJobTokenServer)
        ensures
            s.server == server,
            !s.request_outstanding,
            s.banked_grants == 0,
            s.banked_failure is None,
    {
        ActiveJobTokenServer { server, request_outstanding: false, banked_grants: 0, banked_failure: None }
    }

    /// One scheduler turn of a pending acquisition, deciding as
    /// [`spec_acquire_decision`] says.
    ///
    /// `helper` is what the embedding program took off the helper queue
    /// this turn; taking it empties the queue, so the observation is folded
    /// into the pool first — a grant raises the bank and a failure is kept
    /// aside — and only then is the waiter served: the implicit token when
    /// present, else a banked unit, else the kept failure; on nothing at
    /// all, one blocking request is issued if none is outstanding yet. A
    /// grant that loses to the implicit token therefore stays in the bank
    /// for the next waiter. The in-process variant decides from its counter
    /// alone and ignores the observation, since it has no helper thread.
    pub fn acquire_poll(&mut self, helper: HelperPoll) -> (r: AcquireStep)
        requires
            old(self).banked_grants < u32::MAX,
        ensures
            spec_step_decision(r) == spec_acquire_decision(*old(self), helper),
            (old(self).server matches JobTokenServer::InProcess { server: p } ==> {
                &&& final(self).server matches JobTokenServer::InProcess { server: q }
                &&& final(self).request_outstanding == old(self).request_outstanding
                &&& final(self).banked_grants == old(self).banked_grants
                &&& final(self).banked_failure == old(self).banked_failure
                &&& (p.spec_available() > 0 ==> spec_acquired(p, q))
                &&& (p.spec_available() == 0 ==> q == p)
            }),
            (old(self).server matches JobTokenServer::Inherited { server: h } ==> {
                &&& final(self).server matches JobTokenServer::Inherited { server: g }
                &&& (helper is Empty ==> final(self).request_outstanding == (old(self).request_outstanding || r is RequestToken))
                &&& (!(helper is Empty) ==> !final(self).request_outstanding)
                &&& (h.spec_has_implicit() ==> {
                    &&& r is Acquired
                    &&& !g.spec_has_implicit()
                    &&& final(self).banked_grants == spec_folded_grants(*old(self), helper)
                    &&& banked_failure_updated(*old(self), helper, final(self).banked_failure)
                })
                &&& (!h.spec_has_implicit() ==> {
                    &&& g == h
                    &&& (spec_folded_grants(*old(self), helper) > 0 ==> {
                        &&& r is Acquired
                        &&& final(self).banked_grants == spec_folded_grants(*old(self), helper) - 1
                        &&& banked_failure_updated(*old(self), helper, final(self).banked_failure)
                    })
                    &&& (spec_folded_grants(*old(self), helper) == 0 && spec_has_failure(
                        *old(self),
                        helper,
                    ) ==> {
                        &&& (r matches AcquireStep::Failed { error } && failure_of(
                            error,
                            *old(self),
                            helper,
                        ))
                        &&& final(self).banked_grants == 0
                        &&& final(self).banked_failure is None
                    })
                    &&& (spec_folded_grants(*old(self), helper) == 0 && !spec_has_failure(
                        *old(self),
                        helper,
                    ) ==> final(self).banked_grants == 0 && final(self).banked_failure is None)
                })
            }),
    {
        match &mut self.server {
            JobTokenServer::InProcess { server } => {
                return match server.try_acquire() {
                    Some(token) => AcquireStep::Acquired { token },
                    None => AcquireStep::Wait,
                };
            },
            JobTokenServer::Inherited { .. } => {},
        }
        // Fold this turn's observation into the bank before serving anyone:
        // the queue no longer holds it.
        match helper {
            HelperPoll::Granted => {
                self.banked_grants = self.banked_grants + 1;
                self.request_outstanding = false;
            },
            HelperPoll::GrantFailed { message } => {
                self.banked_failure = Some(Error::new(ErrorKind::IOError, message));
                self.request_outstanding = false;
            },
            HelperPoll::Disconnected => {
                self.banked_failure = Some(
                    Error::new(
                        ErrorKind::JobserverHelpThreadError,
                        String::from_str(
                            "jobserver helper thread has returned while the pool is still active",
                        ),
                    ),
                );
                self.request_outstanding = false;
            },
            HelperPoll::Empty => {},
        }
        let implicit = match &mut self.server {
            JobTokenServer::Inherited { server } => server.take_implicit(),
            JobTokenServer::InProcess { .. } => vstd::pervasive::unreached(),
        };
        if let Some(token) = implicit {
            return AcquireStep::Acquired { token };
        }
        if self.banked_grants > 0 {
            self.banked_grants = self.banked_grants - 1;
            let token = match &mut self.server {
                JobTokenServer::Inherited { server } => server.token_from_primitive(),
                JobTokenServer::InProcess { .. } => vstd::pervasive::unreached(),
            };
            return AcquireStep::Acquired { token };
        }
        if let Some(error) = self.banked_failure.take() {
            return AcquireStep::Failed { error };
        }
        if !self.request_outstanding {
            self.request_outstanding = true;
            AcquireStep::RequestToken
        } else {
            AcquireStep::Wait
        }
    }

    /// Give a finished task's token back to whichever pool variant issued
    /// it, and say what the embedding program must now do: nothing for the
    /// local counter or an absorbed implicit token, or credit one unit back
    /// to the shared primitive.
    pub fn release_token(&mut self, t: JobToken) -> (r: TokenReturn)
        requires
            old(self).server matches JobTokenServer::InProcess { server: p }
                ==> p.spec_available() < p.spec_capacity(),
        ensures
            final(self).request_outstanding == old(self).request_outstanding,
            final(self).banked_grants == old(self).banked_grants,
            final(self).banked_failure == old(self).banked_failure,
            (old(self).server matches JobTokenServer::InProcess { server: p } ==> {
                &&& final(self).server matches JobTokenServer::InProcess { server: q }
                &&& spec_released(p, q)
                &&& r is Local
            }),
            (old(self).server matches JobTokenServer::Inherited { server: h } ==> {
                &&& final(self).server matches JobTokenServer::Inherited { server: g }
                &&& g.spec_has_implicit()
                &&& (!h.spec_has_implicit() ==> r is RestoredImplicit)
                &&& (h.spec_has_implicit() ==> r is CreditPrimitive && g == h)
            }),
    {
        match &mut self.server {
            JobTokenServer::InProcess { server } => {
                server.release(t);
                TokenReturn::Local
            },
            JobTokenServer::Inherited { server } => match server.release(t) {
                ReleaseDisposition::RestoredImplicit => TokenReturn::RestoredImplicit,
                ReleaseDisposition::ReturnToPrimitive => TokenReturn::CreditPrimitive,
            },
        }
    }
}

/// What the embedding program must do after a token was given back.
#[derive(Debug, PartialEq, Eq, Structural)]
pub enum TokenReturn {
    /// The local counter took the slot back; nothing else to do.
    Local,
    /// The slot became the implicit token again; nothing touches the shared
    /// primitive.
    RestoredImplicit,
    /// One unit must be credited back to the shared primitive.
    CreditPrimitive,
}


/// The payload of the first token that names the jobserver handle: what
/// follows `--jobserver-auth=` in the first token that starts with it and
/// carries anything after it.
pub open spec fn spec_auth_payload(tokens: Seq<Seq<char>>) -> Option<Seq<char>>
    decreases tokens.len(),
{
    if tokens.len() == 0 {
        None
    } else if crate::strutil::spec_starts_with(tokens[0], "--jobserver-auth="@) && tokens[0].len()
        > "--jobserver-auth="@.len() {
        Some(tokens[0].skip("--jobserver-auth="@.len() as int))
    } else {
        spec_auth_payload(tokens.skip(1))
    }
}

/// The payload search looks left to right: a hit in the front part wins,
/// and the back part is searched only otherwise.
pub proof fn lemma_auth_payload_append(a: Seq<Seq<char>>, b: Seq<Seq<char>>)
    ensures
        spec_auth_payload(a + b) == match spec_auth_payload(a) {
            Some(p) => Some(p),
            None => spec_auth_payload(b),
        },
    decreases a.len(),
{
    if a.len() == 0 {
        assert(a + b =~= b);
    } else {
        assert((a + b)[0] == a[0]);
        assert((a + b).skip(1) =~= a.skip(1) + b);
        lemma_auth_payload_append(a.skip(1), b);
    }
}

/// How an inherited jobserver handle is described in the environment: the
/// POSIX form, a pair of inherited file descriptors used as a
/// one-byte-per-token pipe, or the named form, an operating-system counting
/// semaphore.
#[derive(Debug, PartialEq, Eq)]
pub enum JobserverAuth {
    /// A pair of file descriptors: read tokens from the first, return them
    /// to the second.
    FdPair { read: u32, write: u32 },
    /// The name of a counting semaphore.
    SemaphoreName { name: String },
}

/// What a jobserver payload describes: two comma-separated numbers are the
/// descriptor pair, anything else names a semaphore.
pub open spec fn spec_payload_auth(p: Seq<char>) -> JobserverAuthKind {
    let head = crate::strutil::spec_split_once(p, ',').0;
    match crate::strutil::spec_split_once(p, ',').1 {
        Some(tail) => {
            if is_u32_numeral(head) && is_u32_numeral(tail) {
                JobserverAuthKind::FdPair {
                    read: chars_numeral_value(spec_strip_plus(head)) as u32,
                    write: chars_numeral_value(spec_strip_plus(tail)) as u32,
                }
            } else {
                JobserverAuthKind::SemaphoreName { name: p }
            }
        },
        None => JobserverAuthKind::SemaphoreName { name: p },
    }
}

/// A jobserver handle description, as specifications see it.
pub enum JobserverAuthKind {
    /// See [`JobserverAuth::FdPair`].
    FdPair { read: u32, write: u32 },
    /// See [`JobserverAuth::SemaphoreName`].
    SemaphoreName { name: Seq<char> },
}

/// A handle description and its view agree.
pub open spec fn auth_matches(a: JobserverAuth, k: JobserverAuthKind) -> bool {
    match (a, k) {
        (
            JobserverAuth::FdPair { read: r1, write: w1 },
            JobserverAuthKind::FdPair { read: r2, write: w2 },
        ) => r1 == r2 && w1 == w2,
        (
            JobserverAuth::SemaphoreName { name: n1 },
            JobserverAuthKind::SemaphoreName { name: n2 },
        ) => n1@ == n2,
        _ => false,
    }
}

/// The jobserver handle described by a make-flags environment value, if
/// any: the first whitespace-separated token carrying `--jobserver-auth=`
/// decides, its payload read as a descriptor pair or a semaphore name.
pub open spec fn spec_jobserver_auth(s: Seq<char>) -> Option<JobserverAuthKind> {
    match spec_auth_payload(
        spec_nonempty_tokens(
            crate::strutil::spec_split(crate::strutil::spec_replace_char(s, '\t', ' '), ' '),
        ),
    ) {
        Some(p) => Some(spec_payload_auth(p)),
        None => None,
    }
}

/// Read the jobserver handle out of a make-flags environment value, as
/// [`spec_jobserver_auth`] describes. Opening the handle (the descriptors
/// or the semaphore) is the embedding program's work; a value without a
/// usable handle description simply yields nothing, and the pool then
/// falls back to the in-process variant.
pub fn parse_jobserver_auth(var: &str) -> (r: Option<JobserverAuth>)
    ensures
        match spec_jobserver_auth(var@) {
            Some(k) => (r matches Some(a) && auth_matches(a, k)),
            None => r is None,
        },
{
    let normalized = crate::strutil::tabs_to_spaces(var);
    let parts = crate::strutil::split_char(normalized.as_str(), ' ');
    let ghost raw = crate::strutil::spec_split(
        crate::strutil::spec_replace_char(var@, '\t', ' '),
        ' ',
    );
    let ghost views = parts@.map_values(|p: String| p@);
    let mut i: usize = 0;
    proof {
        assert(spec_nonempty_tokens(views.take(0)) =~= Seq::<Seq<char>>::empty());
    }
    while i < parts.len()
        invariant
            0 <= i <= parts@.len(),
            views == parts@.map_values(|p: String| p@),
            views.len() == parts@.len(),
            raw == crate::strutil::spec_split(
                crate::strutil::spec_replace_char(var@, '\t', ' '),
                ' ',
            ),
            views == raw,
            spec_auth_payload(spec_nonempty_tokens(views.take(i as int))) is None,
        decreases parts@.len() - i,
    {
        let part = parts[i].as_str();
        let ghost before = spec_nonempty_tokens(views.take(i as int));
        proof {
            assert(views.take(i + 1).drop_last() =~= views.take(i as int));
            assert(views.take(i + 1).last() == views[i as int]);
        }
        if !part.is_empty() && crate::strutil::str_starts_with(part, "--jobserver-auth=")
            && part.unicode_len() > 17 {
            proof {
                reveal_strlit("--jobserver-auth=");
            }
            let payload = part.substring_char(17, part.unicode_len());
            proof {
                assert(payload@ =~= views[i as int].skip(17));
                assert(spec_nonempty_tokens(views.take(i + 1)) =~= before + seq![views[i as int]]);
                lemma_auth_payload_append(before, seq![views[i as int]]);
                assert(spec_auth_payload(seq![views[i as int]]) == Some(views[i as int].skip(17)));
                lemma_split_prefix_none(views, i as int);
                assert(spec_auth_payload(spec_nonempty_tokens(raw)) == Some(payload@));
                assert(spec_jobserver_auth(var@) == Some(spec_payload_auth(payload@)));
            }
            let (head, tail) = crate::strutil::split_once_char(payload, ',');
            match tail {
                Some(t) => {
                    let rn = crate::strutil::parse_u32(head);
                    let wn = crate::strutil::parse_u32(t);
                    match (rn, wn) {
                        (Some(read), Some(write)) => {
                            return Some(JobserverAuth::FdPair { read, write });
                        },
                        _ => {
                            return Some(JobserverAuth::SemaphoreName { name: payload.to_owned() });
                        },
                    }
                },
                None => {
                    return Some(JobserverAuth::SemaphoreName { name: payload.to_owned() });
                },
            }
        }
        proof {
            reveal_strlit("--jobserver-auth=");
            if views[i as int].len() > 0 {
                assert(spec_nonempty_tokens(views.take(i + 1)) =~= before + seq![views[i as int]]);
                lemma_auth_payload_append(before, seq![views[i as int]]);
                assert(seq![views[i as int]].skip(1) =~= Seq::<Seq<char>>::empty());
                assert(views[i as int] == part@);
                assert("--jobserver-auth="@.len() == 17);
                assert(!(crate::strutil::spec_starts_with(views[i as int], "--jobserver-auth="@)
                    && views[i as int].len() > 17));
                assert(seq![views[i as int]][0] == views[i as int]);
                assert(spec_auth_payload(Seq::<Seq<char>>::empty()) is None);
                assert(spec_auth_payload(seq![views[i as int]]) is None);
            } else {
                assert(spec_nonempty_tokens(views.take(i + 1)) =~= before);
            }
        }
        i = i + 1;
    }
    proof {
        assert(views.take(i as int) =~= views);
    }
    None
}

/// The payload found at token `i` is the payload of the whole list, when
/// no earlier token carries one.
proof fn lemma_split_prefix_none(views: Seq<Seq<char>>, i: int)
    requires
        0 <= i < views.len(),
        spec_auth_payload(spec_nonempty_tokens(views.take(i))) is None,
        crate::strutil::spec_starts_with(views[i], "--jobserver-auth="@),
        views[i].len() > "--jobserver-auth="@.len(),
    ensures
        spec_auth_payload(spec_nonempty_tokens(views)) == Some(
            views[i].skip("--jobserver-auth="@.len() as int),
        ),
{
    let front = spec_nonempty_tokens(views.take(i + 1));
    assert(views.take(i + 1).drop_last() =~= views.take(i));
    assert(views.take(i + 1).last() == views[i]);
    assert(views[i].len() > 0);
    assert(front =~= spec_nonempty_tokens(views.take(i)) + seq![views[i]]);
    lemma_auth_payload_append(spec_nonempty_tokens(views.take(i)), seq![views[i]]);
    lemma_nonempty_tokens_append(views, i + 1);
    lemma_auth_payload_append(front, spec_nonempty_tokens_from(views, i + 1));
}

} // verus!
