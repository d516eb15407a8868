//! Requests with a session, and what is done when the session is missing, stale or
//! awaiting approval.
//!
//! A request never waits for an approval. If there is no session to use, it asks for
//! one, shows the link and stops; the next run claims the token.

use vstd::prelude::*;
use crate::client::{bearer_header, Client, Failure, Outgoing, Reply, Save, Verb};
use crate::config::{Config, PendingSessionRequest};
use crate::session::{ClaimOutcome, SessionReason, SessionRequestBody};

verus! {

/// Which of its attempts a request is at.
#[derive(Debug, Clone, Copy, PartialEq, Eq, Structural)]
pub enum SendStage {
    /// The only attempt of a silent client.
    Silent,
    First,
    /// With a token that was claimed after the first was refused.
    Second,
}

/// What the operator is told about a session that awaits approval.
pub enum Notice {
    /// The request of an earlier run is still undecided.
    StillPending { url: String },
    /// A new request was made.
    Requested { reason: SessionReason, url: String, expires_at: String },
}

/// What a request with a session does next.
pub enum BearerStep {
    /// Send the request with the session token.
    Send(SendStage),
    /// Poll this session request, to claim its token.
    Claim(SessionReason, PendingSessionRequest),
    /// Ask the server for a session.
    Create(SessionReason, SessionRequestBody),
    /// Stop: a session awaits approval.
    Await(Notice),
    /// Stop: the last reply is the answer.
    Finish,
    /// Stop.
    Fail(Failure),
}

/// A step, and whether the settings are written before it.
pub struct BearerTurn {
    pub save: Save,
    pub step: BearerStep,
}

impl Client {
    /// Asking for a session.
    pub open spec fn create_step(self, reason: SessionReason) -> BearerStep {
        match self.cfg.device_id {
            Some(device_id) => BearerStep::Create(
                reason,
                SessionRequestBody { label: None, requested_duration_hours: None, device_id },
            ),
            None => BearerStep::Fail(Failure::NoDevice),
        }
    }

    /// Getting a session: from a request of an earlier run if there is one, else by
    /// asking for one.
    pub open spec fn ensure_step(self, reason: SessionReason) -> BearerStep {
        match self.cfg.pending_session_request {
            Some(pending) => BearerStep::Claim(reason, pending),
            None => self.create_step(reason),
        }
    }

    /// The first step of a request with a session.
    pub open spec fn first_step(self) -> BearerStep {
        if self.silent {
            if self.cfg.session_token is None {
                BearerStep::Fail(Failure::NoSessionToken)
            } else {
                BearerStep::Send(SendStage::Silent)
            }
        } else if self.cfg.session_token is None {
            self.ensure_step(SessionReason::NoSession)
        } else {
            BearerStep::Send(SendStage::First)
        }
    }

    /// The client and the turn after the request was answered with `status`.
    pub open spec fn after_reply(self, stage: SendStage, status: u16) -> (Client, BearerTurn) {
        if status != 401 {
            (self, BearerTurn { save: Save::Keep, step: BearerStep::Finish })
        } else {
            match stage {
                SendStage::Silent => (
                    self,
                    BearerTurn {
                        save: Save::Keep,
                        step: BearerStep::Fail(Failure::SessionTimedOut),
                    },
                ),
                SendStage::First => (
                    self.without_token(),
                    BearerTurn {
                        save: Save::BestEffort,
                        step: self.without_token().ensure_step(SessionReason::TimedOut),
                    },
                ),
                SendStage::Second => (
                    self,
                    BearerTurn {
                        save: Save::Keep,
                        step: BearerStep::Fail(Failure::AuthenticationFailed),
                    },
                ),
            }
        }
    }

    /// The client and the turn after the pending session request was polled.
    pub open spec fn after_claim(
        self,
        reason: SessionReason,
        pending: PendingSessionRequest,
        outcome: ClaimOutcome,
    ) -> (Client, BearerTurn) {
        match outcome {
            ClaimOutcome::Claimed(token) => (
                self.without_pending().with_token(token),
                BearerTurn {
                    save: Save::Required,
                    step: BearerStep::Send(
                        match reason {
                            SessionReason::NoSession => SendStage::First,
                            SessionReason::TimedOut => SendStage::Second,
                        },
                    ),
                },
            ),
            ClaimOutcome::StillPending => (
                self,
                BearerTurn {
                    save: Save::Keep,
                    step: BearerStep::Await(Notice::StillPending { url: pending.url }),
                },
            ),
            ClaimOutcome::Dead => (
                self.without_pending(),
                BearerTurn {
                    save: Save::Required,
                    step: self.without_pending().create_step(reason),
                },
            ),
        }
    }

    /// The client and the turn after the server made a session request.
    pub open spec fn after_created(
        self,
        reason: SessionReason,
        created: PendingSessionRequest,
    ) -> (Client, BearerTurn) {
        (
            Client {
                cfg: Config { pending_session_request: Some(created), ..self.cfg },
                ..self
            },
            BearerTurn {
                save: Save::Required,
                step: BearerStep::Await(
                    Notice::Requested { reason, url: created.url, expires_at: created.expires_at },
                ),
            },
        )
    }

    fn begin_session_request(&self, reason: SessionReason) -> (out: BearerStep)
        ensures
            out == self.create_step(reason),
    {
        match self.resolve_device_id(None) {
            Ok(device_id) => BearerStep::Create(
                reason,
                SessionRequestBody { label: None, requested_duration_hours: None, device_id },
            ),
            Err(e) => BearerStep::Fail(e),
        }
    }

    fn ensure_session_or_report(&self, reason: SessionReason) -> (out: BearerStep)
        ensures
            out == self.ensure_step(reason),
    {
        match &self.cfg.pending_session_request {
            Some(pending) => BearerStep::Claim(reason, pending.clone()),
            None => self.begin_session_request(reason),
        }
    }

    /// Begins a request with a session.
    pub fn request_bearer(&self) -> (out: BearerStep)
        ensures
            out == self.first_step(),
    {
        if self.silent {
            if self.cfg.session_token.is_none() {
                return BearerStep::Fail(Failure::NoSessionToken);
            }
            return BearerStep::Send(SendStage::Silent);
        }
        if self.cfg.session_token.is_none() {
            return self.ensure_session_or_report(SessionReason::NoSession);
        }
        BearerStep::Send(SendStage::First)
    }

    /// Takes the status of the reply to a request with a session.
    pub fn bearer_replied(&mut self, stage: SendStage, status: u16) -> (out: BearerTurn)
        ensures
            (*final(self), out) == old(self).after_reply(stage, status),
    {
        if status != 401 {
            return BearerTurn { save: Save::Keep, step: BearerStep::Finish };
        }
        match stage {
            SendStage::Silent => BearerTurn {
                save: Save::Keep,
                step: BearerStep::Fail(Failure::SessionTimedOut),
            },
            SendStage::First => {
                self.cfg.session_token = None;
                BearerTurn {
                    save: Save::BestEffort,
                    step: self.ensure_session_or_report(SessionReason::TimedOut),
                }
            },
            SendStage::Second => BearerTurn {
                save: Save::Keep,
                step: BearerStep::Fail(Failure::AuthenticationFailed),
            },
        }
    }

    /// Takes the result of polling the pending session request.
    pub fn bearer_claimed(
        &mut self,
        reason: SessionReason,
        pending: PendingSessionRequest,
        outcome: ClaimOutcome,
    ) -> (out: BearerTurn)
        ensures
            (*final(self), out) == old(self).after_claim(reason, pending, outcome),
    {
        match outcome {
            ClaimOutcome::Claimed(token) => {
                self.cfg.session_token = Some(token);
                self.cfg.pending_session_request = None;
                let stage = match reason {
                    SessionReason::NoSession => SendStage::First,
                    SessionReason::TimedOut => SendStage::Second,
                };
                BearerTurn { save: Save::Required, step: BearerStep::Send(stage) }
            },
            ClaimOutcome::StillPending => BearerTurn {
                save: Save::Keep,
                step: BearerStep::Await(Notice::StillPending { url: pending.url }),
            },
            ClaimOutcome::Dead => {
                self.cfg.pending_session_request = None;
                BearerTurn { save: Save::Required, step: self.begin_session_request(reason) }
            },
        }
    }

    /// Takes the session request that the server made. It is kept, so that the next
    /// run can claim the token.
    pub fn bearer_created(&mut self, reason: SessionReason, created: PendingSessionRequest) -> (out:
        BearerTurn)
        ensures
            (*final(self), out) == old(self).after_created(reason, created),
    {
        let notice = Notice::Requested {
            reason,
            url: created.url.clone(),
            expires_at: created.expires_at.clone(),
        };
        self.cfg.pending_session_request = Some(created);
        BearerTurn { save: Save::Required, step: BearerStep::Await(notice) }
    }

    /// The request with the session token, for a client that must not ask for a
    /// session; none if there is no token.
    pub fn try_bearer_silent(&self, verb: Verb, path: &str) -> (out: Option<Outgoing>)
        ensures
            match out {
                Some(o) => self.cfg.session_token is Some && o.is_request(
                    verb,
                    self.base_url@ + path@,
                    bearer_header(self.cfg.session_token),
                ),
                None => self.cfg.session_token is None,
            },
    {
        if self.cfg.session_token.is_none() {
            None
        } else {
            Some(self.send_with_auth(verb, path))
        }
    }

    /// Takes the reply to [`Client::try_bearer_silent`]. A refused token is dropped;
    /// any other reply is passed on.
    pub fn bearer_silent_replied(&mut self, reply: Reply) -> (out: (Save, Option<Reply>))
        ensures
            if reply.status == 401 {
                *final(self) == old(self).without_token() && out == (
                    Save::BestEffort,
                    None::<Reply>,
                )
            } else {
                *final(self) == *old(self) && out == (Save::Keep, Some(reply))
            },
    {
        if reply.status == 401 {
            self.cfg.session_token = None;
            (Save::BestEffort, None)
        } else {
            (Save::Keep, Some(reply))
        }
    }
}

// ── What holds of every request ─────────────────────────────────────────────
/// What comes back after a step.
pub enum Answer {
    /// The status of the reply to the request.
    Reply(u16),
    /// What polling the pending session request found.
    Claim(ClaimOutcome),
    /// The session request that the server made.
    Created(PendingSessionRequest),
}

/// Whether `answer` is an answer to `step`. Nothing answers a request that has ended.
pub open spec fn answers(step: BearerStep, answer: Answer) -> bool {
    match (step, answer) {
        (BearerStep::Send(_), Answer::Reply(_)) => true,
        (BearerStep::Claim(_, _), Answer::Claim(_)) => true,
        (BearerStep::Create(_, _), Answer::Created(_)) => true,
        _ => false,
    }
}

/// The client and the step after `answer` came to `step`.
pub open spec fn after_answer(client: Client, step: BearerStep, answer: Answer) -> (
    Client,
    BearerStep,
) {
    let (after, turn) = match (step, answer) {
        (BearerStep::Send(stage), Answer::Reply(status)) => client.after_reply(stage, status),
        (BearerStep::Claim(reason, pending), Answer::Claim(outcome)) => client.after_claim(
            reason,
            pending,
            outcome,
        ),
        (BearerStep::Create(reason, _), Answer::Created(created)) => client.after_created(
            reason,
            created,
        ),
        _ => (client, BearerTurn { save: Save::Keep, step }),
    };
    (after, turn.step)
}

/// The client and the step of a request that got the given answers, one after the
/// other.
pub open spec fn run(client: Client, given: Seq<Answer>) -> (Client, BearerStep)
    decreases given.len(),
{
    if given.len() == 0 {
        (client, client.first_step())
    } else {
        let (before, step) = run(client, given.drop_last());
        after_answer(before, step, given.last())
    }
}

/// Whether each of the answers was an answer to the step that it came to.
pub open spec fn is_run(client: Client, given: Seq<Answer>) -> bool
    decreases given.len(),
{
    given.len() > 0 ==> is_run(client, given.drop_last()) && answers(
        run(client, given.drop_last()).1,
        given.last(),
    )
}

/// How many more answers a request can get at most.
pub open spec fn answers_left(step: BearerStep) -> nat {
    match step {
        BearerStep::Claim(SessionReason::NoSession, _) => 5,
        BearerStep::Send(SendStage::First) => 4,
        BearerStep::Claim(SessionReason::TimedOut, _) => 3,
        BearerStep::Send(SendStage::Second) => 1,
        BearerStep::Send(SendStage::Silent) => 1,
        BearerStep::Create(_, _) => 1,
        BearerStep::Await(_) | BearerStep::Finish | BearerStep::Fail(_) => 0,
    }
}

proof fn lemma_answers_left(client: Client, given: Seq<Answer>)
    requires
        is_run(client, given),
    ensures
        answers_left(run(client, given).1) + given.len() <= 5,
    decreases given.len(),
{
    if given.len() > 0 {
        lemma_answers_left(client, given.drop_last());
    }
}

/// A request never blocks on an approval: whatever is answered, it has ended after
/// five answers at most.
pub proof fn law_request_ends(client: Client, given: Seq<Answer>)
    requires
        is_run(client, given),
    ensures
        given.len() <= 5,
        given.len() == 5 ==> run(client, given).1 is Await || run(client, given).1 is Finish
            || run(client, given).1 is Fail,
{
    lemma_answers_left(client, given);
}

/// What holds between the client and the step of a request.
pub open spec fn consistent(client: Client, step: BearerStep) -> bool {
    match step {
        BearerStep::Send(stage) => {
            &&& client.cfg.session_token is Some
            &&& stage == SendStage::Silent <==> client.silent
        },
        BearerStep::Claim(_, pending) => {
            &&& client.cfg.pending_session_request == Some(pending)
            &&& client.cfg.session_token is None
            &&& !client.silent
        },
        BearerStep::Create(_, body) => {
            &&& client.cfg.pending_session_request is None
            &&& client.cfg.session_token is None
            &&& client.cfg.device_id == Some(body.device_id)
            &&& !client.silent
        },
        BearerStep::Await(notice) => {
            &&& client.cfg.pending_session_request matches Some(pending)
            &&& client.cfg.session_token is None
            &&& !client.silent
            &&& match notice {
                Notice::StillPending { url } => url == pending.url,
                Notice::Requested { url, expires_at, .. } => url == pending.url && expires_at
                    == pending.expires_at,
            }
        },
        BearerStep::Finish | BearerStep::Fail(_) => true,
    }
}

proof fn lemma_consistent(client: Client, given: Seq<Answer>)
    requires
        is_run(client, given),
    ensures
        consistent(run(client, given).0, run(client, given).1),
    decreases given.len(),
{
    if given.len() > 0 {
        lemma_consistent(client, given.drop_last());
    }
}

/// A silent client fails rather than escalate: it sends its token or fails, it never
/// polls or asks for a session, and its settings stay as they are.
pub proof fn law_silent_never_escalates(client: Client, given: Seq<Answer>)
    requires
        client.silent,
        is_run(client, given),
    ensures
        run(client, given).0 == client,
        ({
            let step = run(client, given).1;
            ||| step == BearerStep::Send(SendStage::Silent)
            ||| step == BearerStep::Finish
            ||| step == BearerStep::Fail(Failure::NoSessionToken) && client.cfg.session_token
                is None
            ||| step == BearerStep::Fail(Failure::SessionTimedOut) && given.len() > 0
                && given.last() == Answer::Reply(401)
        }),
    decreases given.len(),
{
    if given.len() > 0 {
        law_silent_never_escalates(client, given.drop_last());
    }
}

/// The request is only ever sent with a session token.
pub proof fn law_sent_with_a_token(client: Client, given: Seq<Answer>)
    requires
        is_run(client, given),
        run(client, given).1 is Send,
    ensures
        run(client, given).0.cfg.session_token is Some,
{
    lemma_consistent(client, given);
}

/// A session is asked for only where there is none and none is pending: there was no
/// token, or the server refused it and it was dropped.
pub proof fn law_no_needless_session_request(client: Client, given: Seq<Answer>)
    requires
        is_run(client, given),
        run(client, given).1 is Create,
    ensures
        run(client, given).0.cfg.session_token is None,
        run(client, given).0.cfg.pending_session_request is None,
{
    lemma_consistent(client, given);
}

/// A request that stops to await an approval leaves the session request in the
/// settings, shows its link, and keeps no token that the server refused.
pub proof fn law_awaited_request_is_kept(client: Client, given: Seq<Answer>)
    requires
        is_run(client, given),
        run(client, given).1 is Await,
    ensures
        run(client, given).0.cfg.session_token is None,
        ({
            &&& run(client, given).0.cfg.pending_session_request matches Some(pending)
            &&& match run(client, given).1->Await_0 {
                Notice::StillPending { url } => url == pending.url,
                Notice::Requested { url, .. } => url == pending.url,
            }
        }),
{
    lemma_consistent(client, given);
}

/// The run after one that stopped to await an approval begins by claiming the token of
/// that session.
pub proof fn law_next_run_claims(client: Client, given: Seq<Answer>)
    requires
        is_run(client, given),
        run(client, given).1 is Await,
    ensures
        ({
            let after = run(client, given).0;
            &&& after.cfg.pending_session_request matches Some(pending)
            &&& after.first_step() == BearerStep::Claim(SessionReason::NoSession, pending)
        }),
{
    lemma_consistent(client, given);
}

/// A session request leaves the settings as soon as its token is claimed or it is found
/// dead, and not before.
pub proof fn law_pending_request_is_cleared(
    client: Client,
    reason: SessionReason,
    pending: PendingSessionRequest,
    outcome: ClaimOutcome,
)
    requires
        client.cfg.pending_session_request == Some(pending),
    ensures
        client.after_claim(reason, pending, outcome).0.cfg.pending_session_request is None <==> !(
        outcome is StillPending),
{
}

/// A reply answers the request exactly if the server did not refuse the token.
pub proof fn law_answer_is_authenticated(client: Client, given: Seq<Answer>)
    requires
        is_run(client, given),
        given.len() > 0,
    ensures
        run(client, given).1 is Finish <==> (given.last() matches Answer::Reply(status) && status
            != 401),
{
}

/// Whether one of the answers claims `token`.
pub open spec fn claims(given: Seq<Answer>, token: String) -> bool {
    exists|i: int|
        0 <= i < given.len() && #[trigger] given[i] == Answer::Claim(ClaimOutcome::Claimed(token))
}

/// The session token is the one that the settings held or one that was claimed on the
/// way, and nothing but the token and the pending session request changes.
pub proof fn law_only_the_session_changes(client: Client, given: Seq<Answer>)
    requires
        is_run(client, given),
    ensures
        ({
            let after = run(client, given).0;
            &&& after.base_url == client.base_url
            &&& after.silent == client.silent
            &&& after.cfg == (Config {
                session_token: after.cfg.session_token,
                pending_session_request: after.cfg.pending_session_request,
                ..client.cfg
            })
            &&& after.cfg.session_token matches Some(token) ==> client.cfg.session_token == Some(
                token,
            ) || claims(given, token)
        }),
    decreases given.len(),
{
    if given.len() > 0 {
        let before = given.drop_last();
        law_only_the_session_changes(client, before);
        let last = given.last();
        assert(given[given.len() - 1] == last);
        if let Some(token) = run(client, before).0.cfg.session_token {
            if claims(before, token) {
                let i = choose|i: int|
                    0 <= i < before.len() && #[trigger] before[i] == Answer::Claim(
                        ClaimOutcome::Claimed(token),
                    );
                assert(given[i] == before[i]);
                assert(claims(given, token));
            }
        }
    }
}

// ── What each step leads to ─────────────────────────────────────────────────
/// A request begins by sending the token if there is one. Without one a silent client fails;
/// any other claims the pending session request, whole, if there is one, and else asks for a
/// session for its own device, with no label and no duration, and fails if it has no device.
pub proof fn law_request_begins(client: Client)
    ensures
        ({
            let step = client.first_step();
            let lacking = !client.silent && client.cfg.session_token is None;
            &&& client.cfg.session_token is Some ==> step == BearerStep::Send(
                if client.silent {
                    SendStage::Silent
                } else {
                    SendStage::First
                },
            )
            &&& client.silent && client.cfg.session_token is None ==> step == BearerStep::Fail(
                Failure::NoSessionToken,
            )
            &&& lacking ==> {
                &&& client.cfg.pending_session_request matches Some(pending) ==> step
                    == BearerStep::Claim(SessionReason::NoSession, pending)
                &&& client.cfg.pending_session_request is None && client.cfg.device_id is None
                    ==> step == BearerStep::Fail(Failure::NoDevice)
                &&& client.cfg.pending_session_request is None && client.cfg.device_id is Some
                    ==> (step matches BearerStep::Create(reason, body) && reason
                    == SessionReason::NoSession && body.label is None
                    && body.requested_duration_hours is None && Some(body.device_id)
                    == client.cfg.device_id)
            }
        }),
{
}

/// A reply ends the request unless its status is 401. A silent client then fails and keeps its
/// token; at the first attempt the token is dropped and another is sought, for the reason that
/// the session timed out; and at the second attempt the request fails.
pub proof fn law_reply_is_taken(client: Client, stage: SendStage, status: u16)
    ensures
        ({
            let (after, turn) = client.after_reply(stage, status);
            &&& turn.step is Finish <==> status != 401
            &&& status != 401 || stage != SendStage::First ==> after == client && turn.save
                == Save::Keep
            &&& status == 401 && stage == SendStage::Silent ==> turn.step == BearerStep::Fail(
                Failure::SessionTimedOut,
            )
            &&& status == 401 && stage == SendStage::Second ==> turn.step == BearerStep::Fail(
                Failure::AuthenticationFailed,
            )
            &&& status == 401 && stage == SendStage::First ==> {
                &&& after.cfg.session_token is None
                &&& after.cfg.pending_session_request == client.cfg.pending_session_request
                &&& turn.save == Save::BestEffort
                &&& client.cfg.pending_session_request matches Some(pending) ==> turn.step
                    == BearerStep::Claim(SessionReason::TimedOut, pending)
                &&& client.cfg.pending_session_request is None && client.cfg.device_id is None
                    ==> turn.step == BearerStep::Fail(Failure::NoDevice)
                &&& client.cfg.pending_session_request is None && client.cfg.device_id is Some
                    ==> (turn.step matches BearerStep::Create(reason, body) && reason
                    == SessionReason::TimedOut && body.label is None
                    && body.requested_duration_hours is None && Some(body.device_id)
                    == client.cfg.device_id)
            }
        }),
{
}

/// A token that was claimed is the session token from then on, the pending request is gone, and
/// the request is sent with it: for the second time if the first was refused. A request that is
/// pending still stops the command, with its own link, and nothing changes. One that is dead is
/// forgotten, and a session is asked for, for the same reason.
pub proof fn law_claim_is_taken(
    client: Client,
    reason: SessionReason,
    pending: PendingSessionRequest,
    outcome: ClaimOutcome,
)
    ensures
        ({
            let (after, turn) = client.after_claim(reason, pending, outcome);
            match outcome {
                ClaimOutcome::Claimed(token) => {
                    &&& after.cfg.session_token == Some(token)
                    &&& after.cfg.pending_session_request is None
                    &&& turn.save == Save::Required
                    &&& turn.step == BearerStep::Send(
                        if reason == SessionReason::TimedOut {
                            SendStage::Second
                        } else {
                            SendStage::First
                        },
                    )
                },
                ClaimOutcome::StillPending => {
                    &&& after == client
                    &&& turn.save == Save::Keep
                    &&& turn.step == BearerStep::Await(Notice::StillPending { url: pending.url })
                },
                ClaimOutcome::Dead => {
                    &&& after.cfg.pending_session_request is None
                    &&& after.cfg.session_token == client.cfg.session_token
                    &&& turn.save == Save::Required
                    &&& client.cfg.device_id is None ==> turn.step == BearerStep::Fail(
                        Failure::NoDevice,
                    )
                    &&& client.cfg.device_id is Some ==> (turn.step matches BearerStep::Create(
                        why,
                        body,
                    ) && why == reason && body.label is None && body.requested_duration_hours
                        is None && Some(body.device_id) == client.cfg.device_id)
                },
            }
        }),
{
}

/// A session request that the server made is kept, whole, before the command stops and shows
/// its link and when it ends.
pub proof fn law_created_request_is_kept(
    client: Client,
    reason: SessionReason,
    created: PendingSessionRequest,
)
    ensures
        ({
            let (after, turn) = client.after_created(reason, created);
            &&& after.cfg.pending_session_request == Some(created)
            &&& after.cfg.session_token == client.cfg.session_token
            &&& after.cfg.api_key == client.cfg.api_key
            &&& after.cfg.device_id == client.cfg.device_id
            &&& turn.save == Save::Required
            &&& turn.step == BearerStep::Await(
                Notice::Requested { reason, url: created.url, expires_at: created.expires_at },
            )
        }),
{
}

} // verus!
