//! Registration with the hub: a connection state machine that retries with
//! exponential backoff.
//!
//! The machine decides; its driver performs. The driver hands in what
//! happened as a [`HubEvent`] and carries out the [`HubAction`] it gets back:
//! it makes the registration call, sleeps, or reports that the hub cannot be
//! reached.

use vstd::arithmetic::power2::{lemma_pow2_unfold, pow2};
use vstd::prelude::*;

verus! {

/// The hub client's view of its registration.
#[derive(Clone, Debug, PartialEq, Eq)]
pub enum AgentConnectionState {
    Disconnected,
    /// A registration is under way; the number counts the attempts made so far.
    Connecting(u32),
    /// Registered under the agent identifier that the hub returned.
    Connected(String),
}

/// Mathematical value of an [`AgentConnectionState`].
pub enum ConnectionStateView {
    Disconnected,
    Connecting(u32),
    Connected(Seq<char>),
}

impl View for AgentConnectionState {
    type V = ConnectionStateView;

    open spec fn view(&self) -> ConnectionStateView {
        match self {
            AgentConnectionState::Disconnected => ConnectionStateView::Disconnected,
            AgentConnectionState::Connecting(attempts) => ConnectionStateView::Connecting(
                *attempts,
            ),
            AgentConnectionState::Connected(agent_id) => ConnectionStateView::Connected(agent_id@),
        }
    }
}

/// What the driver reports to the machine.
#[derive(Clone, Debug, PartialEq, Eq)]
pub enum HubEvent {
    /// The agent starts up.
    Start,
    /// The hub accepted the registration and returned this agent identifier.
    Registered(String),
    /// The registration call failed: no answer, or an answer that is no success.
    Failed,
    /// The wait that the machine asked for is over.
    WaitElapsed,
}

/// Mathematical value of a [`HubEvent`].
pub enum HubEventView {
    Start,
    Registered(Seq<char>),
    Failed,
    WaitElapsed,
}

impl View for HubEvent {
    type V = HubEventView;

    open spec fn view(&self) -> HubEventView {
        match self {
            HubEvent::Start => HubEventView::Start,
            HubEvent::Registered(agent_id) => HubEventView::Registered(agent_id@),
            HubEvent::Failed => HubEventView::Failed,
            HubEvent::WaitElapsed => HubEventView::WaitElapsed,
        }
    }
}

/// How a registration call ended.
#[derive(Clone, Debug, PartialEq, Eq)]
pub enum HubReply {
    /// The call did not get through: the hub could not be reached, or the
    /// exchange broke off.
    NoAnswer,
    /// The hub answered with this status code and this body.
    Answer { status: u16, body: String },
}

/// Mathematical value of a [`HubReply`].
pub enum HubReplyView {
    NoAnswer,
    Answer { status: u16, body: Seq<char> },
}

impl View for HubReply {
    type V = HubReplyView;

    open spec fn view(&self) -> HubReplyView {
        match self {
            HubReply::NoAnswer => HubReplyView::NoAnswer,
            HubReply::Answer { status, body } => HubReplyView::Answer {
                status: *status,
                body: body@,
            },
        }
    }
}

/// What a registration call that ended with `reply` means to the machine:
/// an answer with a status code from 200 to 299 is a registration, and its
/// body is the agent identifier; everything else is a failure.
pub open spec fn spec_event_of_reply(reply: HubReplyView) -> HubEventView {
    match reply {
        HubReplyView::Answer { status, body } => if 200 <= status <= 299 {
            HubEventView::Registered(body)
        } else {
            HubEventView::Failed
        },
        HubReplyView::NoAnswer => HubEventView::Failed,
    }
}

/// Reads the outcome of a registration call as an event for the machine.
pub fn event_of_reply(reply: HubReply) -> (event: HubEvent)
    ensures
        event@ == spec_event_of_reply(reply@),
{
    match reply {
        HubReply::Answer { status, body } => {
            if 200 <= status && status <= 299 {
                HubEvent::Registered(body)
            } else {
                HubEvent::Failed
            }
        },
        HubReply::NoAnswer => HubEvent::Failed,
    }
}

/// What the machine asks of its driver.
#[derive(Clone, Copy, Debug, PartialEq, Eq, Structural)]
pub enum HubAction {
    /// Make the registration call and report `Registered` or `Failed`.
    Register,
    /// Sleep for this many seconds and report `WaitElapsed`.
    Wait(u64),
    /// The attempt limit is reached: report that the hub cannot be reached.
    GiveUp,
    /// Nothing to do.
    Idle,
}

/// The retrying hub client.
#[derive(Clone, Debug)]
pub struct HubClient {
    state: AgentConnectionState,
    initial_timeout: u64,
    timeout: u64,
    attempt_limit: Option<u32>,
    waiting: bool,
}

/// Mathematical value of a [`HubClient`].
pub struct HubClientView {
    pub state: ConnectionStateView,
    /// Seconds to wait after the first failed attempt.
    pub initial_timeout: u64,
    /// Seconds to wait after the next failed attempt.
    pub timeout: u64,
    /// The most attempts to make, if there is a limit.
    pub attempt_limit: Option<u32>,
    /// Whether the machine has asked for a wait that is not over yet.
    pub waiting: bool,
}

impl View for HubClient {
    type V = HubClientView;

    closed spec fn view(&self) -> HubClientView {
        HubClientView {
            state: self.state@,
            initial_timeout: self.initial_timeout,
            timeout: self.timeout,
            attempt_limit: self.attempt_limit,
            waiting: self.waiting,
        }
    }
}

/// Twice `seconds`, or the largest delay if that does not fit.
pub open spec fn saturating_double(seconds: u64) -> u64 {
    if seconds > u64::MAX / 2 {
        u64::MAX
    } else {
        (2 * seconds) as u64
    }
}

/// The delay after `doublings` doublings of `initial`.
pub open spec fn backoff_delay(initial: u64, doublings: nat) -> u64
    decreases doublings,
{
    if doublings == 0 {
        initial
    } else {
        saturating_double(backoff_delay(initial, (doublings - 1) as nat))
    }
}

/// One more attempt, counted no further than the counter reaches.
pub open spec fn next_attempt(attempts: u32) -> u32 {
    if attempts < u32::MAX {
        (attempts + 1) as u32
    } else {
        attempts
    }
}

/// A client that has not started yet.
pub open spec fn fresh(initial_timeout: u64, attempt_limit: Option<u32>) -> HubClientView {
    HubClientView {
        state: ConnectionStateView::Disconnected,
        initial_timeout,
        timeout: initial_timeout,
        attempt_limit,
        waiting: false,
    }
}

/// The transition function: the client after `event`, and what the driver is to do.
///
/// An event that does not fit the state changes nothing and asks for nothing.
pub open spec fn spec_step(client: HubClientView, event: HubEventView) -> (
    HubClientView,
    HubAction,
) {
    match (client.state, event) {
        (ConnectionStateView::Disconnected, HubEventView::Start) => {
            if client.attempt_limit == Some(0u32) {
                (client, HubAction::GiveUp)
            } else {
                (
                    HubClientView {
                        state: ConnectionStateView::Connecting(1),
                        timeout: client.initial_timeout,
                        waiting: false,
                        ..client
                    },
                    HubAction::Register,
                )
            }
        },
        (ConnectionStateView::Connecting(attempts), HubEventView::Registered(agent_id)) => {
            if client.waiting {
                (client, HubAction::Idle)
            } else {
                (
                    HubClientView { state: ConnectionStateView::Connected(agent_id), ..client },
                    HubAction::Idle,
                )
            }
        },
        (ConnectionStateView::Connecting(attempts), HubEventView::Failed) => {
            if client.waiting {
                (client, HubAction::Idle)
            } else if client.attempt_limit is Some && attempts >= client.attempt_limit->0 {
                (
                    HubClientView { state: ConnectionStateView::Disconnected, ..client },
                    HubAction::GiveUp,
                )
            } else {
                (
                    HubClientView {
                        timeout: saturating_double(client.timeout),
                        waiting: true,
                        ..client
                    },
                    HubAction::Wait(client.timeout),
                )
            }
        },
        (ConnectionStateView::Connecting(attempts), HubEventView::WaitElapsed) => {
            if client.waiting {
                (
                    HubClientView {
                        state: ConnectionStateView::Connecting(next_attempt(attempts)),
                        waiting: false,
                        ..client
                    },
                    HubAction::Register,
                )
            } else {
                (client, HubAction::Idle)
            }
        },
        _ => (client, HubAction::Idle),
    }
}

/// The client after `rounds` rounds, each a failed attempt followed by its wait.
pub open spec fn after_failed_rounds(client: HubClientView, rounds: nat) -> HubClientView
    decreases rounds,
{
    if rounds == 0 {
        client
    } else {
        let before = after_failed_rounds(client, (rounds - 1) as nat);
        spec_step(spec_step(before, HubEventView::Failed).0, HubEventView::WaitElapsed).0
    }
}

impl HubClient {
    /// A client that has not started yet. `initial_timeout` is the wait in
    /// seconds after the first failed attempt; `attempt_limit` is the most
    /// attempts to make, `None` for no limit.
    pub fn new(initial_timeout: u64, attempt_limit: Option<u32>) -> (client: HubClient)
        ensures
            client@ == fresh(initial_timeout, attempt_limit),
    {
        HubClient {
            state: AgentConnectionState::Disconnected,
            initial_timeout,
            timeout: initial_timeout,
            attempt_limit,
            waiting: false,
        }
    }

    /// The registration state.
    pub fn state(&self) -> (state: &AgentConnectionState)
        ensures
            state@ == self@.state,
    {
        &self.state
    }

    /// Whether the client is registered with the hub.
    pub fn is_connected(&self) -> (connected: bool)
        ensures
            connected == (self@.state is Connected),
    {
        match &self.state {
            AgentConnectionState::Connected(_) => true,
            _ => false,
        }
    }

    /// Takes note of `event` and says what the driver is to do next.
    pub fn step(&mut self, event: HubEvent) -> (action: HubAction)
        ensures
            (final(self)@, action) == spec_step(old(self)@, event@),
    {
        match event {
            HubEvent::Start => {
                match &self.state {
                    AgentConnectionState::Disconnected => {
                        let exhausted = match self.attempt_limit {
                            Some(limit) => limit == 0,
                            None => false,
                        };
                        if exhausted {
                            HubAction::GiveUp
                        } else {
                            self.state = AgentConnectionState::Connecting(1);
                            self.timeout = self.initial_timeout;
                            self.waiting = false;
                            HubAction::Register
                        }
                    },
                    _ => HubAction::Idle,
                }
            },
            HubEvent::Registered(agent_id) => {
                let accepts = match &self.state {
                    AgentConnectionState::Connecting(_) => !self.waiting,
                    _ => false,
                };
                if accepts {
                    self.state = AgentConnectionState::Connected(agent_id);
                }
                HubAction::Idle
            },
            HubEvent::Failed => {
                let attempts: Option<u32> = match &self.state {
                    AgentConnectionState::Connecting(attempts) => Some(*attempts),
                    _ => None,
                };
                match attempts {
                    Some(attempts) => {
                        if self.waiting {
                            HubAction::Idle
                        } else {
                            let exhausted = match self.attempt_limit {
                                Some(limit) => attempts >= limit,
                                None => false,
                            };
                            if exhausted {
                                self.state = AgentConnectionState::Disconnected;
                                HubAction::GiveUp
                            } else {
                                let delay: u64 = self.timeout;
                                self.timeout = if delay > u64::MAX / 2 {
                                    u64::MAX
                                } else {
                                    2 * delay
                                };
                                self.waiting = true;
                                HubAction::Wait(delay)
                            }
                        }
                    },
                    None => HubAction::Idle,
                }
            },
            HubEvent::WaitElapsed => {
                let attempts: Option<u32> = match &self.state {
                    AgentConnectionState::Connecting(attempts) => Some(*attempts),
                    _ => None,
                };
                match attempts {
                    Some(attempts) => {
                        if self.waiting {
                            let next: u32 = if attempts < u32::MAX {
                                attempts + 1
                            } else {
                                attempts
                            };
                            self.state = AgentConnectionState::Connecting(next);
                            self.waiting = false;
                            HubAction::Register
                        } else {
                            HubAction::Idle
                        }
                    },
                    None => HubAction::Idle,
                }
            },
        }
    }
}

/// The delay after `doublings` doublings is `initial` times two to the power
/// of `doublings`, capped at the largest delay.
pub proof fn lemma_backoff_delay_is_capped_power(initial: u64, doublings: nat)
    ensures
        backoff_delay(initial, doublings) == if initial * pow2(doublings) <= u64::MAX {
            initial * pow2(doublings)
        } else {
            u64::MAX as int
        },
    decreases doublings,
{
    if doublings == 0 {
        assert(pow2(0) == 1) by {
            vstd::arithmetic::power2::lemma2_to64();
        }
    } else {
        let fewer = (doublings - 1) as nat;
        lemma_backoff_delay_is_capped_power(initial, fewer);
        lemma_pow2_unfold(doublings);
        assert(initial * pow2(doublings) == 2 * (initial * pow2(fewer))) by (nonlinear_arith)
            requires
                pow2(doublings) == 2 * pow2(fewer),
        ;
    }
}

/// While attempts remain, a started client that has failed `rounds` times has
/// made `rounds + 1` attempts, and its next failure is answered by a wait of
/// the initial delay doubled `rounds` times.
pub proof fn lemma_failures_double_the_wait(
    initial_timeout: u64,
    attempt_limit: Option<u32>,
    rounds: nat,
)
    requires
        rounds + 1 < u32::MAX,
        attempt_limit matches Some(limit) ==> rounds + 1 < limit,
    ensures
        ({
            let started = spec_step(fresh(initial_timeout, attempt_limit), HubEventView::Start).0;
            let client = after_failed_rounds(started, rounds);
            &&& client.state == ConnectionStateView::Connecting((rounds + 1) as u32)
            &&& !client.waiting
            &&& client.timeout == backoff_delay(initial_timeout, rounds)
            &&& client.attempt_limit == attempt_limit
            &&& client.initial_timeout == initial_timeout
            &&& spec_step(client, HubEventView::Failed).1 == HubAction::Wait(
                backoff_delay(initial_timeout, rounds),
            )
        }),
    decreases rounds,
{
    if rounds > 0 {
        lemma_failures_double_the_wait(initial_timeout, attempt_limit, (rounds - 1) as nat);
    }
}

/// With a limit of `limit` attempts and a hub that never accepts, the client
/// gives up at the failure of attempt number `limit`, not before and not
/// after, and is then disconnected.
pub proof fn lemma_gives_up_at_the_limit(initial_timeout: u64, limit: u32, rounds: nat)
    requires
        1 <= limit,
        rounds < limit,
    ensures
        ({
            let started = spec_step(
                fresh(initial_timeout, Some(limit)),
                HubEventView::Start,
            ).0;
            let client = after_failed_rounds(started, rounds);
            let (next, action) = spec_step(client, HubEventView::Failed);
            &&& client.state == ConnectionStateView::Connecting((rounds + 1) as u32)
            &&& !client.waiting
            &&& client.attempt_limit == Some(limit)
            &&& rounds + 1 < limit ==> action is Wait
            &&& rounds + 1 == limit ==> action == HubAction::GiveUp && next.state
                == ConnectionStateView::Disconnected
        }),
    decreases rounds,
{
    if rounds > 0 {
        lemma_gives_up_at_the_limit(initial_timeout, limit, (rounds - 1) as nat);
    }
}

/// A hub that accepts after `rounds` failed attempts leaves the client
/// connected under the agent identifier that it returned, provided the
/// attempts were not used up before.
pub proof fn lemma_success_after_failures_connects(
    initial_timeout: u64,
    attempt_limit: Option<u32>,
    rounds: nat,
    agent_id: Seq<char>,
)
    requires
        rounds + 1 < u32::MAX,
        attempt_limit matches Some(limit) ==> rounds < limit,
    ensures
        ({
            let started = spec_step(fresh(initial_timeout, attempt_limit), HubEventView::Start).0;
            let client = after_failed_rounds(started, rounds);
            let (connected, action) = spec_step(client, HubEventView::Registered(agent_id));
            &&& client.state == ConnectionStateView::Connecting((rounds + 1) as u32)
            &&& connected.state == ConnectionStateView::Connected(agent_id)
            &&& action == HubAction::Idle
        }),
{
    if rounds > 0 {
        lemma_failures_double_the_wait(initial_timeout, attempt_limit, (rounds - 1) as nat);
    }
}

/// Once connected the client stays connected: every event leaves it as it is
/// and asks for nothing.
pub proof fn lemma_connected_is_final(client: HubClientView, event: HubEventView)
    requires
        client.state is Connected,
    ensures
        spec_step(client, event) == (client, HubAction::Idle),
{
}

} // verus!
