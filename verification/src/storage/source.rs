//! Where blocks come from: requests to a node, and a stream that is connected
//! again whenever it breaks off.

use vstd::prelude::*;

verus! {

// ------------------------------------------------------- requests to the node

/// What is asked of the node.
#[derive(Debug, Clone, Copy, PartialEq, Eq, Structural)]
pub enum HttpRequest {
    /// The finalized and the confirmed slot.
    Slots,
    FirstAvailableBlock,
    Block { slot: u64, httpget: bool },
}

/// Why a request to the node has no result.
#[derive(Debug)]
pub enum HttpSourceConnectedError<E> {
    /// The request could not be sent.
    SendError,
    /// The answer was lost.
    RecvError,
    /// The node answered with an error.
    Error(E),
}

/// What comes of a request to the node.
pub type HttpSourceConnectedResult<T, E> = Result<T, HttpSourceConnectedError<E>>;

impl<E> HttpSourceConnectedError<E> {
    /// The message of an error of the channels. An error of the node has its
    /// own message.
    pub open spec fn text(self) -> Option<Seq<char>> {
        match self {
            HttpSourceConnectedError::SendError => Some("send channel is closed"@),
            HttpSourceConnectedError::RecvError => Some("recv channel is closed"@),
            HttpSourceConnectedError::Error(_) => None,
        }
    }

    /// The message of an error of the channels. An error of the node has its
    /// own message.
    pub fn message(&self) -> (r: Option<&'static str>)
        ensures
            r is Some <==> self.text() is Some,
            r matches Some(message) ==> self.text() == Some(message@),
    {
        match self {
            HttpSourceConnectedError::SendError => Some("send channel is closed"),
            HttpSourceConnectedError::RecvError => Some("recv channel is closed"),
            HttpSourceConnectedError::Error(_) => None,
        }
    }
}

/// What can be asked of the node.
#[derive(Debug, Clone, Copy, PartialEq, Eq, Structural)]
pub struct HttpSourceConnected;

impl HttpSourceConnected {
    /// What is asked for the finalized and the confirmed slot.
    pub fn get_slots(&self) -> (r: HttpRequest)
        ensures
            r == HttpRequest::Slots,
    {
        HttpRequest::Slots
    }

    /// What is asked for a block.
    pub fn get_block(&self, slot: u64, httpget: bool) -> (r: HttpRequest)
        ensures
            r == (HttpRequest::Block { slot, httpget }),
    {
        HttpRequest::Block { slot, httpget }
    }

    /// What is asked for the first available block.
    pub fn get_first_available_block(&self) -> (r: HttpRequest)
        ensures
            r == HttpRequest::FirstAvailableBlock,
    {
        HttpRequest::FirstAvailableBlock
    }
}

/// What happens to a request to the node.
#[derive(Debug)]
pub enum Delivery<T, E> {
    /// The request could not be sent.
    NotSent,
    /// The answer was lost.
    Lost,
    /// The node answered.
    Answered(Result<T, E>),
}

/// What comes of a request to the node.
pub fn resolve<T, E>(delivery: Delivery<T, E>) -> (r: HttpSourceConnectedResult<T, E>)
    ensures
        r == (match delivery {
            Delivery::NotSent => Err(HttpSourceConnectedError::SendError),
            Delivery::Lost => Err(HttpSourceConnectedError::RecvError),
            Delivery::Answered(Ok(result)) => Ok(result),
            Delivery::Answered(Err(error)) => Err(HttpSourceConnectedError::Error(error)),
        }),
{
    match delivery {
        Delivery::NotSent => Err(HttpSourceConnectedError::SendError),
        Delivery::Lost => Err(HttpSourceConnectedError::RecvError),
        Delivery::Answered(Ok(result)) => Ok(result),
        Delivery::Answered(Err(error)) => Err(HttpSourceConnectedError::Error(error)),
    }
}

// ------------------------------------------------------- the loop of the source

/// What happens to the source while it runs.
#[derive(Debug)]
pub enum SourceEvent<R> {
    /// The process shuts down.
    Shutdown,
    /// A request came in, or no more will.
    Http(Option<HttpRequest>),
    /// The stream is over, with a result.
    StreamEnded(R),
}

/// What the source does about it.
#[derive(Debug)]
pub enum SourceAction<R> {
    /// Serves a request in the background, and goes on.
    Serve(HttpRequest),
    /// Shuts the process down, and is done.
    Stop,
    /// Is done, with the result of the stream.
    Return(R),
}

/// What the source does about an event.
pub fn handle_event<R>(event: SourceEvent<R>) -> (r: SourceAction<R>)
    ensures
        r == (match event {
            SourceEvent::Shutdown => SourceAction::Stop,
            SourceEvent::Http(Some(request)) => SourceAction::Serve(request),
            SourceEvent::Http(None) => SourceAction::Stop,
            SourceEvent::StreamEnded(result) => SourceAction::Return(result),
        }),
{
    match event {
        SourceEvent::Shutdown => SourceAction::Stop,
        SourceEvent::Http(Some(request)) => SourceAction::Serve(request),
        SourceEvent::Http(None) => SourceAction::Stop,
        SourceEvent::StreamEnded(result) => SourceAction::Return(result),
    }
}

// ------------------------------------------------------- the stream

/// The longest duration, in nanoseconds.
pub const MAX_NANOS: u128 = 18_446_744_073_709_551_615_999_999_999;

/// How often a slot is tried to resume from, where nothing is configured.
pub const DEFAULT_FROM_SLOT_MAX_ATTEMPTS: u8 = 2;

/// How the stream is connected again. Durations are in nanoseconds.
#[derive(Debug, Clone, Copy, PartialEq, Eq, Structural)]
pub struct ConfigReconnect {
    /// How long to wait after a stream broke off.
    pub backoff_init: u128,
    /// How long to wait at most after a connection failed.
    pub backoff_max: u128,
    /// How often a slot is tried to resume from.
    pub from_slot_max_attempts: u8,
}

/// How far the stream is.
#[derive(Debug, Clone, Copy, PartialEq, Eq, Structural)]
pub enum StreamPhase {
    /// Not connected, and about to look at the stored slots.
    Idle,
    /// Waiting until blocks that the stream missed are fetched otherwise.
    CatchingUp,
    /// Connecting, to resume from a slot or to go on live.
    Connecting { from_slot: Option<u64> },
    /// Connected. Whether it resumed from a slot, and brought a message.
    Streaming { resumed: bool, received: bool },
    /// Over.
    Closed,
}

/// The state of the stream.
#[derive(Debug, Clone, Copy, PartialEq, Eq, Structural)]
pub struct StreamState {
    pub reconnect: Option<ConfigReconnect>,
    /// How long to wait after the next connection that fails.
    pub backoff: Option<u128>,
    /// How often in a row resuming from a slot brought nothing.
    pub from_slot_attempts: u8,
    pub phase: StreamPhase,
}

/// What is done for the stream next.
#[derive(Debug, Clone, Copy, PartialEq, Eq, Structural)]
pub enum StreamAction {
    /// Asks for the missed blocks to be fetched otherwise, and waits until
    /// they are.
    CatchUp,
    /// Connects, to resume from a slot or to go on live.
    Connect { from_slot: Option<u64> },
    /// Waits, and then connects again in the same way.
    WaitAndConnect { nanos: u128, from_slot: Option<u64> },
    /// Waits, and then looks at the stored slots again.
    WaitAndRestart { nanos: u128 },
    /// Gives up, with the error of the connection.
    Fail,
    /// Ends.
    Finish,
}

/// The smaller of two durations.
pub open spec fn shorter(a: u128, b: int) -> u128 {
    if b < a {
        b as u128
    } else {
        a
    }
}

impl ConfigReconnect {
    /// How long any wait is at most.
    pub open spec fn longest_wait(self) -> u128 {
        if self.backoff_init < self.backoff_max {
            self.backoff_max
        } else {
            self.backoff_init
        }
    }
}

impl StreamState {
    /// How often a slot is tried to resume from.
    pub open spec fn max_attempts(self) -> u8 {
        match self.reconnect {
            Some(config) => config.from_slot_max_attempts,
            None => DEFAULT_FROM_SLOT_MAX_ATTEMPTS,
        }
    }

    /// What holds of every state: there is something to wait for exactly where
    /// the stream is connected again, no wait is longer than configured, and no
    /// slot is tried more often than allowed.
    pub open spec fn wf(self) -> bool {
        &&& self.backoff is Some <==> self.reconnect is Some
        &&& self.reconnect matches Some(config) ==> self.backoff->0 <= config.longest_wait()
        &&& self.from_slot_attempts <= self.max_attempts()
        &&& self.phase matches StreamPhase::Connecting { from_slot: Some(_) }
            ==> self.from_slot_attempts < self.max_attempts()
        &&& self.phase matches StreamPhase::Streaming { resumed: true, received: false }
            ==> self.from_slot_attempts < self.max_attempts()
    }

    /// Whether resuming from the slot behind `confirmed` is given up. Slot
    /// zero stands for nothing stored, and nothing to resume from.
    pub open spec fn exhausted(self, confirmed: u64) -> bool {
        confirmed != 0 && self.from_slot_attempts >= self.max_attempts()
    }

    /// The state before the first connection.
    pub open spec fn initial(reconnect: Option<ConfigReconnect>) -> StreamState {
        StreamState {
            reconnect,
            backoff: match reconnect {
                Some(config) => Some(config.backoff_max),
                None => None,
            },
            from_slot_attempts: 0,
            phase: StreamPhase::Idle,
        }
    }

    /// The slot to resume from where `confirmed` is the newest stored one.
    pub open spec fn resume_slot(self, confirmed: u64) -> Option<u64> {
        if confirmed == 0 || self.exhausted(confirmed) {
            None
        } else {
            Some((confirmed + 1) as u64)
        }
    }

    /// The state after a look at the stored slots.
    pub open spec fn begun(self, confirmed: u64) -> StreamState {
        StreamState {
            phase: if self.exhausted(confirmed) {
                StreamPhase::CatchingUp
            } else {
                StreamPhase::Connecting { from_slot: self.resume_slot(confirmed) }
            },
            ..self
        }
    }

    /// The state after the missed blocks were fetched.
    pub open spec fn after_catch_up(self) -> StreamState {
        StreamState {
            from_slot_attempts: 0,
            phase: StreamPhase::Connecting { from_slot: None },
            ..self
        }
    }

    /// The number of attempts after a connection failed.
    pub open spec fn failed_attempts(self) -> int {
        if self.phase matches StreamPhase::Connecting { from_slot: Some(_) } {
            self.from_slot_attempts + 1
        } else {
            self.from_slot_attempts as int
        }
    }

    /// Whether the connection that failed was the last one to resume from the
    /// slot.
    pub open spec fn gives_up_slot(self) -> bool {
        self.phase matches StreamPhase::Connecting { from_slot: Some(_) } && self.failed_attempts()
            >= self.max_attempts()
    }

    /// The state after a connection failed.
    pub open spec fn after_connect_failure(self) -> StreamState {
        StreamState {
            reconnect: self.reconnect,
            backoff: match (self.reconnect, self.backoff) {
                (Some(config), Some(nanos)) => Some(shorter(config.backoff_max, 2 * nanos)),
                (_, backoff) => backoff,
            },
            from_slot_attempts: self.failed_attempts() as u8,
            phase: if self.backoff is None {
                StreamPhase::Closed
            } else if self.gives_up_slot() {
                StreamPhase::Idle
            } else {
                self.phase
            },
        }
    }

    /// The state after a connection succeeded.
    pub open spec fn after_connect(self) -> StreamState {
        StreamState {
            phase: StreamPhase::Streaming {
                resumed: self.phase matches StreamPhase::Connecting { from_slot: Some(_) },
                received: false,
            },
            ..self
        }
    }

    /// The state after a message came.
    pub open spec fn after_message(self) -> StreamState {
        StreamState {
            from_slot_attempts: 0,
            phase: match self.phase {
                StreamPhase::Streaming { resumed, received } => StreamPhase::Streaming {
                    resumed,
                    received: true,
                },
                phase => phase,
            },
            ..self
        }
    }

    /// The state after the stream broke off, with an error or without.
    pub open spec fn after_break(self, error: bool) -> StreamState {
        let attempts = if error && self.phase == (StreamPhase::Streaming {
            resumed: true,
            received: false,
        }) {
            self.from_slot_attempts + 1
        } else {
            self.from_slot_attempts as int
        };
        StreamState {
            reconnect: self.reconnect,
            backoff: match self.reconnect {
                Some(config) => Some(config.backoff_init),
                None => None,
            },
            from_slot_attempts: attempts as u8,
            phase: if self.reconnect is Some {
                StreamPhase::Idle
            } else {
                StreamPhase::Closed
            },
        }
    }

    /// The state before the first connection.
    pub fn new(reconnect: Option<ConfigReconnect>) -> (r: StreamState)
        ensures
            r == StreamState::initial(reconnect),
            r.wf(),
    {
        StreamState {
            reconnect,
            backoff: match reconnect {
                Some(config) => Some(config.backoff_max),
                None => None,
            },
            from_slot_attempts: 0,
            phase: StreamPhase::Idle,
        }
    }

    /// How often a slot is tried to resume from.
    fn from_slot_max_attempts(&self) -> (r: u8)
        ensures
            r == self.max_attempts(),
    {
        match self.reconnect {
            Some(config) => config.from_slot_max_attempts,
            None => DEFAULT_FROM_SLOT_MAX_ATTEMPTS,
        }
    }

    /// Looks at the newest stored slot: resumes behind it, or goes on live
    /// where there is none. Where resuming was tried too often, the missed
    /// blocks are to be fetched otherwise first.
    pub fn begin(&mut self, confirmed: u64) -> (r: StreamAction)
        requires
            old(self).wf(),
            old(self).phase == StreamPhase::Idle,
            confirmed < u64::MAX,
        ensures
            final(self).wf(),
            *final(self) == old(self).begun(confirmed),
            r == (if old(self).exhausted(confirmed) {
                StreamAction::CatchUp
            } else {
                StreamAction::Connect { from_slot: old(self).resume_slot(confirmed) }
            }),
    {
        let exhausted: bool = confirmed != 0 && self.from_slot_attempts
            >= self.from_slot_max_attempts();
        if exhausted {
            self.phase = StreamPhase::CatchingUp;
            return StreamAction::CatchUp;
        }
        let from_slot: Option<u64> = if confirmed != 0 {
            Some(confirmed + 1)
        } else {
            None
        };
        self.phase = StreamPhase::Connecting { from_slot };
        StreamAction::Connect { from_slot }
    }

    /// Goes on after the missed blocks were fetched: connects live.
    pub fn caught_up(&mut self) -> (r: StreamAction)
        requires
            old(self).wf(),
            old(self).phase == StreamPhase::CatchingUp,
        ensures
            final(self).wf(),
            *final(self) == old(self).after_catch_up(),
            r == (StreamAction::Connect { from_slot: None }),
    {
        self.from_slot_attempts = 0;
        self.phase = StreamPhase::Connecting { from_slot: None };
        StreamAction::Connect { from_slot: None }
    }

    /// Goes on after a connection failed: waits and connects again, in the
    /// same way unless resuming from the slot is given up. Fails where the
    /// stream is not connected again.
    pub fn connect_failed(&mut self) -> (r: StreamAction)
        requires
            old(self).wf(),
            old(self).phase is Connecting,
            old(self).backoff matches Some(nanos) ==> 2 * nanos <= MAX_NANOS,
        ensures
            final(self).wf(),
            *final(self) == old(self).after_connect_failure(),
            r == (match old(self).backoff {
                None => StreamAction::Fail,
                Some(nanos) => if old(self).gives_up_slot() {
                    StreamAction::WaitAndRestart { nanos }
                } else {
                    StreamAction::WaitAndConnect {
                        nanos,
                        from_slot: old(self).phase->Connecting_from_slot,
                    }
                },
            }),
    {
        let from_slot: Option<u64> = match self.phase {
            StreamPhase::Connecting { from_slot } => from_slot,
            _ => None,
        };
        let mut just_exhausted: bool = false;
        if from_slot.is_some() {
            self.from_slot_attempts = self.from_slot_attempts + 1;
            just_exhausted = self.from_slot_attempts >= self.from_slot_max_attempts();
        }
        let nanos: u128 = match self.backoff {
            Some(nanos) => nanos,
            None => {
                self.phase = StreamPhase::Closed;
                return StreamAction::Fail;
            },
        };
        if let Some(config) = self.reconnect {
            self.backoff = Some(if 2 * nanos < config.backoff_max {
                2 * nanos
            } else {
                config.backoff_max
            });
        }
        if just_exhausted {
            self.phase = StreamPhase::Idle;
            StreamAction::WaitAndRestart { nanos }
        } else {
            StreamAction::WaitAndConnect { nanos, from_slot }
        }
    }

    /// Goes on after a connection succeeded.
    pub fn connected(&mut self)
        requires
            old(self).wf(),
            old(self).phase is Connecting,
        ensures
            final(self).wf(),
            *final(self) == old(self).after_connect(),
    {
        let resumed: bool = match self.phase {
            StreamPhase::Connecting { from_slot } => from_slot.is_some(),
            _ => false,
        };
        self.phase = StreamPhase::Streaming { resumed, received: false };
    }

    /// Goes on after a message came, which is forwarded.
    pub fn message_received(&mut self)
        requires
            old(self).wf(),
            old(self).phase is Streaming,
        ensures
            final(self).wf(),
            *final(self) == old(self).after_message(),
    {
        if let StreamPhase::Streaming { resumed, received } = self.phase {
            self.phase = StreamPhase::Streaming { resumed, received: true };
        }
        self.from_slot_attempts = 0;
    }

    /// Goes on after the stream broke off, with an error or without: waits
    /// and starts again. Ends where the stream is not connected again.
    pub fn broke_off(&mut self, error: bool) -> (r: StreamAction)
        requires
            old(self).wf(),
            old(self).phase is Streaming,
        ensures
            final(self).wf(),
            *final(self) == old(self).after_break(error),
            r == (match old(self).reconnect {
                Some(config) => StreamAction::WaitAndRestart { nanos: config.backoff_init },
                None => StreamAction::Finish,
            }),
    {
        if let StreamPhase::Streaming { resumed, received } = self.phase {
            if error && resumed && !received {
                self.from_slot_attempts = self.from_slot_attempts + 1;
            }
        }
        match self.reconnect {
            Some(config) => {
                self.backoff = Some(config.backoff_init);
                self.phase = StreamPhase::Idle;
                StreamAction::WaitAndRestart { nanos: config.backoff_init }
            },
            None => {
                self.backoff = None;
                self.phase = StreamPhase::Closed;
                StreamAction::Finish
            },
        }
    }
}

// ------------------------------------------------------- laws of the stream

/// How an attempt to resume from a slot brings nothing.
pub enum ResumeFailure {
    /// The connection fails.
    Connect,
    /// The stream breaks off with an error before a message came.
    Stream,
}

impl StreamState {
    /// The state in which the next attempt is made: after a look at the stored
    /// slots, unless the same connection is made again.
    pub open spec fn ready(self, confirmed: u64) -> StreamState {
        if self.phase == StreamPhase::Idle {
            self.begun(confirmed)
        } else {
            self
        }
    }

    /// The state after an attempt to resume behind the slot `confirmed`
    /// brought nothing.
    pub open spec fn after_attempt(self, confirmed: u64, failure: ResumeFailure) -> StreamState {
        match failure {
            ResumeFailure::Connect => self.ready(confirmed).after_connect_failure(),
            ResumeFailure::Stream => self.ready(confirmed).after_connect().after_break(true),
        }
    }

    /// The state after a number of attempts that brought nothing.
    pub open spec fn after_attempts(self, confirmed: u64, failures: Seq<ResumeFailure>) -> StreamState
        decreases failures.len(),
    {
        if failures.len() == 0 {
            self
        } else {
            self.after_attempts(confirmed, failures.drop_last()).after_attempt(
                confirmed,
                failures.last(),
            )
        }
    }
}

/// A slot is given up after as many attempts as allowed that brought nothing,
/// in whichever way each of them failed, and not before: then the missed
/// blocks are fetched otherwise. Until then every attempt resumes from it.
pub proof fn law_slot_is_given_up(
    state: StreamState,
    confirmed: u64,
    failures: Seq<ResumeFailure>,
)
    requires
        state.wf(),
        state.reconnect is Some,
        state.phase == StreamPhase::Idle,
        state.from_slot_attempts == 0,
        0 < confirmed < u64::MAX,
        failures.len() <= state.max_attempts(),
    ensures
        ({
            let after = state.after_attempts(confirmed, failures);
            &&& after.wf()
            &&& after.reconnect == state.reconnect
            &&& after.from_slot_attempts == failures.len()
            &&& after.ready(confirmed).phase == if failures.len() == state.max_attempts() {
                StreamPhase::CatchingUp
            } else {
                StreamPhase::Connecting { from_slot: Some((confirmed + 1) as u64) }
            }
        }),
    decreases failures.len(),
{
    if failures.len() > 0 {
        law_slot_is_given_up(state, confirmed, failures.drop_last());
    }
}

/// A message ends a row of attempts that brought nothing: the next time the
/// stream breaks off, resuming is tried as often as ever.
pub proof fn law_message_resets_attempts(state: StreamState, error: bool)
    requires
        state.wf(),
        state.phase is Streaming,
    ensures
        state.after_message().after_break(error).from_slot_attempts == 0,
{
}

impl StreamState {
    /// The state after connections in a row failed, one for each slot of
    /// `confirmed`: the newest stored one, as far as the stream looks at it.
    pub open spec fn after_connect_failures(self, confirmed: Seq<u64>) -> StreamState
        decreases confirmed.len(),
    {
        if confirmed.len() == 0 {
            self
        } else {
            let before = self.after_connect_failures(confirmed.drop_last()).ready(
                confirmed.last(),
            );
            if before.phase == StreamPhase::CatchingUp {
                before.after_catch_up().after_connect_failure()
            } else {
                before.after_connect_failure()
            }
        }
    }
}

/// However many connections in a row fail, no wait is longer than both of the
/// configured ones, and none but the first is longer than their maximum.
pub proof fn law_backoff_is_bounded(state: StreamState, confirmed: Seq<u64>)
    requires
        state.wf(),
        state.reconnect is Some,
        state.phase is Idle || state.phase is Connecting,
        forall|i: int| 0 <= i < confirmed.len() ==> confirmed[i] < u64::MAX,
    ensures
        ({
            let after = state.after_connect_failures(confirmed);
            let config = state.reconnect->0;
            &&& after.wf()
            &&& after.reconnect == state.reconnect
            &&& after.phase is Idle || after.phase is Connecting
            &&& after.backoff matches Some(nanos) && nanos <= config.longest_wait() && (
            confirmed.len() > 0 ==> nanos <= config.backoff_max)
        }),
    decreases confirmed.len(),
{
    if confirmed.len() > 0 {
        law_backoff_is_bounded(state, confirmed.drop_last());
    }
}

// ------------------------------------------------------- laws of the steps

/// How often a slot may be tried to resume from.
pub open spec fn tries(reconnect: Option<ConfigReconnect>) -> int {
    if reconnect is Some {
        reconnect->0.from_slot_max_attempts as int
    } else {
        2
    }
}

/// A stream begins with no failed attempt, and with the longest wait.
pub proof fn law_stream_begins_afresh(reconnect: Option<ConfigReconnect>, r: StreamState)
    requires
        call_ensures(StreamState::new, (reconnect,), r),
    ensures
        r.reconnect == reconnect,
        r.from_slot_attempts == 0,
        r.phase is Idle,
        reconnect is Some ==> r.backoff == Some(reconnect->0.backoff_max),
        reconnect is None ==> r.backoff is None,
{
}

/// A stream goes on live where nothing is stored, and resumes right behind the
/// newest stored slot otherwise. Where that was tried too often, the missed
/// blocks are fetched otherwise first.
pub proof fn law_stream_resumes_behind_the_stored(
    state: &mut StreamState,
    confirmed: u64,
    action: StreamAction,
)
    requires
        old(state).wf(),
        old(state).phase is Idle,
        confirmed < u64::MAX,
        call_ensures(StreamState::begin, (state, confirmed), action),
    ensures
        ({
            let exhausted = confirmed > 0 && old(state).from_slot_attempts >= tries(
                old(state).reconnect,
            );
            &&& confirmed == 0 ==> action == (StreamAction::Connect { from_slot: None })
            &&& exhausted ==> action is CatchUp && final(state).phase is CatchingUp
            &&& confirmed > 0 && !exhausted ==> (action matches StreamAction::Connect {
                from_slot: Some(slot),
            } && slot == confirmed + 1)
            &&& action matches StreamAction::Connect { from_slot } ==> final(state).phase == (
            StreamPhase::Connecting { from_slot })
            &&& final(state).reconnect == old(state).reconnect
            &&& final(state).backoff == old(state).backoff
            &&& final(state).from_slot_attempts == old(state).from_slot_attempts
        }),
{
}

/// Once the missed blocks were fetched, the stream goes on live, and resuming
/// may be tried as often as ever.
pub proof fn law_stream_goes_on_live(state: &mut StreamState, action: StreamAction)
    requires
        old(state).wf(),
        old(state).phase is CatchingUp,
        call_ensures(StreamState::caught_up, (state,), action),
    ensures
        action == (StreamAction::Connect { from_slot: None }),
        final(state).phase == (StreamPhase::Connecting { from_slot: None }),
        final(state).from_slot_attempts == 0,
        final(state).reconnect == old(state).reconnect,
        final(state).backoff == old(state).backoff,
{
}

/// A connection that fails is made again after the wait, which doubles up to
/// its maximum for the next time. Only one that resumes from a slot counts as
/// an attempt, and the last attempt gives the slot up. A stream that is not
/// connected again fails.
pub proof fn law_failed_connection_is_made_again(state: &mut StreamState, action: StreamAction)
    requires
        old(state).wf(),
        old(state).phase is Connecting,
        old(state).backoff is Some ==> 2 * old(state).backoff->0 <= MAX_NANOS,
        call_ensures(StreamState::connect_failed, (state,), action),
    ensures
        ({
            let from_slot = old(state).phase->Connecting_from_slot;
            let attempts = if from_slot is Some {
                old(state).from_slot_attempts + 1
            } else {
                old(state).from_slot_attempts as int
            };
            let given_up = from_slot is Some && attempts >= tries(old(state).reconnect);
            &&& final(state).reconnect == old(state).reconnect
            &&& old(state).reconnect is None ==> action is Fail && final(state).phase is Closed
            &&& old(state).reconnect is Some ==> {
                let wait = old(state).backoff->0;
                let max = old(state).reconnect->0.backoff_max;
                &&& final(state).from_slot_attempts == attempts
                &&& final(state).backoff is Some
                &&& final(state).backoff->0 <= max
                &&& final(state).backoff->0 <= 2 * wait
                &&& final(state).backoff->0 == max || final(state).backoff->0 == 2 * wait
                &&& given_up ==> action == (StreamAction::WaitAndRestart { nanos: wait })
                    && final(state).phase is Idle
                &&& !given_up ==> action == (StreamAction::WaitAndConnect { nanos: wait, from_slot })
                    && final(state).phase == old(state).phase
            }
        }),
{
}

/// A stream that is connected knows whether it resumed, and has brought
/// nothing yet. A message that comes is remembered, and ends the row of failed
/// attempts. Neither changes how long is waited.
pub proof fn law_messages_are_remembered(connecting: &mut StreamState, streaming: &mut StreamState)
    requires
        old(connecting).wf(),
        old(connecting).phase is Connecting,
        call_ensures(StreamState::connected, (connecting,), ()),
        old(streaming).wf(),
        old(streaming).phase is Streaming,
        call_ensures(StreamState::message_received, (streaming,), ()),
    ensures
        final(connecting).phase == (StreamPhase::Streaming {
            resumed: old(connecting).phase->Connecting_from_slot is Some,
            received: false,
        }),
        final(connecting).from_slot_attempts == old(connecting).from_slot_attempts,
        final(connecting).backoff == old(connecting).backoff,
        final(connecting).reconnect == old(connecting).reconnect,
        final(streaming).phase == (StreamPhase::Streaming {
            resumed: old(streaming).phase->Streaming_resumed,
            received: true,
        }),
        final(streaming).from_slot_attempts == 0,
        final(streaming).backoff == old(streaming).backoff,
        final(streaming).reconnect == old(streaming).reconnect,
{
}

/// A stream that broke off starts again after the first wait, which is also
/// how long is waited if the next connection fails. It counts as a failed
/// attempt exactly where it resumed, brought nothing, and ended with an error.
/// A stream that is not connected again ends.
pub proof fn law_broken_stream_starts_again(
    state: &mut StreamState,
    error: bool,
    action: StreamAction,
)
    requires
        old(state).wf(),
        old(state).phase is Streaming,
        call_ensures(StreamState::broke_off, (state, error), action),
    ensures
        ({
            let failed = error && old(state).phase->Streaming_resumed && !old(
                state,
            ).phase->Streaming_received;
            &&& final(state).from_slot_attempts == if failed {
                old(state).from_slot_attempts + 1
            } else {
                old(state).from_slot_attempts as int
            }
            &&& final(state).reconnect == old(state).reconnect
            &&& old(state).reconnect matches Some(config) ==> {
                &&& action == (StreamAction::WaitAndRestart { nanos: config.backoff_init })
                &&& final(state).backoff == Some(config.backoff_init)
                &&& final(state).phase is Idle
            }
            &&& old(state).reconnect is None ==> action is Finish && final(state).phase is Closed
        }),
{
}

/// What the node answers is the result of a request, and each way in which
/// there is no answer is an error of its own. A request asks for what it is
/// made for.
pub proof fn law_requests_to_the_node<T, E>(
    delivery: Delivery<T, E>,
    r: HttpSourceConnectedResult<T, E>,
    source: HttpSourceConnected,
    slot: u64,
    httpget: bool,
    slots: HttpRequest,
    block: HttpRequest,
    first: HttpRequest,
)
    requires
        call_ensures(resolve::<T, E>, (delivery,), r),
        call_ensures(HttpSourceConnected::get_slots, (&source,), slots),
        call_ensures(HttpSourceConnected::get_block, (&source, slot, httpget), block),
        call_ensures(HttpSourceConnected::get_first_available_block, (&source,), first),
    ensures
        r is Ok <==> delivery is Answered && delivery->Answered_0 is Ok,
        r matches Ok(value) ==> delivery->Answered_0->Ok_0 == value,
        delivery is NotSent ==> r->Err_0 is SendError,
        delivery is Lost ==> r->Err_0 is RecvError,
        delivery matches Delivery::Answered(Err(error)) ==> r->Err_0
            == HttpSourceConnectedError::Error(error),
        slots is Slots,
        first is FirstAvailableBlock,
        block matches HttpRequest::Block { slot: asked, httpget: by_get } && asked == slot && by_get
            == httpget,
{
}

/// The source serves every request that comes in, hands on what comes of the
/// stream, and stops only where the process does or no more requests come.
pub proof fn law_source_serves_until_stopped<R>(event: SourceEvent<R>, action: SourceAction<R>)
    requires
        call_ensures(handle_event::<R>, (event,), action),
    ensures
        action is Stop <==> event is Shutdown || (event is Http && event->Http_0 is None),
        event matches SourceEvent::Http(Some(request)) ==> action == SourceAction::<R>::Serve(request),
        event matches SourceEvent::StreamEnded(result) ==> action == SourceAction::Return(result),
{
}

} // verus!
