//! The dispatcher: it sends the resolved layer to the keyboard only where
//! the keyboard does not show that layer already.
//!
//! The keyboard counts its layers from 0, the mapping from 1: the command
//! for layer `n` carries `n - 1`. The state remembers the layer of the last
//! command that reached the keyboard. A command that failed leaves the
//! state as it was, so the next event sends it again.
//!
//! The transport is the caller's: a function from the index to send to
//! the result of sending it. [`ResolverState::pending`] and
//! [`ResolverState::settle`] are the two halves of a dispatch for a caller
//! that sends in between; [`dispatch`] does both around one call of the
//! transport.

use vstd::prelude::*;
use crate::config::{layers_in_range, resolved_layer, Config, ConfigView};
use crate::processes::{table_view, ProcessInfo, ProcessInfoView};
use crate::structs::{AppDetails, AppDetailsView, MAX_LAYERS};

verus! {

/// Why a command did not reach the keyboard.
#[derive(Debug, Clone)]
pub struct TransportError {
    pub message: String,
}

/// What the dispatcher remembers between events: the layer of the last
/// command that reached the keyboard, and the token of the last event
/// that was let through.
#[derive(Debug, Clone, Copy)]
pub struct ResolverState {
    pub last_applied_layer: Option<u8>,
    pub last_event_token: Option<u64>,
}

/// How a focus event ended.
#[derive(Debug, Clone)]
pub enum DispatchOutcome {
    /// The keyboard shows the layer already; nothing was sent.
    Unchanged,
    /// The command for this layer reached the keyboard.
    Applied(u8),
    /// The command was sent and failed.
    Failed(TransportError),
}

/// The index that the keyboard knows a layer by.
pub open spec fn hardware_index(layer: u8) -> u8
    recommends
        layer >= 1,
{
    (layer - 1) as u8
}

/// The state after a command for `desired` was sent: it remembers the
/// layer where the command reached the keyboard, and nothing new where it
/// failed.
pub open spec fn settled(state: ResolverState, desired: u8, reached: bool) -> ResolverState {
    if reached {
        ResolverState { last_applied_layer: Some(desired), ..state }
    } else {
        state
    }
}

/// The index to send for `desired`: none where the keyboard shows that
/// layer already.
pub open spec fn pending_command(state: ResolverState, desired: u8) -> Option<u8> {
    if state.last_applied_layer == Some(desired) {
        None
    } else {
        Some(hardware_index(desired))
    }
}

/// One dispatch of `desired` through the transport `send` led from the
/// state `before` to the state `after` and ended as `outcome`.
pub open spec fn dispatched<F: Fn(u8) -> Result<(), TransportError>>(
    before: ResolverState,
    desired: u8,
    send: F,
    after: ResolverState,
    outcome: DispatchOutcome,
) -> bool {
    match outcome {
        DispatchOutcome::Unchanged => {
            &&& before.last_applied_layer == Some(desired)
            &&& after == before
        },
        DispatchOutcome::Applied(layer) => {
            &&& layer == desired
            &&& before.last_applied_layer != Some(desired)
            &&& call_ensures(send, (hardware_index(desired),), Ok(()))
            &&& after == settled(before, desired, true)
        },
        DispatchOutcome::Failed(error) => {
            &&& before.last_applied_layer != Some(desired)
            &&& call_ensures(send, (hardware_index(desired),), Err(error))
            &&& after == before
        },
    }
}

/// One focus event, with `focused` in front while the processes of `table`
/// ran, led from the state `before` to the state `after` and ended as
/// `outcome`.
pub open spec fn focus_changed<F: Fn(u8) -> Result<(), TransportError>>(
    config: ConfigView,
    focused: AppDetailsView,
    table: Seq<ProcessInfoView>,
    before: ResolverState,
    send: F,
    after: ResolverState,
    outcome: DispatchOutcome,
) -> bool {
    dispatched(before, resolved_layer(config, focused, table), send, after, outcome)
}

/// The transport takes the index of every layer that a keyboard has.
pub open spec fn takes_every_layer<F: Fn(u8) -> Result<(), TransportError>>(send: F) -> bool {
    forall|index: u8| index < MAX_LAYERS ==> call_requires(send, (index,))
}

impl ResolverState {
    /// The state at startup: nothing is known of the keyboard.
    pub fn new() -> (state: Self)
        ensures
            state.last_applied_layer is None,
            state.last_event_token is None,
    {
        ResolverState { last_applied_layer: None, last_event_token: None }
    }

    /// Lets an event through unless it carries the token of the event
    /// before it, and remembers the token of an event that it lets
    /// through.
    pub fn take_event(&mut self, token: u64) -> (fresh: bool)
        ensures
            fresh == (old(self).last_event_token != Some(token)),
            final(self).last_event_token == Some(token),
            final(self).last_applied_layer == old(self).last_applied_layer,
    {
        let fresh = match self.last_event_token {
            Some(last) => last != token,
            None => true,
        };
        self.last_event_token = Some(token);
        fresh
    }

    /// The index to send so that the keyboard shows `desired`, or nothing
    /// where it shows that layer already.
    pub fn pending(&self, desired: u8) -> (command: Option<u8>)
        requires
            desired >= 1,
        ensures
            command == pending_command(*self, desired),
    {
        match self.last_applied_layer {
            Some(layer) if layer == desired => None,
            _ => Some(desired - 1),
        }
    }

    /// Takes note of how the command for `desired` went.
    pub fn settle(&mut self, desired: u8, sent: Result<(), TransportError>) -> (outcome:
        DispatchOutcome)
        ensures
            *final(self) == settled(*old(self), desired, sent is Ok),
            outcome == match sent {
                Ok(_) => DispatchOutcome::Applied(desired),
                Err(error) => DispatchOutcome::Failed(error),
            },
    {
        match sent {
            Ok(_) => {
                self.last_applied_layer = Some(desired);
                DispatchOutcome::Applied(desired)
            },
            Err(error) => DispatchOutcome::Failed(error),
        }
    }
}

/// Brings the keyboard to `desired`: sends the command unless the keyboard
/// shows that layer already, and remembers the layer where the command
/// reached it.
pub fn dispatch<F: Fn(u8) -> Result<(), TransportError>>(
    state: &mut ResolverState,
    desired: u8,
    send: F,
) -> (outcome: DispatchOutcome)
    requires
        desired >= 1,
        call_requires(send, (hardware_index(desired),)),
    ensures
        dispatched(*old(state), desired, send, *final(state), outcome),
{
    match state.pending(desired) {
        None => DispatchOutcome::Unchanged,
        Some(index) => {
            let sent = send(index);
            assert(sent is Ok ==> sent->Ok_0 == ());
            state.settle(desired, sent)
        },
    }
}

/// Handles one focus event, with the parent rules put to the table
/// `processes`: resolves the layer and brings the keyboard to it.
pub fn on_focus_changed<F: Fn(u8) -> Result<(), TransportError>>(
    config: &Config,
    focused: &AppDetails,
    processes: &Vec<ProcessInfo>,
    state: &mut ResolverState,
    send: F,
) -> (outcome: DispatchOutcome)
    requires
        layers_in_range(config@),
        takes_every_layer(send),
    ensures
        focus_changed(
            config@,
            focused@,
            table_view(processes@),
            *old(state),
            send,
            *final(state),
            outcome,
        ),
{
    let desired = config.resolve_in(focused, processes);
    dispatch(state, desired, send)
}

/// Handles one focus event, with the parent rules put to the processes
/// that run now. The event ends as it would on some table of processes:
/// the one that the operating system reported.
pub fn process<F: Fn(u8) -> Result<(), TransportError>>(
    config: &Config,
    app_details: &AppDetails,
    state: &mut ResolverState,
    send: F,
) -> (outcome: DispatchOutcome)
    requires
        layers_in_range(config@),
        takes_every_layer(send),
    ensures
        exists|table: Seq<ProcessInfoView>|
            focus_changed(config@, app_details@, table, *old(state), send, *final(state), outcome),
{
    let desired = config.resolve(app_details);
    let ghost table = choose|table: Seq<ProcessInfoView>|
        desired == resolved_layer(config@, app_details@, table);
    let outcome = dispatch(state, desired, send);
    assert(focus_changed(config@, app_details@, table, *old(state), send, *state, outcome));
    outcome
}

/// The same event twice is applied once. Where an event ends as applied
/// and the same application has the focus at the next event, with the
/// mapping and the processes as they were, the first event applied the
/// resolved layer and the second ends as unchanged, with the state as the
/// first left it.
pub proof fn lemma_repeated_event_is_unchanged<F: Fn(u8) -> Result<(), TransportError>>(
    config: ConfigView,
    focused: AppDetailsView,
    table: Seq<ProcessInfoView>,
    send: F,
    start: ResolverState,
    first: DispatchOutcome,
    between: ResolverState,
    second: DispatchOutcome,
    end: ResolverState,
)
    requires
        focus_changed(config, focused, table, start, send, between, first),
        first is Applied,
        focus_changed(config, focused, table, between, send, end, second),
    ensures
        first == DispatchOutcome::Applied(resolved_layer(config, focused, table)),
        between.last_applied_layer == Some(resolved_layer(config, focused, table)),
        second is Unchanged,
        end == between,
{
}

/// A failed command is sent again. Where an event ends as failed, the
/// state stays as it was; and the next event for the same application,
/// with the mapping and the processes as they were, does not end as
/// unchanged: the command is sent once more, and ends as failed again
/// where the transport fails again.
pub proof fn lemma_failed_event_is_retried<F: Fn(u8) -> Result<(), TransportError>>(
    config: ConfigView,
    focused: AppDetailsView,
    table: Seq<ProcessInfoView>,
    send: F,
    start: ResolverState,
    first: DispatchOutcome,
    between: ResolverState,
    second: DispatchOutcome,
    end: ResolverState,
)
    requires
        focus_changed(config, focused, table, start, send, between, first),
        first is Failed,
        focus_changed(config, focused, table, between, send, end, second),
    ensures
        between == start,
        !(second is Unchanged),
        pending_command(between, resolved_layer(config, focused, table)) == Some(
            hardware_index(resolved_layer(config, focused, table)),
        ),
        !call_ensures(send, (hardware_index(resolved_layer(config, focused, table)),), Ok(()))
            ==> second is Failed && end == start,
{
}

} // verus!
