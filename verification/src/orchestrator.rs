//! The flash orchestrator: the state machine that ties discovery, the
//! button, the copy and the status display together.
//!
//! A tick has two halves. `plan` says what has to be found out for the
//! current state: nothing, what the registry lists, what the held device's
//! sector count reads, or how a flash of the held device ends. `advance`
//! takes what was found out and makes the transition: it may adopt or drop
//! the device identity, acknowledge the button latch and write a new state
//! into the status cell. No failure of a device or of a copy leaves the
//! orchestrator: each becomes a state.

use vstd::prelude::*;
use crate::cell::{CellView, ProtocolError, WatchCell};
use crate::copy::CopyError;
use crate::scanner::{
    candidates,
    candidates_spec,
    device_node_path,
    device_node_spec,
    entry_views,
    is_valid,
    is_valid_spec,
    optional_text,
    size_attribute_path,
    size_attribute_spec,
    EntryView,
    RegistryEntry,
    ScanError,
};
use crate::state::SystemState;

verus! {

/// The smallest device that is flashed unless another limit is chosen:
/// 128 GB.
pub const DEFAULT_MIN_SIZE_BYTES: u64 = 128_000_000_000;

/// What has to be found out before the next transition.
#[derive(Clone, Debug, PartialEq, Eq)]
pub enum Probe {
    /// Nothing.
    Nothing,
    /// List the registry, with the text of each entry's sector count.
    Scan { min_size_bytes: u64 },
    /// Read the text of the sector-count attribute at this path.
    Validate { attribute_path: String },
    /// Open this device and copy the image onto it.
    Flash { device: String },
}

/// What was found out.
#[derive(Debug, PartialEq, Eq)]
pub enum Observation {
    /// Nothing was asked for.
    Nothing,
    /// The entries of the registry, or that it could not be listed.
    Registry(Result<Vec<RegistryEntry>, ScanError>),
    /// The text of the sector-count attribute, if there is one to read.
    SizeAttribute(Option<String>),
    /// How the flash ended.
    Flashed(Result<(), CopyError>),
}

/// The mathematical content of a probe.
pub enum ProbeView {
    Nothing,
    Scan { min_size_bytes: u64 },
    Validate { attribute_path: Seq<char> },
    Flash { device: Seq<char> },
}

/// The mathematical content of an observation.
pub enum ObservationView {
    Nothing,
    Registry(Result<Seq<EntryView>, ScanError>),
    SizeAttribute(Option<Seq<char>>),
    Flashed(Result<(), CopyError>),
}

impl View for Probe {
    type V = ProbeView;

    open spec fn view(&self) -> ProbeView {
        match *self {
            Probe::Nothing => ProbeView::Nothing,
            Probe::Scan { min_size_bytes } => ProbeView::Scan { min_size_bytes },
            Probe::Validate { attribute_path } => ProbeView::Validate {
                attribute_path: attribute_path@,
            },
            Probe::Flash { device } => ProbeView::Flash { device: device@ },
        }
    }
}

impl View for Observation {
    type V = ObservationView;

    open spec fn view(&self) -> ObservationView {
        match *self {
            Observation::Nothing => ObservationView::Nothing,
            Observation::Registry(listing) => ObservationView::Registry(
                match listing {
                    Ok(entries) => Ok(entry_views(entries@)),
                    Err(e) => Err(e),
                },
            ),
            Observation::SizeAttribute(text) => ObservationView::SizeAttribute(optional_text(text)),
            Observation::Flashed(result) => ObservationView::Flashed(result),
        }
    }
}

/// What a transition does.
pub struct Decision {
    /// The device identity that is held after it.
    pub device: Option<Seq<char>>,
    /// The state that is written into the status cell, if one is.
    pub publish: Option<SystemState>,
    /// Whether the button latch is acknowledged.
    pub acknowledge: bool,
}

impl Decision {
    /// The state that is current after the transition.
    pub open spec fn state_after(self, before: SystemState) -> SystemState {
        match self.publish {
            Some(state) => state,
            None => before,
        }
    }
}

/// What has to be found out in `state` with `device` held.
pub open spec fn plan_spec(
    state: SystemState,
    device: Option<Seq<char>>,
    min_size_bytes: u64,
) -> ProbeView {
    match state {
        SystemState::Initializing => ProbeView::Nothing,
        SystemState::NoSdCard => ProbeView::Scan { min_size_bytes },
        SystemState::Flashing => match device {
            Some(device) => ProbeView::Flash { device },
            None => ProbeView::Nothing,
        },
        _ => match device {
            Some(device) => ProbeView::Validate { attribute_path: size_attribute_spec(device) },
            None => ProbeView::Nothing,
        },
    }
}

/// Whether `observation` is of the kind that `probe` asks for.
pub open spec fn answers(observation: ObservationView, probe: ProbeView) -> bool {
    match probe {
        ProbeView::Nothing => observation is Nothing,
        ProbeView::Scan { .. } => observation is Registry,
        ProbeView::Validate { .. } => observation is SizeAttribute,
        ProbeView::Flash { .. } => observation is Flashed,
    }
}

/// Whether `observation` reports a copy that was written and read back
/// intact.
pub open spec fn copy_succeeded(observation: ObservationView) -> bool {
    observation is Flashed && observation->Flashed_0 is Ok
}

/// The transition that leads back to waiting for a card: the device identity
/// is dropped.
pub open spec fn back_to_waiting() -> Decision {
    Decision { device: None, publish: Some(SystemState::NoSdCard), acknowledge: false }
}

/// The transition out of `state`, given the device that is held, what was
/// found out, and whether a press of the button is pending.
pub open spec fn decide(
    state: SystemState,
    device: Option<Seq<char>>,
    min_size_bytes: u64,
    observation: ObservationView,
    pressed: bool,
) -> Decision {
    match state {
        SystemState::Initializing => back_to_waiting(),
        SystemState::NoSdCard => match observation {
            ObservationView::Registry(Ok(entries)) => {
                let found = candidates_spec(entries, min_size_bytes);
                if found.len() > 0 {
                    Decision {
                        device: Some(device_node_spec(found[0])),
                        publish: Some(SystemState::SdCardFound),
                        acknowledge: true,
                    }
                } else {
                    back_to_waiting()
                }
            },
            _ => Decision { device: None, publish: None, acknowledge: false },
        },
        SystemState::Flashing => Decision {
            device,
            publish: Some(
                if device is Some && copy_succeeded(observation) {
                    SystemState::FlashingSucceeded
                } else {
                    SystemState::FlashingFailed
                },
            ),
            acknowledge: true,
        },
        _ => {
            let still_there = device is Some && observation is SizeAttribute && is_valid_spec(
                observation->SizeAttribute_0,
            );
            if !still_there {
                back_to_waiting()
            } else if !pressed {
                Decision { device, publish: None, acknowledge: false }
            } else if state == SystemState::SdCardFound {
                Decision { device, publish: Some(SystemState::Flashing), acknowledge: true }
            } else {
                Decision { device: None, publish: Some(SystemState::NoSdCard), acknowledge: true }
            }
        },
    }
}

/// Whether the transition looks at the button latch: it does when it
/// acknowledges the latch or depends on a pending press.
pub open spec fn uses_button(
    state: SystemState,
    device: Option<Seq<char>>,
    min_size_bytes: u64,
    observation: ObservationView,
) -> bool {
    let idle = decide(state, device, min_size_bytes, observation, false);
    let pressed = decide(state, device, min_size_bytes, observation, true);
    idle.acknowledge || pressed.acknowledge
}

/// The mathematical content of the orchestrator.
pub struct OrchestratorView {
    /// The device identity that is held, if one is.
    pub device: Option<Seq<char>>,
    /// The size that a device has to have to be flashed.
    pub min_size_bytes: u64,
    /// The orchestrator's number as a reader of the button latch.
    pub button_reader: usize,
}

impl OrchestratorView {
    /// The error that keeps a tick from happening, if any: a closed status
    /// cell, an observation that was not asked for, or a button latch that
    /// refuses the orchestrator when the transition needs it.
    pub open spec fn obstacle(
        self,
        status: CellView<SystemState>,
        button: CellView<()>,
        observation: ObservationView,
    ) -> Option<ProtocolError> {
        if status.closed {
            Some(ProtocolError::Closed)
        } else if !answers(observation, plan_spec(status.value, self.device, self.min_size_bytes)) {
            Some(ProtocolError::UnexpectedObservation)
        } else if uses_button(status.value, self.device, self.min_size_bytes, observation) {
            button.refusal(self.button_reader as int)
        } else {
            None
        }
    }

    /// The transition that a tick makes when nothing keeps it from
    /// happening.
    pub open spec fn decision(
        self,
        status: CellView<SystemState>,
        button: CellView<()>,
        observation: ObservationView,
    ) -> Decision {
        decide(
            status.value,
            self.device,
            self.min_size_bytes,
            observation,
            button.pending(self.button_reader as int),
        )
    }

    /// The invariant of a cycle: a device identity is held exactly in the
    /// states from the finding of a card to its giving up.
    pub open spec fn consistent_with(self, state: SystemState) -> bool {
        self.device is Some <==> state.holds_device_spec()
    }
}

/// The status cell after a transition.
pub open spec fn status_after(status: CellView<SystemState>, decision: Decision) -> CellView<
    SystemState,
> {
    match decision.publish {
        Some(state) => status.published(state),
        None => status,
    }
}

/// The button latch after a transition of the reader `reader`.
pub open spec fn button_after(button: CellView<()>, reader: int, decision: Decision) -> CellView<
    (),
> {
    if decision.acknowledge {
        button.acknowledged(reader)
    } else {
        button
    }
}

/// The orchestrator. Of the appliance's state it holds only the device
/// identity; the state itself lives in the status cell.
#[derive(Clone, Debug)]
pub struct Orchestrator {
    device: Option<String>,
    min_size_bytes: u64,
    button_reader: usize,
}

impl View for Orchestrator {
    type V = OrchestratorView;

    closed spec fn view(&self) -> OrchestratorView {
        OrchestratorView {
            device: optional_text(self.device),
            min_size_bytes: self.min_size_bytes,
            button_reader: self.button_reader,
        }
    }
}

impl Orchestrator {
    /// An orchestrator that flashes devices of at least `min_size_bytes`
    /// bytes and reads the button latch as reader `button_reader`. It holds
    /// no device.
    pub fn new(min_size_bytes: u64, button_reader: usize) -> (orchestrator: Orchestrator)
        ensures
            orchestrator@ == (OrchestratorView { device: None, min_size_bytes, button_reader }),
    {
        Orchestrator { device: None, min_size_bytes, button_reader }
    }

    /// The device identity that is held, if one is.
    pub fn device(&self) -> (device: Option<String>)
        ensures
            optional_text(device) == self@.device,
    {
        match &self.device {
            Some(device) => Some(device.clone()),
            None => None,
        }
    }

    /// The size that a device has to have to be flashed.
    pub fn min_size_bytes(&self) -> (min: u64)
        ensures
            min == self@.min_size_bytes,
    {
        self.min_size_bytes
    }

    /// What has to be found out before the next transition.
    pub fn plan(&self, status: &WatchCell<SystemState>) -> (probe: Probe)
        ensures
            probe@ == plan_spec(status@.value, self@.device, self@.min_size_bytes),
    {
        match status.read() {
            SystemState::Initializing => Probe::Nothing,
            SystemState::NoSdCard => Probe::Scan { min_size_bytes: self.min_size_bytes },
            SystemState::Flashing => match &self.device {
                Some(device) => Probe::Flash { device: device.clone() },
                None => Probe::Nothing,
            },
            _ => match &self.device {
                Some(device) => Probe::Validate {
                    attribute_path: size_attribute_path(device.as_str()),
                },
                None => Probe::Nothing,
            },
        }
    }

    fn answers_plan(&self, state: SystemState, observation: &Observation) -> (fits: bool)
        ensures
            fits == answers(observation@, plan_spec(state, self@.device, self@.min_size_bytes)),
    {
        let held = self.device.is_some();
        match state {
            SystemState::Initializing => matches!(observation, Observation::Nothing),
            SystemState::NoSdCard => matches!(observation, Observation::Registry(_)),
            SystemState::Flashing => if held {
                matches!(observation, Observation::Flashed(_))
            } else {
                matches!(observation, Observation::Nothing)
            },
            _ => if held {
                matches!(observation, Observation::SizeAttribute(_))
            } else {
                matches!(observation, Observation::Nothing)
            },
        }
    }

    /// Makes the transition that `observation` calls for.
    ///
    /// On success the result is the state that is current afterwards. On a
    /// protocol error nothing has changed.
    pub fn advance(
        &mut self,
        observation: &Observation,
        status: &mut WatchCell<SystemState>,
        button: &mut WatchCell<()>,
    ) -> (result: Result<SystemState, ProtocolError>)
        ensures
            final(self)@.min_size_bytes == old(self)@.min_size_bytes,
            final(self)@.button_reader == old(self)@.button_reader,
            match old(self)@.obstacle(old(status)@, old(button)@, observation@) {
                Some(e) => {
                    &&& result == Err::<SystemState, ProtocolError>(e)
                    &&& final(self)@ == old(self)@
                    &&& final(status)@ == old(status)@
                    &&& final(button)@ == old(button)@
                },
                None => {
                    let decision = old(self)@.decision(old(status)@, old(button)@, observation@);
                    &&& result == Ok::<SystemState, ProtocolError>(
                        decision.state_after(old(status)@.value),
                    )
                    &&& final(self)@.device == decision.device
                    &&& final(status)@ == status_after(old(status)@, decision)
                    &&& final(button)@ == button_after(
                        old(button)@,
                        old(self)@.button_reader as int,
                        decision,
                    )
                },
            },
    {
        if status.is_closed() {
            return Err(ProtocolError::Closed);
        }
        let state = status.read();
        if !self.answers_plan(state, observation) {
            return Err(ProtocolError::UnexpectedObservation);
        }
        let reader = self.button_reader;
        match state {
            SystemState::Initializing => {
                self.device = None;
                publish_now(status, SystemState::NoSdCard)
            },
            SystemState::NoSdCard => {
                match observation {
                    Observation::Registry(Ok(entries)) => {
                        let found = candidates(entries, self.min_size_bytes);
                        if found.len() > 0 {
                            assert(found@[0]@ == candidates_spec(
                                entry_views(entries@),
                                self.min_size_bytes,
                            )[0]);
                            match button.mark_unchanged(reader) {
                                Ok(()) => {},
                                Err(e) => {
                                    return Err(e);
                                },
                            }
                            self.device = Some(device_node_path(found[0].as_str()));
                            publish_now(status, SystemState::SdCardFound)
                        } else {
                            self.device = None;
                            publish_now(status, SystemState::NoSdCard)
                        }
                    },
                    _ => {
                        self.device = None;
                        Ok(state)
                    },
                }
            },
            SystemState::Flashing => {
                match button.mark_unchanged(reader) {
                    Ok(()) => {},
                    Err(e) => {
                        return Err(e);
                    },
                }
                let succeeded = self.device.is_some() && matches!(
                    observation,
                    Observation::Flashed(Ok(()))
                );
                if succeeded {
                    publish_now(status, SystemState::FlashingSucceeded)
                } else {
                    publish_now(status, SystemState::FlashingFailed)
                }
            },
            _ => {
                let still_there = self.device.is_some() && match observation {
                    Observation::SizeAttribute(text) => is_valid(text),
                    _ => false,
                };
                if !still_there {
                    self.device = None;
                    return publish_now(status, SystemState::NoSdCard);
                }
                let ghost before = button@;
                let pressed = match button.take_if_changed(reader) {
                    Ok(taken) => taken.is_some(),
                    Err(e) => {
                        return Err(e);
                    },
                };
                if !pressed {
                    assert(before.changed.update(reader as int, false) =~= before.changed);
                    Ok(state)
                } else if matches!(state, SystemState::SdCardFound) {
                    publish_now(status, SystemState::Flashing)
                } else {
                    self.device = None;
                    publish_now(status, SystemState::NoSdCard)
                }
            },
        }
    }
}

fn publish_now(status: &mut WatchCell<SystemState>, state: SystemState) -> (result: Result<
    SystemState,
    ProtocolError,
>)
    requires
        !old(status)@.closed,
    ensures
        result == Ok::<SystemState, ProtocolError>(state),
        final(status)@ == old(status)@.published(state),
{
    match status.publish(state) {
        Ok(()) => Ok(state),
        Err(e) => Err(e),
    }
}

/// Every state has a transition for whatever its probe can find out, so
/// the machine never stops for want of one; and the probe of a state asks
/// for exactly one kind of observation.
pub proof fn lemma_every_probe_has_an_answer(
    state: SystemState,
    device: Option<Seq<char>>,
    min_size_bytes: u64,
)
    ensures
        exists|observation: ObservationView| #[trigger]
            answers(observation, plan_spec(state, device, min_size_bytes)),
        forall|a: ObservationView, b: ObservationView|
            #![trigger answers(a, plan_spec(state, device, min_size_bytes)), answers(b, plan_spec(state, device, min_size_bytes))]
            answers(a, plan_spec(state, device, min_size_bytes)) && answers(
                b,
                plan_spec(state, device, min_size_bytes),
            ) ==> (a is Nothing <==> b is Nothing) && (a is Registry <==> b is Registry) && (a
                is SizeAttribute <==> b is SizeAttribute) && (a is Flashed <==> b is Flashed),
{
    let probe = plan_spec(state, device, min_size_bytes);
    match probe {
        ProbeView::Nothing => {
            assert(answers(ObservationView::Nothing, probe));
        },
        ProbeView::Scan { .. } => {
            assert(answers(ObservationView::Registry(Err(ScanError::RegistryUnreadable)), probe));
        },
        ProbeView::Validate { .. } => {
            assert(answers(ObservationView::SizeAttribute(None), probe));
        },
        ProbeView::Flash { .. } => {
            assert(answers(ObservationView::Flashed(Ok(())), probe));
        },
    }
}

/// A device identity is held exactly in the states from the finding of a
/// card to its giving up, and every transition keeps it so.
pub proof fn lemma_device_is_held_exactly_while_a_card_is_in_use(
    state: SystemState,
    device: Option<Seq<char>>,
    min_size_bytes: u64,
    observation: ObservationView,
    pressed: bool,
)
    requires
        device is Some <==> state.holds_device_spec(),
    ensures
        ({
            let decision = decide(state, device, min_size_bytes, observation, pressed);
            decision.device is Some <==> decision.state_after(state).holds_device_spec()
        }),
{
}

/// When the held device is gone, the very next transition leads back to
/// waiting for a card and drops the identity, whether or not a press of the
/// button is pending; the press stays pending.
pub proof fn lemma_removal_leads_back_to_waiting(
    state: SystemState,
    device: Option<Seq<char>>,
    min_size_bytes: u64,
    size_text: Option<Seq<char>>,
    pressed: bool,
)
    requires
        state == SystemState::SdCardFound || state == SystemState::FlashingSucceeded || state
            == SystemState::FlashingFailed,
        !is_valid_spec(size_text),
    ensures
        decide(
            state,
            device,
            min_size_bytes,
            ObservationView::SizeAttribute(size_text),
            pressed,
        ) == back_to_waiting(),
        !uses_button(state, device, min_size_bytes, ObservationView::SizeAttribute(size_text)),
{
}

/// A flash is started by the button only: the one transition that leads to
/// `Flashing` starts from `SdCardFound` with a press pending and the device
/// still there. In particular no finished flash, failed or not, is followed
/// by another without a new discovery.
pub proof fn lemma_flash_starts_from_a_found_card_only(
    state: SystemState,
    device: Option<Seq<char>>,
    min_size_bytes: u64,
    observation: ObservationView,
    pressed: bool,
)
    requires
        decide(state, device, min_size_bytes, observation, pressed).publish == Some(
            SystemState::Flashing,
        ),
    ensures
        state == SystemState::SdCardFound,
        pressed,
        device is Some,
        observation is SizeAttribute && is_valid_spec(observation->SizeAttribute_0),
{
}

/// After a flash the only way on is back to waiting for a card.
pub proof fn lemma_finished_flash_only_leads_back_to_waiting(
    state: SystemState,
    device: Option<Seq<char>>,
    min_size_bytes: u64,
    observation: ObservationView,
    pressed: bool,
)
    requires
        state == SystemState::FlashingSucceeded || state == SystemState::FlashingFailed,
    ensures
        ({
            let decision = decide(state, device, min_size_bytes, observation, pressed);
            decision.publish is None || decision.publish == Some(SystemState::NoSdCard)
        }),
{
}

/// A flash always ends in one of the two final states, it succeeds only if
/// the copy did, and a press that arrived meanwhile is acknowledged.
pub proof fn lemma_flash_ends_in_a_final_state(
    device: Option<Seq<char>>,
    min_size_bytes: u64,
    observation: ObservationView,
    pressed: bool,
)
    ensures
        ({
            let decision = decide(
                SystemState::Flashing,
                device,
                min_size_bytes,
                observation,
                pressed,
            );
            &&& decision.acknowledge
            &&& decision.device == device
            &&& decision.publish == Some(SystemState::FlashingSucceeded) || decision.publish
                == Some(SystemState::FlashingFailed)
            &&& decision.publish == Some(SystemState::FlashingSucceeded) <==> device is Some
                && copy_succeeded(observation)
        }),
{
}

} // verus!
