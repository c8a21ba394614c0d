//! Refresh of the carriers and stations that the ledger knows.
//!
//! A refresh asks the ledger for the identifiers of all carriers, then for the
//! record of each of them in turn, and broadcasts the records it got as one
//! list; then it does the same for the stations. An identifier whose record
//! cannot be had is left out, and a list that stays empty is not broadcast.
//!
//! Talking to the ledger is the caller's work. [`EvmUpdater::run_update`]
//! takes the answer to the last call and returns the next call to make;
//! [`update_step`] is the transition it follows, and the lemmas at the end of
//! the file say what a whole refresh broadcasts.

use vstd::prelude::*;
use crate::broadcast_bus::BroadcastBus;
use crate::timestamp::in_calendar;
use crate::sequences::{
    lemma_filter_map_first,
    lemma_filter_map_keeps_all,
    lemma_filter_map_keeps_none,
    with_optional,
};
use crate::records::{
    Carrier,
    CarrierReply,
    CarrierView,
    ResolveError,
    Station,
    StationReply,
    StationView,
};

verus! {

/// What a refresh broadcasts.
#[derive(Clone, Debug, PartialEq, Eq)]
pub enum EvmUpdate {
    /// The carriers whose records were had, in the order of their identifiers.
    CarrierListUpdate(Vec<Carrier>),
    /// The stations whose records were had, in the order of their identifiers.
    StationListUpdate(Vec<Station>),
}

/// `EvmUpdate` as plain values.
pub enum UpdateView {
    CarrierList(Seq<CarrierView>),
    StationList(Seq<StationView>),
}

impl View for EvmUpdate {
    type V = UpdateView;

    open spec fn view(&self) -> UpdateView {
        match self {
            EvmUpdate::CarrierListUpdate(carriers) => UpdateView::CarrierList(
                carriers@.map_values(|carrier: Carrier| carrier@),
            ),
            EvmUpdate::StationListUpdate(stations) => UpdateView::StationList(
                stations@.map_values(|station: Station| station@),
            ),
        }
    }
}

/// Where a refresh stands.
#[derive(Clone, Copy, Debug, PartialEq, Eq, Structural)]
pub enum Phase {
    /// No refresh is under way.
    Idle,
    /// The identifiers of the carriers have been asked for.
    ListingCarriers,
    /// The record of a carrier has been asked for.
    ResolvingCarriers,
    /// The identifiers of the stations have been asked for.
    ListingStations,
    /// The record of a station has been asked for.
    ResolvingStations,
}

/// The call that the caller is asked to make to the ledger.
#[derive(Clone, Copy, Debug, PartialEq, Eq, Structural)]
pub enum RemoteCall {
    /// List the identifiers of all carriers.
    ListCarrierIds,
    /// Get the record of the carrier with this identifier.
    GetCarrier(u64),
    /// List the identifiers of all stations.
    ListStationIds,
    /// Get the record of the station with this identifier.
    GetStation(u64),
    /// No call: the refresh is over.
    Rest,
}

/// What came of the call that was asked for.
#[derive(Clone, Debug, PartialEq, Eq)]
pub enum RemoteEvent {
    /// It is time for a refresh.
    Tick,
    /// The ledger listed these identifiers.
    IdsListed(Vec<u64>),
    /// The ledger sent this carrier.
    CarrierFetched(CarrierReply),
    /// The ledger sent this station.
    StationFetched(StationReply),
    /// The call failed or ran out of time.
    CallFailed,
}

/// `RemoteEvent` as plain values.
pub enum EventView {
    Tick,
    IdsListed(Seq<u64>),
    CarrierFetched(CarrierView),
    StationFetched(StationView),
    CallFailed,
}

impl View for RemoteEvent {
    type V = EventView;

    open spec fn view(&self) -> EventView {
        match self {
            RemoteEvent::Tick => EventView::Tick,
            RemoteEvent::IdsListed(ids) => EventView::IdsListed(ids@),
            RemoteEvent::CarrierFetched(reply) => EventView::CarrierFetched(reply@),
            RemoteEvent::StationFetched(reply) => EventView::StationFetched(reply@),
            RemoteEvent::CallFailed => EventView::CallFailed,
        }
    }
}

/// The state of a refresh: the identifiers that are still to be resolved, the
/// first of them being the one that was asked for, and the records had so far.
pub struct UpdaterState {
    pub phase: Phase,
    pub pending: Seq<u64>,
    pub carriers: Seq<CarrierView>,
    pub stations: Seq<StationView>,
}

/// What one step does: the state it leads to, the call it asks for, and the
/// list it broadcasts, if it broadcasts one.
pub struct UpdateStep {
    pub next: UpdaterState,
    pub call: RemoteCall,
    pub update: Option<UpdateView>,
}

impl UpdaterState {
    /// The state in `phase` with nothing pending and nothing had.
    pub open spec fn fresh(phase: Phase) -> UpdaterState {
        UpdaterState {
            phase,
            pending: Seq::empty(),
            carriers: Seq::empty(),
            stations: Seq::empty(),
        }
    }
}

/// The carrier that an answer brings, if it brings one.
pub open spec fn carrier_of(event: EventView) -> Option<CarrierView> {
    match event {
        EventView::CarrierFetched(reply) => match reply.resolved() {
            Ok(carrier) => Some(carrier),
            Err(_) => None,
        },
        _ => None,
    }
}

/// The station that an answer brings, if it brings one.
pub open spec fn station_of(event: EventView) -> Option<StationView> {
    match event {
        EventView::StationFetched(reply) => match reply.resolved() {
            Ok(station) => Some(station),
            Err(_) => None,
        },
        _ => None,
    }
}

/// The list of carriers to broadcast: none when there is no carrier.
pub open spec fn carrier_update(carriers: Seq<CarrierView>) -> Option<UpdateView> {
    if carriers.len() > 0 {
        Some(UpdateView::CarrierList(carriers))
    } else {
        None
    }
}

/// The list of stations to broadcast: none when there is no station.
pub open spec fn station_update(stations: Seq<StationView>) -> Option<UpdateView> {
    if stations.len() > 0 {
        Some(UpdateView::StationList(stations))
    } else {
        None
    }
}

/// The identifiers that are left when the first one has been dealt with.
pub open spec fn rest_of(pending: Seq<u64>) -> Seq<u64> {
    if pending.len() > 0 {
        pending.drop_first()
    } else {
        pending
    }
}

/// The transition of a refresh.
///
/// * At rest only `Tick` is heeded; it starts with the carriers.
/// * A listing that fails, or that is empty, ends the turn of its kind with
///   nothing broadcast.
/// * While records are resolved, an answer that brings a record adds it to the
///   list; any other answer leaves the identifier out. Then the next
///   identifier is asked for. After the last one the list is broadcast unless
///   it is empty.
/// * After the carriers come the stations, and after the stations the refresh
///   is at rest again.
pub open spec fn update_step(state: UpdaterState, event: EventView) -> UpdateStep {
    match state.phase {
        Phase::Idle => match event {
            EventView::Tick => UpdateStep {
                next: UpdaterState::fresh(Phase::ListingCarriers),
                call: RemoteCall::ListCarrierIds,
                update: None,
            },
            _ => UpdateStep { next: state, call: RemoteCall::Rest, update: None },
        },
        Phase::ListingCarriers => match event {
            EventView::IdsListed(ids) if ids.len() > 0 => UpdateStep {
                next: UpdaterState {
                    phase: Phase::ResolvingCarriers,
                    pending: ids,
                    carriers: Seq::empty(),
                    stations: Seq::empty(),
                },
                call: RemoteCall::GetCarrier(ids[0]),
                update: None,
            },
            _ => UpdateStep {
                next: UpdaterState::fresh(Phase::ListingStations),
                call: RemoteCall::ListStationIds,
                update: None,
            },
        },
        Phase::ResolvingCarriers => {
            let carriers = with_optional(state.carriers, carrier_of(event));
            let rest = rest_of(state.pending);
            if rest.len() > 0 {
                UpdateStep {
                    next: UpdaterState { pending: rest, carriers, ..state },
                    call: RemoteCall::GetCarrier(rest[0]),
                    update: None,
                }
            } else {
                UpdateStep {
                    next: UpdaterState::fresh(Phase::ListingStations),
                    call: RemoteCall::ListStationIds,
                    update: carrier_update(carriers),
                }
            }
        },
        Phase::ListingStations => match event {
            EventView::IdsListed(ids) if ids.len() > 0 => UpdateStep {
                next: UpdaterState {
                    phase: Phase::ResolvingStations,
                    pending: ids,
                    carriers: Seq::empty(),
                    stations: Seq::empty(),
                },
                call: RemoteCall::GetStation(ids[0]),
                update: None,
            },
            _ => UpdateStep {
                next: UpdaterState::fresh(Phase::Idle),
                call: RemoteCall::Rest,
                update: None,
            },
        },
        Phase::ResolvingStations => {
            let stations = with_optional(state.stations, station_of(event));
            let rest = rest_of(state.pending);
            if rest.len() > 0 {
                UpdateStep {
                    next: UpdaterState { pending: rest, stations, ..state },
                    call: RemoteCall::GetStation(rest[0]),
                    update: None,
                }
            } else {
                UpdateStep {
                    next: UpdaterState::fresh(Phase::Idle),
                    call: RemoteCall::Rest,
                    update: station_update(stations),
                }
            }
        },
    }
}

/// Why the reply that a step was given did not become a record, if the step was
/// given the reply that it had asked for and the reply was refused.
pub open spec fn update_rejection(state: UpdaterState, event: EventView) -> Option<ResolveError> {
    match event {
        EventView::CarrierFetched(reply) if state.phase == Phase::ResolvingCarriers => {
            match reply.resolved() {
                Ok(_) => None,
                Err(error) => Some(error),
            }
        },
        EventView::StationFetched(reply) if state.phase == Phase::ResolvingStations => {
            match reply.resolved() {
                Ok(_) => None,
                Err(error) => Some(error),
            }
        },
        _ => None,
    }
}

/// The identifiers of `ids` in reverse order.
fn reversed(ids: Vec<u64>) -> (turned: Vec<u64>)
    ensures
        turned@ == ids@.reverse(),
{
    let mut ids = ids;
    let ghost all = ids@;
    let mut turned: Vec<u64> = Vec::new();
    while ids.len() > 0
        invariant
            ids@.len() + turned@.len() == all.len(),
            ids@ == all.take(ids@.len() as int),
            forall|i: int| 0 <= i < turned@.len() ==> turned@[i] == all[all.len() - 1 - i],
        decreases ids.len(),
    {
        let last = ids.pop().unwrap();
        turned.push(last);
    }
    turned
}

/// The refresher of the carriers and stations, with the bus it feeds.
///
/// The identifiers that are still to be resolved are kept last first, so that
/// the one in hand is at the end.
pub struct EvmUpdater {
    bus: BroadcastBus<EvmUpdate>,
    phase: Phase,
    pending: Vec<u64>,
    carriers: Vec<Carrier>,
    stations: Vec<Station>,
    rejection: Option<ResolveError>,
}

impl View for EvmUpdater {
    type V = UpdaterState;

    closed spec fn view(&self) -> UpdaterState {
        UpdaterState {
            phase: self.phase,
            pending: self.pending@.reverse(),
            carriers: self.carriers@.map_values(|carrier: Carrier| carrier@),
            stations: self.stations@.map_values(|station: Station| station@),
        }
    }
}

/// Makes a refresher at rest that broadcasts on `bus`.
pub fn initialize(bus: BroadcastBus<EvmUpdate>) -> (updater: EvmUpdater)
    ensures
        updater@ == UpdaterState::fresh(Phase::Idle),
        updater.sent() == bus.sent(),
        updater.rejection().is_none(),
{
    let updater = EvmUpdater {
        bus,
        phase: Phase::Idle,
        pending: Vec::new(),
        carriers: Vec::new(),
        stations: Vec::new(),
        rejection: None,
    };
    assert(updater@.carriers =~= Seq::<CarrierView>::empty());
    assert(updater@.stations =~= Seq::<StationView>::empty());
    updater
}

impl EvmUpdater {
    /// The lists broadcast so far, oldest first.
    pub closed spec fn sent(&self) -> Seq<UpdateView> {
        self.bus.sent()
    }

    /// Why the reply of the last step did not become a record, if it did not.
    pub closed spec fn rejection(&self) -> Option<ResolveError> {
        self.rejection
    }

    /// Why the reply that the last step was given was left out, if that step
    /// was given a reply whose times the calendar cannot show.
    pub fn last_rejection(&self) -> (rejection: Option<ResolveError>)
        ensures
            rejection == self.rejection(),
    {
        self.rejection
    }

    /// Tells whether no refresh is under way.
    pub fn is_idle(&self) -> (idle: bool)
        ensures
            idle == (self@.phase == Phase::Idle),
    {
        self.phase == Phase::Idle
    }

    /// Takes the answer to the last call, broadcasts a list if the transition
    /// has one ready, and returns the next call to make.
    pub fn run_update(&mut self, event: RemoteEvent) -> (call: RemoteCall)
        ensures
            final(self)@ == update_step(old(self)@, event@).next,
            call == update_step(old(self)@, event@).call,
            final(self).sent() == with_optional(
                old(self).sent(),
                update_step(old(self)@, event@).update,
            ),
            final(self).rejection() == update_rejection(old(self)@, event@),
    {
        self.rejection = None;
        match self.phase {
            Phase::Idle => match event {
                RemoteEvent::Tick => {
                    self.enter(Phase::ListingCarriers);
                    RemoteCall::ListCarrierIds
                },
                _ => RemoteCall::Rest,
            },
            Phase::ListingCarriers => match event {
                RemoteEvent::IdsListed(ids) if ids.len() > 0 => {
                    let first = ids[0];
                    self.enter(Phase::ResolvingCarriers);
                    self.pending = reversed(ids);
                    assert(self@.pending =~= ids@);
                    RemoteCall::GetCarrier(first)
                },
                _ => {
                    self.enter(Phase::ListingStations);
                    RemoteCall::ListStationIds
                },
            },
            Phase::ResolvingCarriers => {
                if let RemoteEvent::CarrierFetched(reply) = event {
                    match Carrier::resolve(reply) {
                        Ok(carrier) => {
                            self.carriers.push(carrier);
                            assert(self@.carriers =~= old(self)@.carriers.push(carrier@));
                        },
                        Err(error) => {
                            self.rejection = Some(error);
                        },
                    }
                }
                match self.next_pending() {
                    Some(id) => RemoteCall::GetCarrier(id),
                    None => {
                        let mut carriers: Vec<Carrier> = Vec::new();
                        core::mem::swap(&mut carriers, &mut self.carriers);
                        if carriers.len() > 0 {
                            self.bus.broadcast(EvmUpdate::CarrierListUpdate(carriers));
                        }
                        self.enter(Phase::ListingStations);
                        RemoteCall::ListStationIds
                    },
                }
            },
            Phase::ListingStations => match event {
                RemoteEvent::IdsListed(ids) if ids.len() > 0 => {
                    let first = ids[0];
                    self.enter(Phase::ResolvingStations);
                    self.pending = reversed(ids);
                    assert(self@.pending =~= ids@);
                    RemoteCall::GetStation(first)
                },
                _ => {
                    self.enter(Phase::Idle);
                    RemoteCall::Rest
                },
            },
            Phase::ResolvingStations => {
                if let RemoteEvent::StationFetched(reply) = event {
                    match Station::resolve(reply) {
                        Ok(station) => {
                            self.stations.push(station);
                            assert(self@.stations =~= old(self)@.stations.push(station@));
                        },
                        Err(error) => {
                            self.rejection = Some(error);
                        },
                    }
                }
                match self.next_pending() {
                    Some(id) => RemoteCall::GetStation(id),
                    None => {
                        let mut stations: Vec<Station> = Vec::new();
                        core::mem::swap(&mut stations, &mut self.stations);
                        if stations.len() > 0 {
                            self.bus.broadcast(EvmUpdate::StationListUpdate(stations));
                        }
                        self.enter(Phase::Idle);
                        RemoteCall::Rest
                    },
                }
            },
        }
    }

    /// Goes to `phase` with nothing pending and nothing had.
    fn enter(&mut self, phase: Phase)
        ensures
            final(self)@ == UpdaterState::fresh(phase),
            final(self).bus == old(self).bus,
            final(self).rejection == old(self).rejection,
    {
        self.phase = phase;
        self.pending = Vec::new();
        self.carriers = Vec::new();
        self.stations = Vec::new();
        assert(self@.carriers =~= Seq::<CarrierView>::empty());
        assert(self@.stations =~= Seq::<StationView>::empty());
    }

    /// Drops the identifier in hand and returns the one that follows it.
    fn next_pending(&mut self) -> (next: Option<u64>)
        ensures
            final(self)@.pending == rest_of(old(self)@.pending),
            final(self).phase == old(self).phase,
            final(self).carriers == old(self).carriers,
            final(self).stations == old(self).stations,
            final(self).bus == old(self).bus,
            final(self).rejection == old(self).rejection,
            match next {
                Some(id) => final(self)@.pending.len() > 0 && id == final(self)@.pending[0],
                None => final(self)@.pending.len() == 0,
            },
    {
        let _ = self.pending.pop();
        let left = self.pending.len();
        if left > 0 {
            Some(self.pending[left - 1])
        } else {
            None
        }
    }
}

/// What a run of steps leaves behind: the state reached, the calls that were
/// asked for and the lists that were broadcast, oldest first.
pub struct UpdateTrace {
    pub state: UpdaterState,
    pub calls: Seq<RemoteCall>,
    pub updates: Seq<UpdateView>,
}

/// The steps for `events`, taken one after the other from `state`.
pub open spec fn run_updates(state: UpdaterState, events: Seq<EventView>) -> UpdateTrace
    decreases events.len(),
{
    if events.len() == 0 {
        UpdateTrace { state, calls: Seq::empty(), updates: Seq::empty() }
    } else {
        let first = update_step(state, events[0]);
        let rest = run_updates(first.next, events.drop_first());
        UpdateTrace {
            state: rest.state,
            calls: seq![first.call] + rest.calls,
            updates: with_optional(Seq::empty(), first.update) + rest.updates,
        }
    }
}

/// `carrier_of` as a value.
pub open spec fn carrier_picker() -> spec_fn(EventView) -> Option<CarrierView> {
    |event: EventView| carrier_of(event)
}

/// `station_of` as a value.
pub open spec fn station_picker() -> spec_fn(EventView) -> Option<StationView> {
    |event: EventView| station_of(event)
}

/// The carriers that a row of answers brings: those of the answers that bring
/// one, in the order of the answers.
pub open spec fn carriers_of(answers: Seq<EventView>) -> Seq<CarrierView> {
    answers.filter_map(carrier_picker())
}

/// The stations that a row of answers brings: those of the answers that bring
/// one, in the order of the answers.
pub open spec fn stations_of(answers: Seq<EventView>) -> Seq<StationView> {
    answers.filter_map(station_picker())
}

/// The calls for the carriers with these identifiers, in their order.
pub open spec fn carrier_calls(ids: Seq<u64>) -> Seq<RemoteCall> {
    ids.map_values(|id: u64| RemoteCall::GetCarrier(id))
}

/// The calls for the stations with these identifiers, in their order.
pub open spec fn station_calls(ids: Seq<u64>) -> Seq<RemoteCall> {
    ids.map_values(|id: u64| RemoteCall::GetStation(id))
}

/// While identifiers are listed nothing is broadcast, and a listing that
/// fails ends the turn of its kind: the refresh goes on to what follows.
pub proof fn lemma_failed_listing_broadcasts_nothing(state: UpdaterState, event: EventView)
    requires
        state.phase == Phase::ListingCarriers || state.phase == Phase::ListingStations,
    ensures
        update_step(state, event).update.is_none(),
        !(event is IdsListed) && state.phase == Phase::ListingCarriers ==> update_step(
            state,
            event,
        ).next == UpdaterState::fresh(Phase::ListingStations),
        !(event is IdsListed) && state.phase == Phase::ListingStations ==> update_step(
            state,
            event,
        ).next == UpdaterState::fresh(Phase::Idle),
{
}

/// A refresh broadcasts at most one list in a step, and never an empty one.
pub proof fn lemma_no_empty_list_is_broadcast(state: UpdaterState, event: EventView)
    ensures
        match update_step(state, event).update {
            Some(UpdateView::CarrierList(carriers)) => carriers.len() > 0,
            Some(UpdateView::StationList(stations)) => stations.len() > 0,
            None => true,
        },
{
}

/// Running `first` and then `second` is running the two one behind the other.
pub proof fn lemma_run_updates_concat(
    state: UpdaterState,
    first: Seq<EventView>,
    second: Seq<EventView>,
)
    ensures
        run_updates(state, first + second).state == run_updates(
            run_updates(state, first).state,
            second,
        ).state,
        run_updates(state, first + second).calls == run_updates(state, first).calls
            + run_updates(run_updates(state, first).state, second).calls,
        run_updates(state, first + second).updates == run_updates(state, first).updates
            + run_updates(run_updates(state, first).state, second).updates,
    decreases first.len(),
{
    if first.len() == 0 {
        assert(first + second =~= second);
    } else {
        assert((first + second).drop_first() =~= first.drop_first() + second);
        lemma_run_updates_concat(update_step(state, first[0]).next, first.drop_first(), second);
    }
}

/// A run of one step is that step.
proof fn lemma_run_of_one(state: UpdaterState, event: EventView)
    ensures
        run_updates(state, seq![event]) == (UpdateTrace {
            state: update_step(state, event).next,
            calls: seq![update_step(state, event).call],
            updates: with_optional(Seq::empty(), update_step(state, event).update),
        }),
{
    let one = seq![event];
    let after = run_updates(update_step(state, event).next, one.drop_first());
    assert(after.calls =~= Seq::<RemoteCall>::empty());
    assert(run_updates(state, one).calls =~= seq![update_step(state, event).call]);
    assert(run_updates(state, one).updates =~= with_optional(
        Seq::empty(),
        update_step(state, event).update,
    ));
}

/// The turn of the carriers, from the answer to the listing on: with one
/// answer for each identifier listed, every identifier is asked for once and
/// in order, then the stations are listed; and what is broadcast is the one
/// list of the carriers that the answers brought, or nothing if they brought
/// none.
pub proof fn lemma_carrier_turn(ids: Seq<u64>, answers: Seq<EventView>)
    requires
        answers.len() == ids.len(),
    ensures
        run_updates(
            UpdaterState::fresh(Phase::ListingCarriers),
            seq![EventView::IdsListed(ids)] + answers,
        ) == (UpdateTrace {
            state: UpdaterState::fresh(Phase::ListingStations),
            calls: carrier_calls(ids) + seq![RemoteCall::ListStationIds],
            updates: with_optional(Seq::empty(), carrier_update(carriers_of(answers))),
        }),
{
    let listing = UpdaterState::fresh(Phase::ListingCarriers);
    let listed = seq![EventView::IdsListed(ids)];
    lemma_run_of_one(listing, listed[0]);
    lemma_run_updates_concat(listing, listed, answers);
    let whole = run_updates(listing, listed + answers);
    if ids.len() > 0 {
        lemma_resolving_carriers(ids, Seq::empty(), answers);
        assert(Seq::<CarrierView>::empty() + carriers_of(answers) =~= carriers_of(answers));
        assert(whole.calls =~= carrier_calls(ids) + seq![RemoteCall::ListStationIds]);
    } else {
        assert(whole.calls =~= carrier_calls(ids) + seq![RemoteCall::ListStationIds]);
        assert(whole.updates =~= Seq::<UpdateView>::empty());
    }
}

/// `lemma_carrier_turn` from the moment at which `pending` is still to be
/// resolved and `had` has been had.
proof fn lemma_resolving_carriers(
    pending: Seq<u64>,
    had: Seq<CarrierView>,
    answers: Seq<EventView>,
)
    requires
        pending.len() >= 1,
        answers.len() == pending.len(),
    ensures
        run_updates(
            UpdaterState {
                phase: Phase::ResolvingCarriers,
                pending,
                carriers: had,
                stations: Seq::empty(),
            },
            answers,
        ) == (UpdateTrace {
            state: UpdaterState::fresh(Phase::ListingStations),
            calls: carrier_calls(pending.drop_first()) + seq![RemoteCall::ListStationIds],
            updates: with_optional(Seq::empty(), carrier_update(had + carriers_of(answers))),
        }),
    decreases answers.len(),
{
    let state = UpdaterState {
        phase: Phase::ResolvingCarriers,
        pending,
        carriers: had,
        stations: Seq::empty(),
    };
    let first = update_step(state, answers[0]);
    let rest = pending.drop_first();
    let more = with_optional(had, carrier_of(answers[0]));
    let whole = run_updates(state, answers);
    lemma_filter_map_first(answers, carrier_picker());
    assert(more + carriers_of(answers.drop_first()) =~= had + carriers_of(answers));
    if rest.len() > 0 {
        lemma_resolving_carriers(rest, more, answers.drop_first());
        assert(whole.calls =~= carrier_calls(rest) + seq![RemoteCall::ListStationIds]);
    } else {
        assert(answers =~= seq![answers[0]]);
        lemma_run_of_one(state, answers[0]);
        assert(whole.calls =~= carrier_calls(rest) + seq![RemoteCall::ListStationIds]);
    }
}

/// The turn of the stations, as `lemma_carrier_turn` has it for the carriers;
/// after it the refresh is at rest.
pub proof fn lemma_station_turn(ids: Seq<u64>, answers: Seq<EventView>)
    requires
        answers.len() == ids.len(),
    ensures
        run_updates(
            UpdaterState::fresh(Phase::ListingStations),
            seq![EventView::IdsListed(ids)] + answers,
        ) == (UpdateTrace {
            state: UpdaterState::fresh(Phase::Idle),
            calls: station_calls(ids) + seq![RemoteCall::Rest],
            updates: with_optional(Seq::empty(), station_update(stations_of(answers))),
        }),
{
    let listing = UpdaterState::fresh(Phase::ListingStations);
    let listed = seq![EventView::IdsListed(ids)];
    lemma_run_of_one(listing, listed[0]);
    lemma_run_updates_concat(listing, listed, answers);
    let whole = run_updates(listing, listed + answers);
    if ids.len() > 0 {
        lemma_resolving_stations(ids, Seq::empty(), answers);
        assert(Seq::<StationView>::empty() + stations_of(answers) =~= stations_of(answers));
        assert(whole.calls =~= station_calls(ids) + seq![RemoteCall::Rest]);
    } else {
        assert(whole.calls =~= station_calls(ids) + seq![RemoteCall::Rest]);
        assert(whole.updates =~= Seq::<UpdateView>::empty());
    }
}

/// `lemma_station_turn` from the moment at which `pending` is still to be
/// resolved and `had` has been had.
proof fn lemma_resolving_stations(
    pending: Seq<u64>,
    had: Seq<StationView>,
    answers: Seq<EventView>,
)
    requires
        pending.len() >= 1,
        answers.len() == pending.len(),
    ensures
        run_updates(
            UpdaterState {
                phase: Phase::ResolvingStations,
                pending,
                carriers: Seq::empty(),
                stations: had,
            },
            answers,
        ) == (UpdateTrace {
            state: UpdaterState::fresh(Phase::Idle),
            calls: station_calls(pending.drop_first()) + seq![RemoteCall::Rest],
            updates: with_optional(Seq::empty(), station_update(had + stations_of(answers))),
        }),
    decreases answers.len(),
{
    let state = UpdaterState {
        phase: Phase::ResolvingStations,
        pending,
        carriers: Seq::empty(),
        stations: had,
    };
    let first = update_step(state, answers[0]);
    let rest = pending.drop_first();
    let more = with_optional(had, station_of(answers[0]));
    let whole = run_updates(state, answers);
    lemma_filter_map_first(answers, station_picker());
    assert(more + stations_of(answers.drop_first()) =~= had + stations_of(answers));
    if rest.len() > 0 {
        lemma_resolving_stations(rest, more, answers.drop_first());
        assert(whole.calls =~= station_calls(rest) + seq![RemoteCall::Rest]);
    } else {
        assert(answers =~= seq![answers[0]]);
        lemma_run_of_one(state, answers[0]);
        assert(whole.calls =~= station_calls(rest) + seq![RemoteCall::Rest]);
    }
}

/// A whole refresh, from the tick on, in which every listing is answered and
/// every identifier listed gets one answer: the carriers are listed and asked
/// for one by one, then the stations; the list of the carriers that were had
/// is broadcast first, then that of the stations, each only if it is not
/// empty; and the refresh is at rest again.
pub proof fn lemma_whole_refresh(
    carrier_ids: Seq<u64>,
    carrier_answers: Seq<EventView>,
    station_ids: Seq<u64>,
    station_answers: Seq<EventView>,
)
    requires
        carrier_answers.len() == carrier_ids.len(),
        station_answers.len() == station_ids.len(),
    ensures
        run_updates(
            UpdaterState::fresh(Phase::Idle),
            seq![EventView::Tick] + (seq![EventView::IdsListed(carrier_ids)] + carrier_answers) + (
            seq![EventView::IdsListed(station_ids)] + station_answers),
        ) == (UpdateTrace {
            state: UpdaterState::fresh(Phase::Idle),
            calls: seq![RemoteCall::ListCarrierIds] + (carrier_calls(carrier_ids)
                + seq![RemoteCall::ListStationIds]) + (station_calls(station_ids)
                + seq![RemoteCall::Rest]),
            updates: with_optional(Seq::empty(), carrier_update(carriers_of(carrier_answers)))
                + with_optional(Seq::empty(), station_update(stations_of(station_answers))),
        }),
{
    let rest = UpdaterState::fresh(Phase::Idle);
    let tick = seq![EventView::Tick];
    let carriers = seq![EventView::IdsListed(carrier_ids)] + carrier_answers;
    let stations = seq![EventView::IdsListed(station_ids)] + station_answers;
    lemma_run_of_one(rest, tick[0]);
    lemma_carrier_turn(carrier_ids, carrier_answers);
    lemma_station_turn(station_ids, station_answers);
    lemma_run_updates_concat(rest, tick, carriers);
    lemma_run_updates_concat(rest, tick + carriers, stations);
}

/// When identifiers are listed and every one of them brings its carrier, one
/// list is broadcast; it has as many carriers as identifiers were listed, and
/// the carrier at each place is the one that the answer at that place brought.
pub proof fn lemma_full_carrier_list_is_broadcast(ids: Seq<u64>, answers: Seq<EventView>)
    requires
        ids.len() > 0,
        answers.len() == ids.len(),
        forall|i: int| 0 <= i < answers.len() ==> carrier_of(#[trigger] answers[i]) is Some,
    ensures
        run_updates(
            UpdaterState::fresh(Phase::ListingCarriers),
            seq![EventView::IdsListed(ids)] + answers,
        ).updates == seq![UpdateView::CarrierList(carriers_of(answers))],
        carriers_of(answers).len() == ids.len(),
        forall|i: int|
            0 <= i < answers.len() ==> carrier_of(answers[i]) == Some(
                #[trigger] carriers_of(answers)[i],
            ),
{
    lemma_carrier_turn(ids, answers);
    lemma_filter_map_keeps_all(answers, carrier_picker());
}

/// The turn of the carriers broadcasts nothing exactly when no identifier
/// was listed or no answer brought a carrier.
pub proof fn lemma_no_carrier_list_only_without_carriers(ids: Seq<u64>, answers: Seq<EventView>)
    requires
        answers.len() == ids.len(),
    ensures
        run_updates(
            UpdaterState::fresh(Phase::ListingCarriers),
            seq![EventView::IdsListed(ids)] + answers,
        ).updates.len() == 0 <==> ids.len() == 0 || forall|i: int|
            0 <= i < answers.len() ==> carrier_of(#[trigger] answers[i]) is None,
{
    lemma_carrier_turn(ids, answers);
    lemma_filter_map_keeps_none(answers, carrier_picker());
}

/// The like of `lemma_full_carrier_list_is_broadcast` for stations.
pub proof fn lemma_full_station_list_is_broadcast(ids: Seq<u64>, answers: Seq<EventView>)
    requires
        ids.len() > 0,
        answers.len() == ids.len(),
        forall|i: int| 0 <= i < answers.len() ==> station_of(#[trigger] answers[i]) is Some,
    ensures
        run_updates(
            UpdaterState::fresh(Phase::ListingStations),
            seq![EventView::IdsListed(ids)] + answers,
        ).updates == seq![UpdateView::StationList(stations_of(answers))],
        stations_of(answers).len() == ids.len(),
        forall|i: int|
            0 <= i < answers.len() ==> station_of(answers[i]) == Some(
                #[trigger] stations_of(answers)[i],
            ),
{
    lemma_station_turn(ids, answers);
    lemma_filter_map_keeps_all(answers, station_picker());
}

/// The like of `lemma_no_carrier_list_only_without_carriers` for stations.
pub proof fn lemma_no_station_list_only_without_stations(ids: Seq<u64>, answers: Seq<EventView>)
    requires
        answers.len() == ids.len(),
    ensures
        run_updates(
            UpdaterState::fresh(Phase::ListingStations),
            seq![EventView::IdsListed(ids)] + answers,
        ).updates.len() == 0 <==> ids.len() == 0 || forall|i: int|
            0 <= i < answers.len() ==> station_of(#[trigger] answers[i]) is None,
{
    lemma_station_turn(ids, answers);
    lemma_filter_map_keeps_none(answers, station_picker());
}

/// Whether the times of a carrier are such as the calendar can show.
pub open spec fn carrier_in_calendar(carrier: CarrierView) -> bool {
    &&& 0 <= carrier.timestamp && in_calendar(carrier.timestamp as nat)
    &&& 0 <= carrier.departure && in_calendar(carrier.departure as nat)
}

/// Whether the time of a station is such as the calendar can show.
pub open spec fn station_in_calendar(station: StationView) -> bool {
    0 <= station.timestamp && in_calendar(station.timestamp as nat)
}

/// Whether the calendar can show the times of every record of a list.
pub open spec fn update_in_calendar(update: UpdateView) -> bool {
    match update {
        UpdateView::CarrierList(carriers) => forall|i: int|
            0 <= i < carriers.len() ==> carrier_in_calendar(#[trigger] carriers[i]),
        UpdateView::StationList(stations) => forall|i: int|
            0 <= i < stations.len() ==> station_in_calendar(#[trigger] stations[i]),
    }
}

/// Whether the calendar can show the times of every record had so far.
pub open spec fn records_in_calendar(state: UpdaterState) -> bool {
    &&& forall|i: int|
        0 <= i < state.carriers.len() ==> carrier_in_calendar(#[trigger] state.carriers[i])
    &&& forall|i: int|
        0 <= i < state.stations.len() ==> station_in_calendar(#[trigger] state.stations[i])
}

/// A step takes in no record whose time the calendar cannot show, and
/// broadcasts none.
pub proof fn lemma_step_keeps_to_calendar(state: UpdaterState, event: EventView)
    requires
        records_in_calendar(state),
    ensures
        records_in_calendar(update_step(state, event).next),
        update_step(state, event).update matches Some(update) ==> update_in_calendar(update),
{
}

/// No refresh, whatever the answers are, broadcasts a record whose time the
/// calendar cannot show.
pub proof fn lemma_broadcasts_keep_to_calendar(state: UpdaterState, events: Seq<EventView>)
    requires
        records_in_calendar(state),
    ensures
        records_in_calendar(run_updates(state, events).state),
        forall|i: int|
            0 <= i < run_updates(state, events).updates.len() ==> update_in_calendar(
                #[trigger] run_updates(state, events).updates[i],
            ),
    decreases events.len(),
{
    if events.len() > 0 {
        lemma_step_keeps_to_calendar(state, events[0]);
        lemma_broadcasts_keep_to_calendar(update_step(state, events[0]).next, events.drop_first());
    }
}

} // verus!
