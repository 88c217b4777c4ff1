//! A hand-written counterpart of the FSM models this library builds: the
//! four-seasons machine, written directly as states and a transition
//! function. It shows the shape of the code that a consumer derives from a
//! [`crate::fsm::ParsedFsm`], with the caller supplying the action handlers
//! through a trait.

use vstd::prelude::*;

verus! {

/// The actions of the plant FSM; the caller implements these.
pub trait IPlantFsmActions {
    type TemperaturePeaksEventData;

    fn start_blooming(&mut self, event: Self::TemperaturePeaksEventData);
}

/// An event without data.
pub type EmptyEventData = ();

/// The events the plant FSM reacts to.
pub enum PlantFsmEvent<T: IPlantFsmActions> {
    TemperatureRises(EmptyEventData),
    TemperaturePeaks(T::TemperaturePeaksEventData),
}

/// The four seasons.
#[derive(Debug, Clone, Copy, PartialEq, Eq, Structural)]
pub enum PlantSeason {
    Winter,
    Spring,
    Summer,
    Autumn,
}

/// One state of the plant FSM.
pub struct PlantFsmState {
    season: PlantSeason,
}

impl PlantFsmState {
    /// The season this state stands for.
    pub closed spec fn spec_season(&self) -> PlantSeason {
        self.season
    }

    pub fn winter() -> (r: Self)
        ensures
            r.spec_season() == PlantSeason::Winter,
    {
        PlantFsmState { season: PlantSeason::Winter }
    }

    pub fn spring() -> (r: Self)
        ensures
            r.spec_season() == PlantSeason::Spring,
    {
        PlantFsmState { season: PlantSeason::Spring }
    }

    pub fn summer() -> (r: Self)
        ensures
            r.spec_season() == PlantSeason::Summer,
    {
        PlantFsmState { season: PlantSeason::Summer }
    }

    pub fn autumn() -> (r: Self)
        ensures
            r.spec_season() == PlantSeason::Autumn,
    {
        PlantFsmState { season: PlantSeason::Autumn }
    }

    /// The state's name.
    pub fn name(&self) -> (r: &'static str)
        ensures
            self.spec_season() == PlantSeason::Winter ==> r@ =~= seq!['W', 'i', 'n', 't', 'e', 'r'],
            self.spec_season() == PlantSeason::Spring ==> r@ =~= seq!['S', 'p', 'r', 'i', 'n', 'g'],
            self.spec_season() == PlantSeason::Summer ==> r@ =~= seq!['S', 'u', 'm', 'm', 'e', 'r'],
            self.spec_season() == PlantSeason::Autumn ==> r@ =~= seq!['A', 'u', 't', 'u', 'm', 'n'],
    {
        proof {
            reveal_strlit("Winter");
            reveal_strlit("Spring");
            reveal_strlit("Summer");
            reveal_strlit("Autumn");
        }
        match self.season {
            PlantSeason::Winter => "Winter",
            PlantSeason::Spring => "Spring",
            PlantSeason::Summer => "Summer",
            PlantSeason::Autumn => "Autumn",
        }
    }
}

/// The hand-written plant FSM: the current state plus the caller's action
/// handlers.
pub struct PlantFsm<T: IPlantFsmActions> {
    actions: T,
    current_state: PlantFsmState,
}

impl<T> PlantFsm<T> where T: IPlantFsmActions {
    /// The season of the current state.
    pub closed spec fn spec_season(&self) -> PlantSeason {
        self.current_state.season
    }

    /// The season of the current state, for inspection.
    pub fn season(&self) -> (r: PlantSeason)
        ensures
            r == self.spec_season(),
    {
        self.current_state.season
    }

    /// Starts in winter.
    pub fn new(actions: T) -> (r: Self)
        ensures
            r.spec_season() == PlantSeason::Winter,
    {
        PlantFsm { actions, current_state: PlantFsmState::winter() }
    }

    /// Feeds one event to the machine: rising temperature moves winter to
    /// spring; peak temperature moves spring to summer and runs the
    /// `start_blooming` action; any other combination changes nothing.
    pub fn trigger_event(&mut self, event: PlantFsmEvent<T>)
        ensures
            old(self).spec_season() == PlantSeason::Winter && event is TemperatureRises
                ==> final(self).spec_season() == PlantSeason::Spring,
            old(self).spec_season() == PlantSeason::Spring && event is TemperaturePeaks
                ==> final(self).spec_season() == PlantSeason::Summer,
            !(old(self).spec_season() == PlantSeason::Winter && event is TemperatureRises) && !(
            old(self).spec_season() == PlantSeason::Spring && event is TemperaturePeaks)
                ==> final(self).spec_season() == old(self).spec_season(),
    {
        match event {
            PlantFsmEvent::TemperatureRises(_) => {
                if matches!(self.current_state.season, PlantSeason::Winter) {
                    self.current_state = PlantFsmState::spring();
                }
            },
            PlantFsmEvent::TemperaturePeaks(data) => {
                if matches!(self.current_state.season, PlantSeason::Spring) {
                    self.actions.start_blooming(data);
                    self.current_state = PlantFsmState::summer();
                }
            },
        }
    }
}

} // verus!
