use phyto_fsm::IPlantFsmActions;
use phyto_fsm::PlantFsm;
use phyto_fsm::PlantFsmEvent;
use phyto_fsm::PlantSeason;

struct LogActions;

impl IPlantFsmActions for LogActions {
    type TemperaturePeaksEventData = u32;

    fn start_blooming(&mut self, event: Self::TemperaturePeaksEventData) {
        println!("Blooming at temperature {}", event);
    }
}

#[test]
fn test_enum() {
    let lg = LogActions {};
    let mut fsm = PlantFsm::new(lg);

    fsm.trigger_event(PlantFsmEvent::TemperatureRises(()));
    fsm.trigger_event(PlantFsmEvent::TemperaturePeaks(42));
    assert_eq!(fsm.season(), PlantSeason::Summer);
}

struct QuietActions;

impl IPlantFsmActions for QuietActions {
    type TemperaturePeaksEventData = ();

    fn start_blooming(&mut self, _event: ()) {}
}

#[test]
fn blooming_runs_only_from_spring() {
    let mut fsm = PlantFsm::new(QuietActions);
    // Peak temperature in winter changes nothing.
    fsm.trigger_event(PlantFsmEvent::TemperaturePeaks(()));
    assert_eq!(fsm.season(), PlantSeason::Winter);
    fsm.trigger_event(PlantFsmEvent::TemperatureRises(()));
    assert_eq!(fsm.season(), PlantSeason::Spring);
    fsm.trigger_event(PlantFsmEvent::TemperaturePeaks(()));
    assert_eq!(fsm.season(), PlantSeason::Summer);
}
