//! How a drawn world event changes the weather, the sea and the risk level.

use crate::text::str_eq;
use crate::world::types::{RiskLevel, SeaCondition, Weather};
use vstd::prelude::*;

verus! {

/// The weather, sea and risk after the event `event_id`: rain falls on a
/// moderate sea, heat sets in, a storm brings a rough sea at high risk, a
/// fish shoal calms the sea; any other event leaves them as they were.
pub open spec fn conditions_after(
    event_id: Seq<char>,
    weather: Weather,
    sea: SeaCondition,
    risk: RiskLevel,
) -> (Weather, SeaCondition, RiskLevel) {
    if event_id == "rain"@ {
        (Weather::Rain, SeaCondition::Moderate, risk)
    } else if event_id == "heat"@ {
        (Weather::Heat, sea, risk)
    } else if event_id == "storm"@ {
        (Weather::Storm, SeaCondition::Rough, RiskLevel::High)
    } else if event_id == "fish_shoal"@ {
        (weather, SeaCondition::Calm, risk)
    } else {
        (weather, sea, risk)
    }
}

/// The weather, sea and risk after the event `event_id`.
pub fn event_conditions(
    event_id: &str,
    weather: Weather,
    sea: SeaCondition,
    risk: RiskLevel,
) -> (r: (Weather, SeaCondition, RiskLevel))
    ensures
        r == conditions_after(event_id@, weather, sea, risk),
{
    if str_eq(event_id, "rain") {
        (Weather::Rain, SeaCondition::Moderate, risk)
    } else if str_eq(event_id, "heat") {
        (Weather::Heat, sea, risk)
    } else if str_eq(event_id, "storm") {
        (Weather::Storm, SeaCondition::Rough, RiskLevel::High)
    } else if str_eq(event_id, "fish_shoal") {
        (weather, SeaCondition::Calm, risk)
    } else {
        (weather, sea, risk)
    }
}

} // verus!
