//! The user's preferences.

use crate::update_worker::SimulationScenario;
use vstd::prelude::*;

verus! {

/// How often updates run by themselves.
#[derive(Debug, Clone, Copy, PartialEq, Eq, Structural)]
pub enum UpdateInterval {
    Hourly,
    Daily,
    Weekly,
    Custom,
}

/// The place of an interval in the list that is offered to the user.
pub open spec fn interval_index(interval: UpdateInterval) -> int {
    match interval {
        UpdateInterval::Hourly => 0,
        UpdateInterval::Daily => 1,
        UpdateInterval::Weekly => 2,
        UpdateInterval::Custom => 3,
    }
}

/// The interval at a place of the list.
pub open spec fn interval_at(i: int) -> UpdateInterval {
    if i == 0 {
        UpdateInterval::Hourly
    } else if i == 1 {
        UpdateInterval::Daily
    } else if i == 2 {
        UpdateInterval::Weekly
    } else {
        UpdateInterval::Custom
    }
}

impl UpdateInterval {
    /// The place of the interval in the list that is offered to the user.
    pub fn to_index(&self) -> (res: u32)
        ensures
            res == interval_index(*self),
    {
        match self {
            UpdateInterval::Hourly => 0,
            UpdateInterval::Daily => 1,
            UpdateInterval::Weekly => 2,
            UpdateInterval::Custom => 3,
        }
    }

    /// The interval at a place of the list; the custom one beyond its end.
    pub fn from_index(i: u32) -> (res: UpdateInterval)
        ensures
            res == interval_at(i as int),
            interval_index(res) == if i < 3 {
                i as int
            } else {
                3
            },
    {
        match i {
            0 => UpdateInterval::Hourly,
            1 => UpdateInterval::Daily,
            2 => UpdateInterval::Weekly,
            _ => UpdateInterval::Custom,
        }
    }
}

/// Different intervals have different places, so a place leads back to its interval.
pub proof fn law_interval_index_injective(a: UpdateInterval, b: UpdateInterval)
    ensures
        interval_index(a) == interval_index(b) <==> a == b,
        0 <= interval_index(a) <= 3,
{
}

/// An image to pretend to be, in place of the one that is booted.
#[derive(Debug, Clone)]
pub struct MockIdentity {
    pub registry: String,
    pub org: String,
    pub image: String,
    pub tag: String,
}

/// All preferences that are kept between runs.
#[derive(Debug, Clone)]
pub struct Settings {
    /// Whether updates may run by themselves.
    pub auto_updates: bool,
    /// How often they run.
    pub update_interval: UpdateInterval,
    /// No automatic updates on a metered connection.
    pub pause_on_metered: bool,
    /// Hours between updates, for the custom interval.
    pub custom_interval_hours: u32,
    /// Simulate updates, without touching the system.
    pub dev_mode: bool,
    /// What a simulated update ends with.
    pub sim_scenario: SimulationScenario,
    /// Pretend to run this image.
    pub mock_identity: Option<MockIdentity>,
}

impl Default for Settings {
    fn default() -> (res: Settings)
        ensures
            res.auto_updates,
            res.update_interval == UpdateInterval::Daily,
            res.pause_on_metered,
            res.custom_interval_hours == 6,
            !res.dev_mode,
            res.sim_scenario == SimulationScenario::Success,
            res.mock_identity is None,
    {
        Settings {
            auto_updates: true,
            update_interval: UpdateInterval::Daily,
            pause_on_metered: true,
            custom_interval_hours: 6,
            dev_mode: false,
            sim_scenario: SimulationScenario::Success,
            mock_identity: None,
        }
    }
}

/// The list offers hourly, daily and weekly updates and then a custom interval, and each
/// place leads back to its interval.
pub proof fn law_interval_places(interval: UpdateInterval, i: int)
    ensures
        interval_index(UpdateInterval::Hourly) == 0,
        interval_index(UpdateInterval::Daily) == 1,
        interval_index(UpdateInterval::Weekly) == 2,
        interval_index(UpdateInterval::Custom) == 3,
        interval_at(interval_index(interval)) == interval,
        i < 0 || i >= 3 ==> interval_at(i) == UpdateInterval::Custom,
{
}

} // verus!
