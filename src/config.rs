use vstd::prelude::*;

verus! {

/// The event-wide settings, held once per store.
#[derive(Clone, Debug)]
pub struct RaceConfig {
    pub num_lanes: i64,
    pub timer_port: Option<String>,
    pub heats_per_scout: i64,
    pub scoring_method: String,
}

/// Whether `c` holds the settings a fresh store starts with.
pub open spec fn is_default_config(c: RaceConfig) -> bool {
    &&& c.num_lanes == 4
    &&& c.timer_port is None
    &&& c.heats_per_scout == 3
    &&& c.scoring_method@ == "points"@
}

impl RaceConfig {
    /// The settings written when a store is first initialized.
    pub fn defaults() -> (r: RaceConfig)
        ensures
            is_default_config(r),
    {
        RaceConfig {
            num_lanes: 4,
            timer_port: None,
            heats_per_scout: 3,
            scoring_method: "points".to_owned(),
        }
    }
}

/// What the configuration slot holds after initialization: the settings
/// already there, or the defaults when the slot was empty.
pub open spec fn config_after_init(current: Option<RaceConfig>, r: RaceConfig) -> bool {
    match current {
        Some(c) => r == c,
        None => is_default_config(r),
    }
}

/// Fills an empty configuration slot with the defaults and leaves a filled
/// one as it is.
pub fn bootstrap_config(current: Option<RaceConfig>) -> (r: RaceConfig)
    ensures
        config_after_init(current, r),
{
    match current {
        Some(c) => c,
        None => RaceConfig::defaults(),
    }
}

/// Initializing a slot that initialization already filled changes nothing.
pub proof fn lemma_bootstrap_idempotent(current: Option<RaceConfig>, first: RaceConfig, second: RaceConfig)
    requires
        config_after_init(current, first),
        config_after_init(Some(first), second),
    ensures
        second == first,
{
}

} // verus!
