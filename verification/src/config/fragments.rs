//! Configuration fragments: partial documents in which every setting is optional.
//!
//! A fragment stands for one file. It says nothing about a setting that it
//! leaves out: defaults come in only when fragments are merged.

use crate::config::positive::PositiveU64;
use crate::weekly::window::{build_intervals, expansions, RawWindowSpec};
use crate::weekly::{NormalizedInterval, WeeklyError};
use vstd::prelude::*;

verus! {

/// Top-level configuration stanza.
#[derive(Debug)]
pub struct ConfigFragment<W> {
    /// Agent configuration.
    pub agent: Option<AgentFragment>,
    /// Cincinnati client configuration.
    pub cincinnati: Option<CincinnatiFragment>,
    /// Update logic configuration.
    pub updates: Option<UpdateFragment>,
    /// Agent identity.
    pub identity: Option<IdentityFragment<W>>,
}

/// Config fragment for the agent.
#[derive(Debug)]
pub struct AgentFragment {
    /// Timing settings for the agent.
    pub timing: Option<AgentTiming>,
}

/// Timing settings for the agent.
#[derive(Debug)]
pub struct AgentTiming {
    /// Pausing interval between updates checks in steady mode, in seconds.
    pub steady_interval_secs: Option<PositiveU64>,
}

/// Config fragment for the Cincinnati client.
#[derive(Debug)]
pub struct CincinnatiFragment {
    /// Base URL (template) for the Cincinnati service.
    pub base_url: Option<String>,
}

/// Config fragment for the agent identity. `W` is the type of the rollout
/// wariness, which is only carried along.
#[derive(Debug)]
pub struct IdentityFragment<W> {
    /// Update group for this agent.
    pub group: Option<String>,
    /// Unique identifier of this agent.
    pub node_uuid: Option<String>,
    /// Update throttle for this agent.
    pub rollout_wariness: Option<W>,
}

/// Config fragment for update logic.
#[derive(Debug)]
pub struct UpdateFragment {
    /// Whether to enable automatic downgrades.
    pub allow_downgrade: Option<bool>,
    /// Whether to enable auto-updates logic.
    pub enabled: Option<bool>,
    /// Update strategy.
    pub strategy: Option<String>,
    /// `fleet_lock` strategy config.
    pub fleet_lock: Option<UpdateFleetLock>,
    /// `periodic` strategy config.
    pub periodic: Option<UpdatePeriodic>,
}

/// Config fragment for the `fleet_lock` update strategy.
#[derive(Debug)]
pub struct UpdateFleetLock {
    /// Base URL (template) for the FleetLock service.
    pub base_url: Option<String>,
}

/// Config fragment for the `periodic` update strategy.
#[derive(Debug)]
pub struct UpdatePeriodic {
    /// The update windows that the fragment declares, one for each day of
    /// each declaration.
    pub window: Option<Vec<NormalizedInterval>>,
    /// A time zone in the IANA Time Zone Database or "localtime".
    pub time_zone: Option<String>,
}

/// The text of a string setting, where the fragment gives one.
pub open spec fn text(setting: Option<String>) -> Option<Seq<char>> {
    match setting {
        Some(s) => Some(s@),
        None => None,
    }
}

impl AgentFragment {
    /// The steady interval that the fragment gives, if any.
    pub open spec fn steady_interval_secs(self) -> Option<u64> {
        match self.timing {
            Some(timing) => match timing.steady_interval_secs {
                Some(secs) => Some(secs@),
                None => None,
            },
            None => None,
        }
    }
}

impl<W> IdentityFragment<W> {
    /// The rollout wariness that the fragment sets, if it sets one.
    pub open spec fn given_rollout_wariness(self) -> Option<Option<W>> {
        match self.rollout_wariness {
            Some(wariness) => Some(Some(wariness)),
            None => None,
        }
    }
}

impl UpdatePeriodic {
    /// Every update window of the section is valid.
    pub open spec fn valid(self) -> bool {
        self.window matches Some(window) ==> forall|i: int|
            0 <= i < window.len() ==> (#[trigger] window[i]).valid()
    }

    /// The periodic section of a fragment, from the update windows as the
    /// fragment declares them and the time zone it gives.
    ///
    /// The declarations are expanded into weekly intervals here, and the
    /// first that cannot be read fails the section.
    pub fn build(window: Option<Vec<RawWindowSpec>>, time_zone: Option<String>) -> (res: Result<
        Self,
        WeeklyError,
    >)
        ensures
            match window {
                None => res matches Ok(periodic) && periodic.window is None && periodic.time_zone
                    == time_zone,
                Some(declared) => match expansions(declared@) {
                    Ok(intervals) => res matches Ok(periodic) && periodic.window matches Some(
                        built,
                    ) && built@ == intervals && periodic.time_zone == time_zone,
                    Err(rejection) => res matches Err(e) && e@ == rejection,
                },
            },
            res matches Ok(periodic) ==> periodic.valid(),
    {
        let window = match window {
            None => None,
            Some(declared) => match build_intervals(&declared) {
                Ok(intervals) => Some(intervals),
                Err(e) => {
                    return Err(e);
                },
            },
        };
        Ok(Self { window, time_zone })
    }
}

impl UpdateFragment {
    /// The FleetLock base URL that the fragment gives, if any.
    pub open spec fn fleet_lock_base_url(self) -> Option<Seq<char>> {
        match self.fleet_lock {
            Some(fleet_lock) => text(fleet_lock.base_url),
            None => None,
        }
    }

    /// The time zone that the fragment gives, if any.
    pub open spec fn time_zone(self) -> Option<Seq<char>> {
        match self.periodic {
            Some(periodic) => text(periodic.time_zone),
            None => None,
        }
    }

    /// Every update window of the fragment is valid.
    pub open spec fn valid(self) -> bool {
        forall|i: int| 0 <= i < self.windows().len() ==> (#[trigger] self.windows()[i]).valid()
    }

    /// The update windows that the fragment declares, in its order.
    pub open spec fn windows(self) -> Seq<NormalizedInterval> {
        match self.periodic {
            Some(periodic) => match periodic.window {
                Some(window) => window@,
                None => Seq::empty(),
            },
            None => Seq::empty(),
        }
    }
}

} // verus!
