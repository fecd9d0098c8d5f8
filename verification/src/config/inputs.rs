//! The merged configuration, and the overlay that builds it from fragments.
//!
//! Fragments are merged in the order given, lowest priority first. A scalar
//! setting is overridden: the last fragment that gives it decides it. The
//! list of update windows is accumulated: every fragment adds to it.

use crate::config::fragments;
use crate::config::fragments::text;
use crate::config::positive::PositiveU64;
use crate::weekly::NormalizedInterval;
use vstd::prelude::*;

verus! {

/// An overridden setting after a run of fragments: what the last fragment
/// that gives it says, or the default where none gives it. `given` reads the
/// setting out of a fragment.
pub open spec fn last_given<F, T>(fragments: Seq<F>, given: spec_fn(F) -> Option<T>, default: T) -> T
    decreases fragments.len(),
{
    if fragments.len() == 0 {
        default
    } else {
        match given(fragments.last()) {
            Some(value) => value,
            None => last_given(fragments.drop_last(), given, default),
        }
    }
}

/// An accumulated setting after a run of fragments: what each fragment adds,
/// one after the other in the fragments' order. `added` reads the additions
/// out of a fragment.
pub open spec fn all_added<F, T>(fragments: Seq<F>, added: spec_fn(F) -> Seq<T>) -> Seq<T>
    decreases fragments.len(),
{
    if fragments.len() == 0 {
        Seq::empty()
    } else {
        all_added(fragments.drop_last(), added) + added(fragments.last())
    }
}

/// Last fragment wins: where a fragment gives an overridden setting and no
/// later fragment gives it, the merged setting is that fragment's value,
/// whatever the fragments before it say.
pub proof fn lemma_last_fragment_wins<F, T>(
    fragments: Seq<F>,
    given: spec_fn(F) -> Option<T>,
    default: T,
    i: int,
)
    requires
        0 <= i < fragments.len(),
        given(fragments[i]) is Some,
        forall|j: int| i < j < fragments.len() ==> given(#[trigger] fragments[j]) is None,
    ensures
        last_given(fragments, given, default) == given(fragments[i])->0,
    decreases fragments.len(),
{
    if i < fragments.len() - 1 {
        assert(given(fragments[fragments.len() - 1]) is None);
        let earlier = fragments.drop_last();
        assert forall|j: int| i < j < earlier.len() implies given(#[trigger] earlier[j]) is None by {
            assert(earlier[j] == fragments[j]);
        }
        lemma_last_fragment_wins(earlier, given, default, i);
    }
}

/// Defaults fill the rest: an overridden setting that no fragment gives has
/// its default.
pub proof fn lemma_default_where_none_given<F, T>(
    fragments: Seq<F>,
    given: spec_fn(F) -> Option<T>,
    default: T,
)
    requires
        forall|j: int| 0 <= j < fragments.len() ==> given(#[trigger] fragments[j]) is None,
    ensures
        last_given(fragments, given, default) == default,
    decreases fragments.len(),
{
    if fragments.len() > 0 {
        assert(given(fragments[fragments.len() - 1]) is None);
        let earlier = fragments.drop_last();
        assert forall|j: int| 0 <= j < earlier.len() implies given(#[trigger] earlier[j]) is None by {
            assert(earlier[j] == fragments[j]);
        }
        lemma_default_where_none_given(earlier, given, default);
    }
}

/// Accumulation keeps the order of the fragments: what two runs of fragments
/// add, one after the other, is what the first run adds and then what the
/// second adds.
pub proof fn lemma_all_added_in_order<F, T>(first: Seq<F>, second: Seq<F>, added: spec_fn(F) -> Seq<T>)
    ensures
        all_added(first + second, added) == all_added(first, added) + all_added(second, added),
    decreases second.len(),
{
    if second.len() == 0 {
        assert(first + second =~= first);
        assert(all_added(first, added) + all_added(second, added) =~= all_added(first, added));
    } else {
        assert((first + second).drop_last() =~= first + second.drop_last());
        assert((first + second).last() == second.last());
        lemma_all_added_in_order(first, second.drop_last(), added);
        assert((all_added(first, added) + all_added(second.drop_last(), added)) + added(
            second.last(),
        ) =~= all_added(first, added) + (all_added(second.drop_last(), added) + added(
            second.last(),
        )));
    }
}

/// Accumulation drops nothing: whatever a fragment adds is in the
/// accumulated setting, wherever the fragment stands.
pub proof fn lemma_all_added_keeps<F, T>(
    fragments: Seq<F>,
    added: spec_fn(F) -> Seq<T>,
    i: int,
    k: int,
)
    requires
        0 <= i < fragments.len(),
        0 <= k < added(fragments[i]).len(),
    ensures
        all_added(fragments, added).contains(added(fragments[i])[k]),
    decreases fragments.len(),
{
    let earlier = all_added(fragments.drop_last(), added);
    let last = added(fragments.last());
    if i == fragments.len() - 1 {
        assert((earlier + last)[earlier.len() + k] == last[k]);
    } else {
        lemma_all_added_keeps(fragments.drop_last(), added, i, k);
        let at = choose|at: int| 0 <= at < earlier.len() && earlier[at] == added(fragments[i])[k];
        assert((earlier + last)[at] == earlier[at]);
    }
}

/// Accumulation invents nothing: whatever is in the accumulated setting was
/// added by one of the fragments.
pub proof fn lemma_all_added_only<F, T>(fragments: Seq<F>, added: spec_fn(F) -> Seq<T>, n: int)
    requires
        0 <= n < all_added(fragments, added).len(),
    ensures
        exists|i: int, k: int|
            0 <= i < fragments.len() && 0 <= k < added(fragments[i]).len() && all_added(
                fragments,
                added,
            )[n] == #[trigger] added(fragments[i])[k],
    decreases fragments.len(),
{
    let earlier = all_added(fragments.drop_last(), added);
    let last = added(fragments.last());
    if n < earlier.len() {
        lemma_all_added_only(fragments.drop_last(), added, n);
        let (i, k) = choose|i: int, k: int|
            0 <= i < fragments.drop_last().len() && 0 <= k < added(fragments.drop_last()[i]).len()
                && earlier[n] == #[trigger] added(fragments.drop_last()[i])[k];
        assert(fragments.drop_last()[i] == fragments[i]);
        assert(all_added(fragments, added)[n] == added(fragments[i])[k]);
    } else {
        let i = fragments.len() - 1;
        let k = n - earlier.len();
        assert(all_added(fragments, added)[n] == added(fragments[i])[k]);
    }
}

/// The one value of a setting that is there, or none.
pub open spec fn present<T>(section: Option<T>) -> Seq<T> {
    match section {
        Some(value) => seq![value],
        None => Seq::empty(),
    }
}

/// Default pausing interval between updates checks in steady mode, in seconds.
pub const DEFAULT_STEADY_INTERVAL_SECS: u64 = 300;

/// Runtime configuration holding environmental inputs. `W` is the type of
/// the rollout wariness, which is only carried along.
#[derive(Debug)]
pub struct ConfigInput<W> {
    pub agent: AgentInput,
    pub cincinnati: CincinnatiInput,
    pub updates: UpdateInput,
    pub identity: IdentityInput<W>,
}

/// What a `ConfigInput` holds, with each text as a sequence of characters.
pub struct ConfigSettings<W> {
    pub steady_interval_secs: u64,
    pub cincinnati_base_url: Seq<char>,
    pub updates: UpdateSettings,
    pub identity: IdentitySettings<W>,
}

impl<W> View for ConfigInput<W> {
    type V = ConfigSettings<W>;

    open spec fn view(&self) -> ConfigSettings<W> {
        ConfigSettings {
            steady_interval_secs: self.agent.steady_interval_secs@,
            cincinnati_base_url: self.cincinnati.base_url@,
            updates: self.updates@,
            identity: self.identity@,
        }
    }
}

impl<W> ConfigInput<W> {
    /// The agent sections of the fragments that have one, in order.
    pub open spec fn agent_sections(fragments: Seq<fragments::ConfigFragment<W>>) -> Seq<
        fragments::AgentFragment,
    > {
        all_added(fragments, |f: fragments::ConfigFragment<W>| present(f.agent))
    }

    /// The Cincinnati sections of the fragments that have one, in order.
    pub open spec fn cincinnati_sections(fragments: Seq<fragments::ConfigFragment<W>>) -> Seq<
        fragments::CincinnatiFragment,
    > {
        all_added(fragments, |f: fragments::ConfigFragment<W>| present(f.cincinnati))
    }

    /// The update sections of the fragments that have one, in order.
    pub open spec fn update_sections(fragments: Seq<fragments::ConfigFragment<W>>) -> Seq<
        fragments::UpdateFragment,
    > {
        all_added(fragments, |f: fragments::ConfigFragment<W>| present(f.updates))
    }

    /// The identity sections of the fragments that have one, in order.
    pub open spec fn identity_sections(fragments: Seq<fragments::ConfigFragment<W>>) -> Seq<
        fragments::IdentityFragment<W>,
    > {
        all_added(fragments, |f: fragments::ConfigFragment<W>| present(f.identity))
    }

    /// The configuration that a run of fragments merges into: each part is
    /// merged from the sections that the fragments have for it.
    pub open spec fn merged(fragments: Seq<fragments::ConfigFragment<W>>) -> ConfigSettings<W> {
        ConfigSettings {
            steady_interval_secs: AgentInput::merged(Self::agent_sections(fragments)),
            cincinnati_base_url: CincinnatiInput::merged(Self::cincinnati_sections(fragments)),
            updates: UpdateInput::merged(Self::update_sections(fragments)),
            identity: IdentityInput::merged(Self::identity_sections(fragments)),
        }
    }

    /// Merge multiple fragments into a single configuration.
    ///
    /// The fragments come lowest priority first. The merge never fails, and
    /// with no fragment at all it gives the defaults.
    pub fn merge_fragments(fragments: Vec<fragments::ConfigFragment<W>>) -> (cfg: Self)
        ensures
            cfg@ == Self::merged(fragments@),
            cfg@.steady_interval_secs > 0,
    {
        let mut agents = Vec::new();
        let mut cincinnatis = Vec::new();
        let mut updates = Vec::new();
        let mut identities = Vec::new();
        let ghost all = fragments@;

        for snip in it: fragments
            invariant
                it.seq() == all,
                agents@ == Self::agent_sections(all.take(it.index())),
                cincinnatis@ == Self::cincinnati_sections(all.take(it.index())),
                updates@ == Self::update_sections(all.take(it.index())),
                identities@ == Self::identity_sections(all.take(it.index())),
        {
            proof {
                assert(all.take(it.index() + 1).drop_last() =~= all.take(it.index()));
            }
            let ghost before = (agents@, cincinnatis@, updates@, identities@);
            if let Some(a) = snip.agent {
                agents.push(a);
                assert(agents@ =~= before.0 + seq![a]);
            }
            if let Some(c) = snip.cincinnati {
                cincinnatis.push(c);
                assert(cincinnatis@ =~= before.1 + seq![c]);
            }
            if let Some(f) = snip.updates {
                updates.push(f);
                assert(updates@ =~= before.2 + seq![f]);
            }
            if let Some(i) = snip.identity {
                identities.push(i);
                assert(identities@ =~= before.3 + seq![i]);
            }
            assert(agents@ =~= before.0 + present(snip.agent));
            assert(cincinnatis@ =~= before.1 + present(snip.cincinnati));
            assert(updates@ =~= before.2 + present(snip.updates));
            assert(identities@ =~= before.3 + present(snip.identity));
        }
        proof {
            assert(all.take(all.len() as int) =~= all);
        }

        Self {
            agent: AgentInput::from_fragments(agents),
            cincinnati: CincinnatiInput::from_fragments(cincinnatis),
            updates: UpdateInput::from_fragments(updates),
            identity: IdentityInput::from_fragments(identities),
        }
    }
}

/// Config for the agent.
#[derive(Debug)]
pub struct AgentInput {
    /// Pausing interval between updates checks in steady mode, in seconds.
    pub steady_interval_secs: PositiveU64,
}

impl AgentInput {
    /// The steady interval that a run of fragments merges into.
    pub open spec fn merged(fragments: Seq<fragments::AgentFragment>) -> u64 {
        last_given(
            fragments,
            |f: fragments::AgentFragment| f.steady_interval_secs(),
            DEFAULT_STEADY_INTERVAL_SECS,
        )
    }

    /// Merge fragments into a single config.
    pub fn from_fragments(fragments: Vec<fragments::AgentFragment>) -> (cfg: Self)
        ensures
            cfg.steady_interval_secs@ == Self::merged(fragments@),
            cfg.steady_interval_secs@ > 0,
    {
        let mut cfg = Self {
            steady_interval_secs: PositiveU64::new(DEFAULT_STEADY_INTERVAL_SECS).unwrap(),
        };
        let ghost all = fragments@;

        for snip in it: fragments
            invariant
                it.seq() == all,
                cfg.steady_interval_secs@ == Self::merged(all.take(it.index())),
        {
            proof {
                assert(all.take(it.index() + 1).drop_last() =~= all.take(it.index()));
            }
            if let Some(timing) = snip.timing {
                if let Some(s) = timing.steady_interval_secs {
                    cfg.steady_interval_secs = s;
                }
            }
        }
        proof {
            assert(all.take(all.len() as int) =~= all);
        }
        let _ = cfg.steady_interval_secs.get();

        cfg
    }
}

/// Config for the Cincinnati client.
#[derive(Debug)]
pub struct CincinnatiInput {
    /// Base URL (template) for the Cincinnati service.
    pub base_url: String,
}

impl CincinnatiInput {
    /// The base URL that a run of fragments merges into.
    pub open spec fn merged(fragments: Seq<fragments::CincinnatiFragment>) -> Seq<char> {
        last_given(fragments, |f: fragments::CincinnatiFragment| text(f.base_url), Seq::empty())
    }

    /// Merge fragments into a single config.
    pub fn from_fragments(fragments: Vec<fragments::CincinnatiFragment>) -> (cfg: Self)
        ensures
            cfg.base_url@ == Self::merged(fragments@),
    {
        let mut cfg = Self { base_url: String::new() };
        let ghost all = fragments@;

        for snip in it: fragments
            invariant
                it.seq() == all,
                cfg.base_url@ == Self::merged(all.take(it.index())),
        {
            proof {
                assert(all.take(it.index() + 1).drop_last() =~= all.take(it.index()));
            }
            if let Some(u) = snip.base_url {
                cfg.base_url = u;
            }
        }
        proof {
            assert(all.take(all.len() as int) =~= all);
        }

        cfg
    }
}

/// Config for the agent identity.
#[derive(Debug)]
pub struct IdentityInput<W> {
    pub group: String,
    pub node_uuid: String,
    pub rollout_wariness: Option<W>,
}

/// What an `IdentityInput` holds, with each text as a sequence of characters.
pub struct IdentitySettings<W> {
    pub group: Seq<char>,
    pub node_uuid: Seq<char>,
    pub rollout_wariness: Option<W>,
}

impl<W> View for IdentityInput<W> {
    type V = IdentitySettings<W>;

    open spec fn view(&self) -> IdentitySettings<W> {
        IdentitySettings {
            group: self.group@,
            node_uuid: self.node_uuid@,
            rollout_wariness: self.rollout_wariness,
        }
    }
}

impl<W> IdentityInput<W> {
    /// The identity that a run of fragments merges into. The group and the
    /// node identifier are empty and there is no rollout wariness unless a
    /// fragment says otherwise.
    pub open spec fn merged(fragments: Seq<fragments::IdentityFragment<W>>) -> IdentitySettings<W> {
        IdentitySettings {
            group: last_given(
                fragments,
                |f: fragments::IdentityFragment<W>| text(f.group),
                Seq::empty(),
            ),
            node_uuid: last_given(
                fragments,
                |f: fragments::IdentityFragment<W>| text(f.node_uuid),
                Seq::empty(),
            ),
            rollout_wariness: last_given(
                fragments,
                |f: fragments::IdentityFragment<W>| f.given_rollout_wariness(),
                None,
            ),
        }
    }

    /// Merge fragments into a single config.
    pub fn from_fragments(fragments: Vec<fragments::IdentityFragment<W>>) -> (cfg: Self)
        ensures
            cfg@ == Self::merged(fragments@),
    {
        let mut cfg = Self { group: String::new(), node_uuid: String::new(), rollout_wariness: None };
        let ghost all = fragments@;

        for snip in it: fragments
            invariant
                it.seq() == all,
                cfg@ == Self::merged(all.take(it.index())),
        {
            proof {
                assert(all.take(it.index() + 1).drop_last() =~= all.take(it.index()));
            }
            if let Some(g) = snip.group {
                cfg.group = g;
            }
            if let Some(nu) = snip.node_uuid {
                cfg.node_uuid = nu;
            }
            if let Some(rw) = snip.rollout_wariness {
                cfg.rollout_wariness = Some(rw);
            }
        }
        proof {
            assert(all.take(all.len() as int) =~= all);
        }

        cfg
    }
}

/// Config for update logic.
#[derive(Debug)]
pub struct UpdateInput {
    /// Whether to enable automatic downgrades.
    pub allow_downgrade: bool,
    /// Whether to enable auto-updates logic.
    pub enabled: bool,
    /// Update strategy.
    pub strategy: String,
    /// `fleet_lock` strategy config.
    pub fleet_lock: FleetLockInput,
    /// `periodic` strategy config.
    pub periodic: PeriodicInput,
}

/// Config for "fleet_lock" strategy.
#[derive(Debug)]
pub struct FleetLockInput {
    /// Base URL (template) for the FleetLock service.
    pub base_url: String,
}

/// Config for "periodic" strategy.
#[derive(Debug)]
pub struct PeriodicInput {
    /// Set of updates windows.
    pub intervals: Vec<NormalizedInterval>,
    /// A time zone in the IANA Time Zone Database or "localtime".
    /// Defaults to "UTC".
    pub time_zone: String,
}

/// What an `UpdateInput` holds, with each text as a sequence of characters.
pub struct UpdateSettings {
    pub allow_downgrade: bool,
    pub enabled: bool,
    pub strategy: Seq<char>,
    pub fleet_lock_base_url: Seq<char>,
    pub intervals: Seq<NormalizedInterval>,
    pub time_zone: Seq<char>,
}

impl View for UpdateInput {
    type V = UpdateSettings;

    open spec fn view(&self) -> UpdateSettings {
        UpdateSettings {
            allow_downgrade: self.allow_downgrade,
            enabled: self.enabled,
            strategy: self.strategy@,
            fleet_lock_base_url: self.fleet_lock.base_url@,
            intervals: self.periodic.intervals@,
            time_zone: self.periodic.time_zone@,
        }
    }
}

impl UpdateInput {
    /// The update settings that a run of fragments merges into. Updates are
    /// enabled, downgrades are not allowed, the time zone is UTC and every
    /// other text is empty unless a fragment says otherwise; the update
    /// windows of all fragments are kept.
    pub open spec fn merged(fragments: Seq<fragments::UpdateFragment>) -> UpdateSettings {
        UpdateSettings {
            allow_downgrade: last_given(
                fragments,
                |f: fragments::UpdateFragment| f.allow_downgrade,
                false,
            ),
            enabled: last_given(fragments, |f: fragments::UpdateFragment| f.enabled, true),
            strategy: last_given(
                fragments,
                |f: fragments::UpdateFragment| text(f.strategy),
                Seq::empty(),
            ),
            fleet_lock_base_url: last_given(
                fragments,
                |f: fragments::UpdateFragment| f.fleet_lock_base_url(),
                Seq::empty(),
            ),
            intervals: all_added(fragments, |f: fragments::UpdateFragment| f.windows()),
            time_zone: last_given(fragments, |f: fragments::UpdateFragment| f.time_zone(), "UTC"@),
        }
    }

    /// Merge fragments into a single config.
    pub fn from_fragments(fragments: Vec<fragments::UpdateFragment>) -> (cfg: Self)
        ensures
            cfg@ == Self::merged(fragments@),
    {
        let mut allow_downgrade = false;
        let mut enabled = true;
        let mut strategy = String::new();
        let mut fleet_lock = FleetLockInput { base_url: String::new() };
        let mut periodic = PeriodicInput { intervals: Vec::new(), time_zone: "UTC".to_owned() };
        let ghost all = fragments@;

        for snip in it: fragments
            invariant
                it.seq() == all,
                (UpdateSettings {
                    allow_downgrade,
                    enabled,
                    strategy: strategy@,
                    fleet_lock_base_url: fleet_lock.base_url@,
                    intervals: periodic.intervals@,
                    time_zone: periodic.time_zone@,
                }) == Self::merged(all.take(it.index())),
        {
            proof {
                assert(all.take(it.index() + 1).drop_last() =~= all.take(it.index()));
            }
            if let Some(a) = snip.allow_downgrade {
                allow_downgrade = a;
            }
            if let Some(e) = snip.enabled {
                enabled = e;
            }
            if let Some(s) = snip.strategy {
                strategy = s;
            }
            if let Some(fl) = snip.fleet_lock {
                if let Some(b) = fl.base_url {
                    fleet_lock.base_url = b;
                }
            }
            if let Some(w) = snip.periodic {
                if let Some(tz) = w.time_zone {
                    periodic.time_zone = tz;
                }
                if let Some(mut win) = w.window {
                    periodic.intervals.append(&mut win);
                }
            }
        }
        proof {
            assert(all.take(all.len() as int) =~= all);
        }

        Self { allow_downgrade, enabled, strategy, fleet_lock, periodic }
    }
}

/// Fragments whose update windows are all valid merge into update settings
/// whose windows are all valid.
pub proof fn lemma_merged_windows_valid(fragments: Seq<fragments::UpdateFragment>)
    requires
        forall|i: int| 0 <= i < fragments.len() ==> (#[trigger] fragments[i]).valid(),
    ensures
        forall|n: int|
            0 <= n < UpdateInput::merged(fragments).intervals.len() ==> (
            #[trigger] UpdateInput::merged(fragments).intervals[n]).valid(),
{
    let added = |f: fragments::UpdateFragment| f.windows();
    assert forall|n: int| 0 <= n < UpdateInput::merged(fragments).intervals.len() implies (
    #[trigger] UpdateInput::merged(fragments).intervals[n]).valid() by {
        lemma_all_added_only(fragments, added, n);
        let (i, k) = choose|i: int, k: int|
            0 <= i < fragments.len() && 0 <= k < added(fragments[i]).len() && all_added(
                fragments,
                added,
            )[n] == #[trigger] added(fragments[i])[k];
        assert(fragments[i].valid());
        assert(fragments[i].windows()[k].valid());
    }
}

/// Merging no fragment at all gives the defaults: the default steady
/// interval, which is not zero; updates enabled and no downgrades; the time
/// zone "UTC"; no update window, no rollout wariness, and every other text
/// empty.
pub proof fn lemma_merge_of_nothing<W>()
    ensures
        ConfigInput::<W>::merged(Seq::empty()) == (ConfigSettings::<W> {
            steady_interval_secs: DEFAULT_STEADY_INTERVAL_SECS,
            cincinnati_base_url: Seq::empty(),
            updates: UpdateSettings {
                allow_downgrade: false,
                enabled: true,
                strategy: Seq::empty(),
                fleet_lock_base_url: Seq::empty(),
                intervals: Seq::empty(),
                time_zone: "UTC"@,
            },
            identity: IdentitySettings { group: Seq::empty(), node_uuid: Seq::empty(), rollout_wariness: None },
        }),
        DEFAULT_STEADY_INTERVAL_SECS > 0,
{
}

} // verus!
