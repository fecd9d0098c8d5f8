use ordered_float::NotNan;
use std::time::Duration;
use zincati::config::drogue::{DrogueFragment, DrogueInput, MqttFragment};
use zincati::config::fragments::{
    AgentFragment, AgentTiming, CincinnatiFragment, ConfigFragment, IdentityFragment,
    UpdateFleetLock, UpdateFragment, UpdatePeriodic,
};
use zincati::config::inputs::{
    AgentInput, CincinnatiInput, ConfigInput, IdentityInput, UpdateInput,
    DEFAULT_STEADY_INTERVAL_SECS,
};
use zincati::config::positive::{PositiveU16, PositiveU64};
use zincati::weekly::window::RawWindowSpec;
use zincati::weekly::{NormalizedInterval, WeeklyError};

fn no_updates() -> UpdateFragment {
    UpdateFragment {
        allow_downgrade: None,
        enabled: None,
        strategy: None,
        fleet_lock: None,
        periodic: None,
    }
}

fn windows(window: Vec<NormalizedInterval>) -> UpdateFragment {
    UpdateFragment {
        periodic: Some(UpdatePeriodic {
            window: Some(window),
            time_zone: None,
        }),
        ..no_updates()
    }
}

fn empty_fragment() -> ConfigFragment<NotNan<f64>> {
    ConfigFragment {
        agent: None,
        cincinnati: None,
        updates: None,
        identity: None,
    }
}

fn seconds(secs: u64) -> AgentFragment {
    AgentFragment {
        timing: Some(AgentTiming {
            steady_interval_secs: Some(PositiveU64::new(secs).unwrap()),
        }),
    }
}

const A: NormalizedInterval = NormalizedInterval {
    start: 600,
    length_minutes: 60,
};

const B: NormalizedInterval = NormalizedInterval {
    start: 10070,
    length_minutes: 30,
};

#[test]
fn positive_numbers_are_not_zero() {
    assert_eq!(PositiveU64::new(0), None);
    assert_eq!(PositiveU64::new(1).unwrap().get(), 1);
    assert_eq!(PositiveU64::new(u64::MAX).unwrap().get(), u64::MAX);
    assert_eq!(PositiveU16::new(0), None);
    assert_eq!(PositiveU16::new(8883).unwrap().get(), 8883);
}

#[test]
fn merge_of_no_fragment_gives_the_defaults() {
    let cfg = ConfigInput::<NotNan<f64>>::merge_fragments(Vec::new());
    assert_eq!(DEFAULT_STEADY_INTERVAL_SECS, 300);
    assert_eq!(cfg.agent.steady_interval_secs.get(), 300);
    assert_eq!(cfg.cincinnati.base_url, "");
    assert!(!cfg.updates.allow_downgrade);
    assert!(cfg.updates.enabled);
    assert_eq!(cfg.updates.strategy, "");
    assert_eq!(cfg.updates.fleet_lock.base_url, "");
    assert!(cfg.updates.periodic.intervals.is_empty());
    assert_eq!(cfg.updates.periodic.time_zone, "UTC");
    assert_eq!(cfg.identity.group, "");
    assert_eq!(cfg.identity.node_uuid, "");
    assert_eq!(cfg.identity.rollout_wariness, None);
}

#[test]
fn merge_of_empty_fragments_gives_the_defaults() {
    let cfg = ConfigInput::merge_fragments(vec![
        empty_fragment(),
        ConfigFragment {
            agent: Some(AgentFragment { timing: None }),
            cincinnati: Some(CincinnatiFragment { base_url: None }),
            updates: Some(UpdateFragment {
                fleet_lock: Some(UpdateFleetLock { base_url: None }),
                periodic: Some(UpdatePeriodic {
                    window: None,
                    time_zone: None,
                }),
                ..no_updates()
            }),
            identity: Some(IdentityFragment {
                group: None,
                node_uuid: None,
                rollout_wariness: None,
            }),
        },
        ConfigFragment {
            agent: Some(AgentFragment {
                timing: Some(AgentTiming {
                    steady_interval_secs: None,
                }),
            }),
            ..empty_fragment()
        },
    ]);
    assert_eq!(cfg.agent.steady_interval_secs.get(), 300);
    assert_eq!(cfg.cincinnati.base_url, "");
    assert!(cfg.updates.enabled);
    assert!(!cfg.updates.allow_downgrade);
    assert_eq!(cfg.updates.fleet_lock.base_url, "");
    assert!(cfg.updates.periodic.intervals.is_empty());
    assert_eq!(cfg.updates.periodic.time_zone, "UTC");
    assert_eq!(cfg.identity.rollout_wariness, None);
}

#[test]
fn settings_of_different_fragments_are_all_taken() {
    let cfg = UpdateInput::from_fragments(vec![
        UpdateFragment {
            strategy: Some("periodic".to_string()),
            ..no_updates()
        },
        UpdateFragment {
            enabled: Some(false),
            ..no_updates()
        },
    ]);
    assert!(!cfg.enabled);
    assert_eq!(cfg.strategy, "periodic");
    assert!(!cfg.allow_downgrade);
    assert_eq!(cfg.fleet_lock.base_url, "");
    assert_eq!(cfg.periodic.time_zone, "UTC");
    assert!(cfg.periodic.intervals.is_empty());
}

#[test]
fn last_fragment_wins_each_setting() {
    let cfg = UpdateInput::from_fragments(vec![
        UpdateFragment {
            allow_downgrade: Some(true),
            enabled: Some(false),
            strategy: Some("immediate".to_string()),
            fleet_lock: Some(UpdateFleetLock {
                base_url: Some("http://first.example.com".to_string()),
            }),
            periodic: Some(UpdatePeriodic {
                window: None,
                time_zone: Some("localtime".to_string()),
            }),
        },
        UpdateFragment {
            allow_downgrade: Some(false),
            enabled: Some(true),
            strategy: Some("fleet_lock".to_string()),
            fleet_lock: Some(UpdateFleetLock {
                base_url: Some("http://second.example.com".to_string()),
            }),
            periodic: Some(UpdatePeriodic {
                window: None,
                time_zone: Some("Europe/Rome".to_string()),
            }),
        },
        no_updates(),
        UpdateFragment {
            strategy: Some("periodic".to_string()),
            ..no_updates()
        },
    ]);
    assert!(!cfg.allow_downgrade);
    assert!(cfg.enabled);
    assert_eq!(cfg.strategy, "periodic");
    assert_eq!(cfg.fleet_lock.base_url, "http://second.example.com");
    assert_eq!(cfg.periodic.time_zone, "Europe/Rome");
}

#[test]
fn windows_of_all_fragments_are_kept() {
    let cfg = UpdateInput::from_fragments(vec![windows(vec![A]), windows(vec![B])]);
    assert_eq!(cfg.periodic.intervals, vec![A, B]);
    assert!(cfg.periodic.intervals.contains(&A));
    assert!(cfg.periodic.intervals.contains(&B));

    let cfg = UpdateInput::from_fragments(vec![
        windows(vec![B, A]),
        no_updates(),
        windows(vec![]),
        windows(vec![A]),
    ]);
    assert_eq!(cfg.periodic.intervals, vec![B, A, A]);
}

#[test]
fn agent_interval_is_the_last_given() {
    assert_eq!(
        AgentInput::from_fragments(Vec::new())
            .steady_interval_secs
            .get(),
        300
    );
    let cfg = AgentInput::from_fragments(vec![
        seconds(10),
        seconds(20),
        AgentFragment { timing: None },
    ]);
    assert_eq!(cfg.steady_interval_secs.get(), 20);
}

#[test]
fn cincinnati_url_is_the_last_given() {
    assert_eq!(CincinnatiInput::from_fragments(Vec::new()).base_url, "");
    let cfg = CincinnatiInput::from_fragments(vec![
        CincinnatiFragment {
            base_url: Some("http://one.example.com".to_string()),
        },
        CincinnatiFragment { base_url: None },
        CincinnatiFragment {
            base_url: Some("http://two.example.com".to_string()),
        },
        CincinnatiFragment { base_url: None },
    ]);
    assert_eq!(cfg.base_url, "http://two.example.com");
}

#[test]
fn identity_is_the_last_given() {
    let half = NotNan::new(0.5).unwrap();
    let cfg = IdentityInput::from_fragments(vec![
        IdentityFragment {
            group: Some("workers".to_string()),
            node_uuid: Some("27e3ac02af3946af995c9940e18b0cce".to_string()),
            rollout_wariness: Some(half),
        },
        IdentityFragment {
            group: Some("canaries".to_string()),
            node_uuid: None,
            rollout_wariness: None,
        },
    ]);
    assert_eq!(cfg.group, "canaries");
    assert_eq!(cfg.node_uuid, "27e3ac02af3946af995c9940e18b0cce");
    assert_eq!(cfg.rollout_wariness, Some(half));
}

#[test]
fn sections_are_merged_each_for_itself() {
    let cfg = ConfigInput::merge_fragments(vec![
        ConfigFragment {
            agent: Some(seconds(42)),
            cincinnati: Some(CincinnatiFragment {
                base_url: Some("http://cincinnati.example.com".to_string()),
            }),
            updates: Some(windows(vec![A])),
            identity: None,
        },
        ConfigFragment {
            agent: None,
            cincinnati: None,
            updates: Some(UpdateFragment {
                strategy: Some("periodic".to_string()),
                ..windows(vec![B])
            }),
            identity: Some(IdentityFragment {
                group: Some("workers".to_string()),
                node_uuid: None,
                rollout_wariness: Some(NotNan::new(0.25).unwrap()),
            }),
        },
    ]);
    assert_eq!(cfg.agent.steady_interval_secs.get(), 42);
    assert_eq!(cfg.cincinnati.base_url, "http://cincinnati.example.com");
    assert_eq!(cfg.updates.strategy, "periodic");
    assert_eq!(cfg.updates.periodic.intervals, vec![A, B]);
    assert_eq!(cfg.identity.group, "workers");
    assert_eq!(cfg.identity.rollout_wariness, Some(NotNan::new(0.25).unwrap()));
}

#[test]
fn periodic_section_is_built_from_declarations() {
    let declared = vec![RawWindowSpec {
        days: vec!["Sat".to_string(), "Sun".to_string()],
        start_time: "23:30".to_string(),
        length_minutes: 120,
    }];
    let periodic = UpdatePeriodic::build(Some(declared), Some("localtime".to_string())).unwrap();
    assert_eq!(
        periodic.window,
        Some(vec![
            NormalizedInterval {
                start: 5 * 1440 + 1410,
                length_minutes: 120
            },
            NormalizedInterval {
                start: 6 * 1440 + 1410,
                length_minutes: 120
            },
        ])
    );
    assert_eq!(periodic.time_zone, Some("localtime".to_string()));

    let periodic = UpdatePeriodic::build(None, None).unwrap();
    assert_eq!(periodic.window, None);
    assert_eq!(periodic.time_zone, None);

    let refused = UpdatePeriodic::build(
        Some(vec![RawWindowSpec {
            days: vec!["Sat".to_string()],
            start_time: "23.30".to_string(),
            length_minutes: 120,
        }]),
        None,
    );
    assert_eq!(
        refused.unwrap_err(),
        WeeklyError::InvalidTimeFormat("23.30".to_string())
    );
}

#[test]
fn drogue_defaults() {
    let cfg = DrogueInput::from_fragments(Vec::new());
    assert!(!cfg.enabled);
    assert_eq!(cfg.application, "");
    assert_eq!(cfg.device, None);
    assert_eq!(cfg.password, "");
    assert_eq!(cfg.mqtt.hostname, "");
    assert_eq!(cfg.mqtt.port.get(), 8883);
    assert!(!cfg.mqtt.disable_tls);
    assert!(!cfg.mqtt.insecure);
    assert_eq!(cfg.mqtt.initial_reconnect_delay, Duration::from_secs(1));
    assert_eq!(cfg.mqtt.keepalive, Duration::from_secs(60));
}

#[test]
fn drogue_settings_are_the_last_given() {
    let cfg = DrogueInput::from_fragments(vec![
        DrogueFragment {
            enabled: Some(true),
            application: Some("app".to_string()),
            device: Some("device1".to_string()),
            password: None,
            mqtt: Some(MqttFragment {
                hostname: Some("mqtt.example.com".to_string()),
                port: Some(PositiveU16::new(1883).unwrap()),
                disable_tls: Some(true),
                insecure: None,
                initial_reconnect_delay: Some(Duration::from_millis(1500)),
                keepalive: None,
            }),
        },
        DrogueFragment {
            enabled: None,
            application: Some("other".to_string()),
            device: None,
            password: Some("hunter2".to_string()),
            mqtt: Some(MqttFragment {
                hostname: None,
                port: None,
                disable_tls: Some(false),
                insecure: Some(true),
                initial_reconnect_delay: None,
                keepalive: Some(Duration::from_secs(5)),
            }),
        },
        DrogueFragment {
            enabled: None,
            application: None,
            device: None,
            password: None,
            mqtt: None,
        },
    ]);
    assert!(cfg.enabled);
    assert_eq!(cfg.application, "other");
    assert_eq!(cfg.device, Some("device1".to_string()));
    assert_eq!(cfg.password, "hunter2");
    assert_eq!(cfg.mqtt.hostname, "mqtt.example.com");
    assert_eq!(cfg.mqtt.port.get(), 1883);
    assert!(!cfg.mqtt.disable_tls);
    assert!(cfg.mqtt.insecure);
    assert_eq!(cfg.mqtt.initial_reconnect_delay, Duration::from_millis(1500));
    assert_eq!(cfg.mqtt.keepalive, Duration::from_secs(5));
}
