//! Configuration of the Drogue IoT agent: a part of its own, with its own
//! fragments and its own merge, taken or left as a whole.

use crate::config::fragments::text;
use crate::config::inputs::last_given;
use crate::config::positive::PositiveU16;
use crate::weekly::utils::{duration_secs, duration_subsec_nanos};
use std::time::Duration;
use vstd::prelude::*;

verus! {

/// Config fragment for the Drogue IoT agent.
#[derive(Debug)]
pub struct DrogueFragment {
    /// Whether to enable the agent.
    pub enabled: Option<bool>,
    /// The application that the device belongs to.
    pub application: Option<String>,
    /// The name of the device.
    pub device: Option<String>,
    /// The password of the device.
    pub password: Option<String>,
    /// Settings of the MQTT connection.
    pub mqtt: Option<MqttFragment>,
}

/// Config fragment for the MQTT connection of the Drogue IoT agent.
#[derive(Debug)]
pub struct MqttFragment {
    pub hostname: Option<String>,
    pub port: Option<PositiveU16>,
    pub disable_tls: Option<bool>,
    pub insecure: Option<bool>,
    pub initial_reconnect_delay: Option<Duration>,
    pub keepalive: Option<Duration>,
}

/// Config for the Drogue IoT agent.
#[derive(Debug)]
pub struct DrogueInput {
    pub enabled: bool,
    pub application: String,
    pub device: Option<String>,
    pub password: String,
    pub mqtt: MqttInput,
}

/// Config for the MQTT connection of the Drogue IoT agent.
#[derive(Debug)]
pub struct MqttInput {
    pub hostname: String,
    pub port: PositiveU16,
    pub disable_tls: bool,
    pub insecure: bool,
    pub initial_reconnect_delay: Duration,
    pub keepalive: Duration,
}

/// A length of time: whole seconds, and nanoseconds beyond them.
pub struct Span {
    pub secs: u64,
    pub subsec_nanos: u32,
}

/// The length of a duration.
pub open spec fn span(length: Duration) -> Span {
    Span { secs: duration_secs(length), subsec_nanos: duration_subsec_nanos(length) }
}

/// What a `DrogueInput` holds, with each text as a sequence of characters
/// and each duration as its length.
pub struct DrogueSettings {
    pub enabled: bool,
    pub application: Seq<char>,
    pub device: Option<Seq<char>>,
    pub password: Seq<char>,
    pub hostname: Seq<char>,
    pub port: u16,
    pub disable_tls: bool,
    pub insecure: bool,
    pub initial_reconnect_delay: Span,
    pub keepalive: Span,
}

impl View for DrogueInput {
    type V = DrogueSettings;

    open spec fn view(&self) -> DrogueSettings {
        DrogueSettings {
            enabled: self.enabled,
            application: self.application@,
            device: text(self.device),
            password: self.password@,
            hostname: self.mqtt.hostname@,
            port: self.mqtt.port@,
            disable_tls: self.mqtt.disable_tls,
            insecure: self.mqtt.insecure,
            initial_reconnect_delay: span(self.mqtt.initial_reconnect_delay),
            keepalive: span(self.mqtt.keepalive),
        }
    }
}

impl DrogueFragment {
    /// The device name that the fragment sets, if it sets one.
    pub open spec fn given_device(self) -> Option<Option<Seq<char>>> {
        match self.device {
            Some(device) => Some(Some(device@)),
            None => None,
        }
    }

    /// The MQTT host name that the fragment gives, if any.
    pub open spec fn hostname(self) -> Option<Seq<char>> {
        match self.mqtt {
            Some(mqtt) => text(mqtt.hostname),
            None => None,
        }
    }

    /// The MQTT port that the fragment gives, if any.
    pub open spec fn port(self) -> Option<u16> {
        match self.mqtt {
            Some(mqtt) => match mqtt.port {
                Some(port) => Some(port@),
                None => None,
            },
            None => None,
        }
    }

    /// Whether to do without TLS, if the fragment says.
    pub open spec fn disable_tls(self) -> Option<bool> {
        match self.mqtt {
            Some(mqtt) => mqtt.disable_tls,
            None => None,
        }
    }

    /// Whether to accept an insecure connection, if the fragment says.
    pub open spec fn insecure(self) -> Option<bool> {
        match self.mqtt {
            Some(mqtt) => mqtt.insecure,
            None => None,
        }
    }

    /// The first delay before reconnecting that the fragment gives, if any.
    pub open spec fn initial_reconnect_delay(self) -> Option<Span> {
        match self.mqtt {
            Some(mqtt) => match mqtt.initial_reconnect_delay {
                Some(delay) => Some(span(delay)),
                None => None,
            },
            None => None,
        }
    }

    /// The keep-alive interval that the fragment gives, if any.
    pub open spec fn keepalive(self) -> Option<Span> {
        match self.mqtt {
            Some(mqtt) => match mqtt.keepalive {
                Some(keepalive) => Some(span(keepalive)),
                None => None,
            },
            None => None,
        }
    }
}

/// Default port of the MQTT connection.
pub const DEFAULT_MQTT_PORT: u16 = 8883;

impl DrogueInput {
    /// The settings that a run of fragments merges into. The agent is
    /// disabled, every text is empty, no device is named, the port is 8883,
    /// TLS is on and checked, the first reconnect comes after a second and
    /// the keep-alive interval is a minute unless a fragment says otherwise.
    pub open spec fn merged(fragments: Seq<DrogueFragment>) -> DrogueSettings {
        DrogueSettings {
            enabled: last_given(fragments, |f: DrogueFragment| f.enabled, false),
            application: last_given(
                fragments,
                |f: DrogueFragment| text(f.application),
                Seq::empty(),
            ),
            device: last_given(fragments, |f: DrogueFragment| f.given_device(), None),
            password: last_given(fragments, |f: DrogueFragment| text(f.password), Seq::empty()),
            hostname: last_given(fragments, |f: DrogueFragment| f.hostname(), Seq::empty()),
            port: last_given(fragments, |f: DrogueFragment| f.port(), DEFAULT_MQTT_PORT),
            disable_tls: last_given(fragments, |f: DrogueFragment| f.disable_tls(), false),
            insecure: last_given(fragments, |f: DrogueFragment| f.insecure(), false),
            initial_reconnect_delay: last_given(
                fragments,
                |f: DrogueFragment| f.initial_reconnect_delay(),
                Span { secs: 1, subsec_nanos: 0 },
            ),
            keepalive: last_given(
                fragments,
                |f: DrogueFragment| f.keepalive(),
                Span { secs: 60, subsec_nanos: 0 },
            ),
        }
    }

    /// Merge fragments into a single config.
    pub fn from_fragments(fragments: Vec<DrogueFragment>) -> (cfg: Self)
        ensures
            cfg@ == Self::merged(fragments@),
            cfg@.port > 0,
    {
        let mut cfg = Self {
            enabled: false,
            application: String::new(),
            device: None,
            password: String::new(),
            mqtt: MqttInput {
                hostname: String::new(),
                port: PositiveU16::new(DEFAULT_MQTT_PORT).unwrap(),
                disable_tls: false,
                insecure: false,
                initial_reconnect_delay: Duration::from_secs(1),
                keepalive: Duration::from_secs(60),
            },
        };
        let ghost all = fragments@;

        for snip in it: fragments
            invariant
                it.seq() == all,
                cfg@ == Self::merged(all.take(it.index())),
        {
            proof {
                assert(all.take(it.index() + 1).drop_last() =~= all.take(it.index()));
            }
            if let Some(enabled) = snip.enabled {
                cfg.enabled = enabled;
            }
            if let Some(application) = snip.application {
                cfg.application = application;
            }
            if let Some(device) = snip.device {
                cfg.device = Some(device);
            }
            if let Some(password) = snip.password {
                cfg.password = password;
            }
            if let Some(snip) = snip.mqtt {
                if let Some(hostname) = snip.hostname {
                    cfg.mqtt.hostname = hostname;
                }
                if let Some(port) = snip.port {
                    cfg.mqtt.port = port;
                }
                if let Some(disable_tls) = snip.disable_tls {
                    cfg.mqtt.disable_tls = disable_tls;
                }
                if let Some(insecure) = snip.insecure {
                    cfg.mqtt.insecure = insecure;
                }
                if let Some(initial_reconnect_delay) = snip.initial_reconnect_delay {
                    cfg.mqtt.initial_reconnect_delay = initial_reconnect_delay;
                }
                if let Some(keepalive) = snip.keepalive {
                    cfg.mqtt.keepalive = keepalive;
                }
            }
        }
        proof {
            assert(all.take(all.len() as int) =~= all);
        }
        let _ = cfg.mqtt.port.get();

        cfg
    }
}

} // verus!
