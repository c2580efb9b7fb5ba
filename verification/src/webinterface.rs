//! The web front-end as a plugin: its description, its configuration and
//! the life cycle of its server.

use vstd::prelude::*;
use crate::blackboard::{entry_views, Attributes};
use crate::entries::{BlackboardEntry, BlackboardValue, ValueView};
use crate::error::RuntimeError;
use crate::text::str_eq;

verus! {

/// The description of the web front-end as a plugin, as JSON.
pub const SUMMARY_MESSAGE: &'static str =
    "{
    \"name\": \"webinterface\",
    \"summary\": \"web backend\",
    \"library_type\": \"Service\",
    \"version\": \"0.1.0\",
    \"provides\": [
        {
            \"capability\": \"webinterface_start\",
            \"entry\": \"start\"
        },
        {
            \"capability\": \"webinterface_stop\",
            \"entry\": \"stop\"
        }
    ],
    \"requires\": [\"blackboard\"]
}";

/// The web front-end's description of itself.
pub fn summary() -> (text: &'static str)
    ensures
        text@ == SUMMARY_MESSAGE@,
{
    SUMMARY_MESSAGE
}

/// The host name that the server binds to where none is configured.
pub const DEFAULT_HOSTNAME: &'static str = "127.0.0.1";

/// The port that the server binds to where none is configured.
pub const DEFAULT_PORT: u16 = 8080;

/// Where the server listens.
#[derive(Debug)]
pub struct Config {
    pub hostname: String,
    pub port: u16,
}

impl View for Config {
    type V = (Seq<char>, u16);

    open spec fn view(&self) -> (Seq<char>, u16) {
        (self.hostname@, self.port)
    }
}

/// The port that an integer configures: its lowest 16 bits.
pub open spec fn port_of(value: i32) -> u16 {
    (value & 0xffff) as u16
}

/// What one attribute makes of a configuration: a string under `hostname`
/// sets the host name, an integer under `port` sets the port, and every
/// other attribute changes nothing.
pub open spec fn configured(config: (Seq<char>, u16), entry: (Seq<char>, ValueView)) -> (
    Seq<char>,
    u16,
) {
    if entry.0 == "hostname"@ {
        match entry.1 {
            ValueView::String(value) => (value, config.1),
            _ => config,
        }
    } else if entry.0 == "port"@ {
        match entry.1 {
            ValueView::Int(value) => (config.0, port_of(value)),
            _ => config,
        }
    } else {
        config
    }
}

/// The configuration that a sequence of attributes gives, starting from the
/// defaults: a later attribute overrides an earlier one.
pub open spec fn config_of(entries: Seq<(Seq<char>, ValueView)>) -> (Seq<char>, u16)
    decreases entries.len(),
{
    if entries.len() == 0 {
        (DEFAULT_HOSTNAME@, DEFAULT_PORT)
    } else {
        configured(config_of(entries.drop_last()), entries.last())
    }
}

impl Default for Config {
    fn default() -> (config: Config)
        ensures
            config@ == (DEFAULT_HOSTNAME@, DEFAULT_PORT),
    {
        Config { hostname: DEFAULT_HOSTNAME.to_owned(), port: DEFAULT_PORT }
    }
}

impl Config {
    /// The configuration that the attributes give.
    pub fn new(key_values: &Vec<BlackboardEntry>) -> (config: Config)
        ensures
            config@ == config_of(entry_views(key_values@)),
    {
        let mut config = Config { hostname: DEFAULT_HOSTNAME.to_owned(), port: DEFAULT_PORT };
        let mut i: usize = 0;
        proof {
            assert(entry_views(key_values@).take(0) =~= Seq::<(Seq<char>, ValueView)>::empty());
        }
        while i < key_values.len()
            invariant
                i <= key_values@.len(),
                config@ == config_of(entry_views(key_values@).take(i as int)),
            decreases key_values@.len() - i,
        {
            let entry = &key_values[i];
            proof {
                assert(entry_views(key_values@).take(i + 1).drop_last() =~= entry_views(
                    key_values@,
                ).take(i as int));
                assert(entry_views(key_values@).take(i + 1).last() == entry@);
            }
            if str_eq(entry.key.as_str(), "hostname") {
                match &entry.value {
                    BlackboardValue::String(value) => {
                        config.hostname = value.clone();
                    },
                    _ => {},
                }
            } else if str_eq(entry.key.as_str(), "port") {
                match &entry.value {
                    BlackboardValue::Int(value) => {
                        let low: i32 = *value & 0xffff;
                        assert(0 <= low <= 0xffff) by (bit_vector)
                            requires
                                low == *value & 0xffff,
                        ;
                        config.port = low as u16;
                    },
                    _ => {},
                }
            }
            i += 1;
        }
        proof {
            assert(entry_views(key_values@).take(i as int) =~= entry_views(key_values@));
        }
        config
    }
}

/// Whether the server is running.
#[derive(Debug)]
pub struct Lifecycle {
    running: bool,
}

impl Lifecycle {
    /// Whether the server is running.
    pub closed spec fn running(&self) -> bool {
        self.running
    }

    /// A server that has not been started.
    pub fn new() -> (lifecycle: Lifecycle)
        ensures
            !lifecycle.running(),
    {
        Lifecycle { running: false }
    }

    /// Notes that the server is up.
    pub fn started(&mut self)
        ensures
            final(self).running(),
    {
        self.running = true;
    }
}

/// The configuration to start the server with. A running server refuses
/// with `AlreadyRunning`. Attributes that are missing or could not be read
/// give the defaults.
pub fn start_server(
    lifecycle: &Lifecycle,
    attributes: Attributes,
) -> (config: Result<Config, RuntimeError>)
    ensures
        lifecycle.running() ==> config.is_err() && config.unwrap_err()
            == RuntimeError::AlreadyRunning,
        !lifecycle.running() ==> config.is_ok() && config.unwrap()@ == match attributes {
            Attributes::Entries(given) => config_of(entry_views(given@)),
            _ => (DEFAULT_HOSTNAME@, DEFAULT_PORT),
        },
{
    if lifecycle.running {
        return Err(RuntimeError::AlreadyRunning);
    }
    match attributes {
        Attributes::Entries(given) => Ok(Config::new(&given)),
        _ => Ok(Config::default()),
    }
}

/// Notes that the server is to be stopped. A server that is not running
/// refuses with `NotRunning`.
pub fn stop_server(lifecycle: &mut Lifecycle) -> (done: Result<(), RuntimeError>)
    ensures
        !final(lifecycle).running(),
        old(lifecycle).running() ==> done.is_ok(),
        !old(lifecycle).running() ==> done.is_err() && done.unwrap_err()
            == RuntimeError::NotRunning,
{
    if lifecycle.running {
        lifecycle.running = false;
        Ok(())
    } else {
        Err(RuntimeError::NotRunning)
    }
}

} // verus!
