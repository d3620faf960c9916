//! The proxy's configuration: its fields, their defaults, the merge of the
//! configuration directory's fragments, and the manager that swaps in a
//! reloaded value.
//!
//! Readers take an owned snapshot; a snapshot observed before a swap keeps
//! the old values in full, because the swap replaces the manager's value,
//! never the copies already handed out.

use vstd::prelude::*;

use crate::cidr::IpCidr;
use crate::net::IpAddress;
use crate::net::SocketAddress;
use crate::text::str_eq;

verus! {

/// The options the proxy consumes. Durations are in nanoseconds.
#[derive(Clone, Copy, Debug, PartialEq, Eq, Structural)]
pub struct Config {
    /// Verbose logging.
    pub debug: bool,
    /// The listener address.
    pub bind: SocketAddress,
    /// Listen backlog and blocking-pool cap; at least 1.
    pub concurrent: u32,
    /// Total upstream connect budget per request.
    pub connect_timeout: Option<u64>,
    /// Source-address pool for upstream connections.
    pub cidr: Option<IpCidr>,
    /// Reserved; read by nothing yet.
    pub fallback: Option<IpAddress>,
}

/// What a `Config` starts as: bind 0.0.0.0:3000, 1024 concurrent
/// connections, a 10 s connect budget, no prefix, no fallback.
pub open spec fn spec_default_config() -> Config {
    Config {
        debug: false,
        bind: SocketAddress { ip: IpAddress::V4(0), port: 3000 },
        concurrent: 1024,
        connect_timeout: Some(10_000_000_000),
        cidr: None,
        fallback: None,
    }
}

impl Config {
    /// The configured prefix, if any, is well formed, and at least one
    /// connection may run.
    pub open spec fn wf(&self) -> bool {
        &&& self.concurrent >= 1
        &&& match self.cidr {
            Some(c) => c.wf(),
            None => true,
        }
    }
}

impl Default for Config {
    fn default() -> (r: Config)
        ensures
            r == spec_default_config(),
    {
        Config {
            debug: false,
            bind: SocketAddress { ip: IpAddress::V4(0), port: 3000 },
            concurrent: 1024,
            connect_timeout: Some(10_000_000_000),
            cidr: None,
            fallback: None,
        }
    }
}

/// What one configuration file sets: any subset of the fields.
#[derive(Clone, Copy, Debug, PartialEq, Eq, Structural)]
pub struct ConfigFragment {
    pub debug: Option<bool>,
    pub bind: Option<SocketAddress>,
    pub concurrent: Option<u32>,
    pub connect_timeout: Option<u64>,
    pub cidr: Option<IpCidr>,
    pub fallback: Option<IpAddress>,
}

/// A later fragment overrides, field by field, what it sets.
pub open spec fn spec_apply(base: Config, f: ConfigFragment) -> Config {
    Config {
        debug: match f.debug {
            Some(v) => v,
            None => base.debug,
        },
        bind: match f.bind {
            Some(v) => v,
            None => base.bind,
        },
        concurrent: match f.concurrent {
            Some(v) => v,
            None => base.concurrent,
        },
        connect_timeout: match f.connect_timeout {
            Some(v) => Some(v),
            None => base.connect_timeout,
        },
        cidr: match f.cidr {
            Some(v) => Some(v),
            None => base.cidr,
        },
        fallback: match f.fallback {
            Some(v) => Some(v),
            None => base.fallback,
        },
    }
}

/// The merge of the directory: defaults, then each fragment applied in
/// order, later sources overriding earlier ones.
pub open spec fn spec_merged(frags: Seq<ConfigFragment>) -> Config
    decreases frags.len(),
{
    if frags.len() == 0 {
        spec_default_config()
    } else {
        spec_apply(spec_merged(frags.drop_last()), frags.last())
    }
}

/// Apply one fragment over a base configuration.
pub fn apply_fragment(base: Config, f: &ConfigFragment) -> (r: Config)
    ensures
        r == spec_apply(base, *f),
{
    Config {
        debug: match f.debug {
            Some(v) => v,
            None => base.debug,
        },
        bind: match f.bind {
            Some(v) => v,
            None => base.bind,
        },
        concurrent: match f.concurrent {
            Some(v) => v,
            None => base.concurrent,
        },
        connect_timeout: match f.connect_timeout {
            Some(v) => Some(v),
            None => base.connect_timeout,
        },
        cidr: match f.cidr {
            Some(v) => Some(v),
            None => base.cidr,
        },
        fallback: match f.fallback {
            Some(v) => Some(v),
            None => base.fallback,
        },
    }
}

/// Merge the fragments of the configuration directory, in glob-iteration
/// order.
pub fn merge_fragments(frags: &Vec<ConfigFragment>) -> (r: Config)
    ensures
        r == spec_merged(frags@),
{
    let mut acc = Config::default();
    let n = frags.len();
    let mut i: usize = 0;
    while i < n
        invariant
            i <= n,
            n == frags@.len(),
            acc == spec_merged(frags@.take(i as int)),
        decreases n - i,
    {
        proof {
            assert(frags@.take(i + 1).drop_last() =~= frags@.take(i as int));
            assert(frags@.take(i + 1).last() == frags@[i as int]);
        }
        acc = apply_fragment(acc, &frags[i]);
        i = i + 1;
    }
    proof {
        assert(frags@.take(n as int) =~= frags@);
    }
    acc
}

/// Whether a file of the configuration directory is read, by its
/// extension: `toml`, `json`, `yaml`, `ini`, `ron` or `json5`.
pub open spec fn spec_is_config_extension(ext: Seq<char>) -> bool {
    ||| ext == "toml"@
    ||| ext == "json"@
    ||| ext == "yaml"@
    ||| ext == "ini"@
    ||| ext == "ron"@
    ||| ext == "json5"@
}

pub fn is_config_extension(ext: &str) -> (r: bool)
    ensures
        r == spec_is_config_extension(ext@),
{
    str_eq(ext, "toml") || str_eq(ext, "json") || str_eq(ext, "yaml") || str_eq(ext, "ini")
        || str_eq(ext, "ron") || str_eq(ext, "json5")
}

/// The manager's canonical value. A swap replaces it whole; every reader
/// holds its own copy.
#[derive(Clone, Copy, Debug, PartialEq, Eq, Structural)]
pub struct ManagerState {
    pub current: Config,
}

impl ManagerState {
    /// The initial load of the configuration directory.
    pub fn new_from(frags: &Vec<ConfigFragment>) -> (r: ManagerState)
        ensures
            r.current == spec_merged(frags@),
    {
        ManagerState { current: merge_fragments(frags) }
    }

    /// The consistent snapshot a reader observes: the whole current value.
    pub fn snapshot(&self) -> (r: Config)
        ensures
            r == self.current,
    {
        self.current
    }

    /// Atomically replace the value with the re-merged directory. A
    /// snapshot taken earlier is an owned copy and keeps the old values.
    pub fn reload(&mut self, frags: &Vec<ConfigFragment>)
        ensures
            final(self).current == spec_merged(frags@),
    {
        self.current = merge_fragments(frags);
    }
}

/// What the watcher delivers: a filesystem event of some kind, a watch
/// error, or the closing of the channel.
#[derive(Clone, Copy, Debug, PartialEq, Eq, Structural)]
pub enum WatchMessage {
    Modify,
    OtherEvent,
    WatchError,
    Closed,
}

/// What the watcher loop does with a message.
#[derive(Clone, Copy, Debug, PartialEq, Eq, Structural)]
pub enum WatcherStep {
    Reload,
    Ignore,
    Stop,
}

/// The watcher reloads on any modify event, stops when its channel
/// closes, and ignores everything else.
pub fn watcher_action(msg: WatchMessage) -> (r: WatcherStep)
    ensures
        r == match msg {
            WatchMessage::Modify => WatcherStep::Reload,
            WatchMessage::OtherEvent => WatcherStep::Ignore,
            WatchMessage::WatchError => WatcherStep::Ignore,
            WatchMessage::Closed => WatcherStep::Stop,
        },
{
    match msg {
        WatchMessage::Modify => WatcherStep::Reload,
        WatchMessage::OtherEvent => WatcherStep::Ignore,
        WatchMessage::WatchError => WatcherStep::Ignore,
        WatchMessage::Closed => WatcherStep::Stop,
    }
}

/// The watcher's poll interval: 2 seconds, in nanoseconds.
pub const WATCH_POLL_INTERVAL_NS: u64 = 2_000_000_000;

} // verus!
