//! Host components: native implementations of interfaces that the runtime
//! offers to components (WASI, a logger, a key-value store), and the check
//! that a host component can provide the interface it is linked for.

use vstd::prelude::*;
use vstd::string::StringExecFns;
use crate::kv::Kv;
use crate::ledger::{is_wasi, is_wasi_name};

verus! {

/// Errors of host components.
#[derive(Debug, Clone)]
pub enum Error {
    /// The component cannot be linked as asked.
    Link(String),
}

/// Outcome of a host-component operation.
pub type Result<T> = core::result::Result<T, Error>;

impl Error {
    /// The human-readable description of an error.
    pub open spec fn spec_message(&self) -> Seq<char> {
        match self {
            Error::Link(msg) => "Linker error: "@ + msg@,
        }
    }

    /// The human-readable description of this error.
    pub fn message(&self) -> (s: String)
        ensures
            s@ == self.spec_message(),
    {
        match self {
            Error::Link(msg) => String::from_str("Linker error: ").concat(msg.as_str()),
        }
    }
}

/// WASI host component: links the WASI interfaces to a guest.
#[derive(Clone, Copy, Debug, Default)]
pub struct Wasi;

impl Wasi {
    /// The WASI host component.
    pub fn new() -> (w: Self) {
        Wasi
    }
}

/// The line that the logger keeps for a message at a level: the level in
/// square brackets, a space, and the message.
pub open spec fn log_line(level: Seq<char>, msg: Seq<char>) -> Seq<char> {
    "["@ + level + "] "@ + msg
}

/// Logger host component: provides the `exorun:host/logging` interface and
/// keeps every message in memory, in order.
pub struct Logger {
    logs: Vec<String>,
}

impl View for Logger {
    type V = Seq<Seq<char>>;

    closed spec fn view(&self) -> Seq<Seq<char>> {
        self.logs@.map_values(|l: String| l@)
    }
}

impl Logger {
    /// A logger that has kept nothing.
    pub fn new() -> (l: Self)
        ensures
            l@ == Seq::<Seq<char>>::empty(),
    {
        let l = Logger { logs: Vec::new() };
        proof {
            assert(l@ =~= Seq::<Seq<char>>::empty());
        }
        l
    }

    /// Returns all captured log messages, in the order they were logged.
    pub fn get_logs(&self) -> (r: Vec<String>)
        ensures
            r@.map_values(|l: String| l@) == self@,
    {
        let mut r: Vec<String> = Vec::new();
        let mut i: usize = 0;
        while i < self.logs.len()
            invariant
                i <= self.logs@.len(),
                r@.len() == i,
                forall|j: int| 0 <= j < i ==> #[trigger] r@[j]@ == self.logs@[j]@,
            decreases self.logs@.len() - i,
        {
            r.push(self.logs[i].clone());
            i = i + 1;
        }
        proof {
            assert(r@.map_values(|l: String| l@) =~= self@);
        }
        r
    }

    /// The `log` function of the interface: keeps `msg` at `level`.
    pub fn log(&mut self, level: &str, msg: &str)
        ensures
            final(self)@ == old(self)@.push(log_line(level@, msg@)),
    {
        let line = String::from_str("[").concat(level).concat("] ").concat(msg);
        let ghost before = self.logs@;
        self.logs.push(line);
        proof {
            assert(self.logs@ == before.push(line));
            assert(self@ =~= old(self)@.push(log_line(level@, msg@)));
        }
    }
}

impl Default for Logger {
    /// A logger that has kept nothing.
    fn default() -> (l: Self)
        ensures
            l@ == Seq::<Seq<char>>::empty(),
    {
        Logger::new()
    }
}

/// The interface of the logger.
pub open spec fn logging_interface() -> Seq<char> {
    "exorun:host/logging"@
}

/// The interface of the key-value store.
pub open spec fn kv_interface() -> Seq<char> {
    "exorun:host/kv"@
}

/// Exhaustive enum of all host components supported by the runtime.
pub enum HostInstance {
    /// Standard WASI functionality.
    Wasi(Wasi),
    /// The `exorun:host/logging` interface.
    Logger(Logger),
    /// The `exorun:host/kv` interface.
    Kv(Kv),
}

impl HostInstance {
    /// Whether this host component provides `interface`: WASI provides
    /// every interface whose name starts with `wasi:`; the logger and the
    /// store provide exactly their own interface.
    pub open spec fn provides(&self, interface: Seq<char>) -> bool {
        match self {
            HostInstance::Wasi(_) => is_wasi_name(interface),
            HostInstance::Logger(_) => interface == logging_interface(),
            HostInstance::Kv(_) => interface == kv_interface(),
        }
    }

    /// The name of the host component and the interface it expects, as
    /// shown when it is linked for another interface.
    pub open spec fn expectation(&self) -> (Seq<char>, Seq<char>) {
        match self {
            HostInstance::Wasi(_) => ("WASI"@, "wasi:*"@),
            HostInstance::Logger(_) => ("Logger"@, logging_interface()),
            HostInstance::Kv(_) => ("Kv"@, kv_interface()),
        }
    }

    /// Validates that this host instance can provide `interface`. When it
    /// cannot, the error names the host component, the interface asked for
    /// and the interface expected.
    pub fn validate_interface(&self, interface: &str) -> (r: Result<()>)
        ensures
            r is Ok <==> self.provides(interface@),
            r matches Err(Error::Link(msg)) ==> msg@ == self.expectation().0
                + " host instance cannot provide interface '"@ + interface@ + "' (expected '"@
                + self.expectation().1 + "')"@,
    {
        let asked = String::from_str(interface);
        let (name, expected) = match self {
            HostInstance::Wasi(_) => {
                if is_wasi(interface) {
                    return Ok(());
                }
                ("WASI", "wasi:*")
            },
            HostInstance::Logger(_) => {
                if asked == String::from_str("exorun:host/logging") {
                    return Ok(());
                }
                ("Logger", "exorun:host/logging")
            },
            HostInstance::Kv(_) => {
                if asked == String::from_str("exorun:host/kv") {
                    return Ok(());
                }
                ("Kv", "exorun:host/kv")
            },
        };
        let msg = String::from_str(name).concat(" host instance cannot provide interface '").concat(
            interface,
        ).concat("' (expected '").concat(expected).concat("')");
        Err(Error::Link(msg))
    }
}

} // verus!
