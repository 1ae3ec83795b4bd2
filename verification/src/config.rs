//! What the user configures: the keys, the debounce and the channel.

use vstd::prelude::*;
use vstd::string::{StrSliceExecFns, StringExecFns};

verus! {

/// One key of the device: the pin it is wired to and the keycodes it stands
/// for, which fire in this order on each transition.
#[derive(Clone, Debug, PartialEq, Eq)]
pub struct KeyMap {
    /// The device pin to map this key to.
    pub pin: u8,
    /// The keycodes to map this key to.
    pub keycodes: Vec<u16>,
}

/// From which state change the debounce time is measured.
#[derive(Copy, Clone, Debug, PartialEq, Eq, Structural)]
pub enum DebounceType {
    /// Wait for the debounce time from the first keystate change.
    FirstChange,
    /// Wait for the debounce time from the last keystate change.
    LastChange,
}

/// The configuration of one session.
///
/// The position of a key in `key_maps` is the index by which the device
/// names it in its events.
#[derive(Clone, Debug, PartialEq, Eq)]
pub struct Config {
    /// What serial port to use to connect to the device.
    pub serial_port: String,
    /// A command to run before the connection is attempted, in which
    /// `{{port}}` stands for the port.
    pub previous_command: Option<String>,
    /// How many bits per second to communicate through.
    pub baud_rate: u32,
    /// Keys to map.
    pub key_maps: Vec<KeyMap>,
    /// Microseconds of debounce. The device takes 32 bits: a value outside
    /// that range is sent as the nearest one inside.
    pub debounce_us: i64,
    /// What kind of debounce to use.
    pub debounce_type: DebounceType,
    /// Whether the device should listen to interrupts.
    pub enable_interrupts: bool,
    /// How long to wait for the device to respond.
    pub timeout_ms: u64,
    /// Print all sorts of stuff.
    pub verbose: bool,
}

/// A serial port of the system, as far as the choice of a port looks at it.
#[derive(Clone, Debug, PartialEq, Eq)]
pub struct PortInfo {
    /// The name by which the port is opened.
    pub port_name: String,
    /// The product name, where the port is a USB port that reports one.
    pub usb_product: Option<String>,
}

/// The beginning of a port name that stands for a USB port to be found by
/// its product name.
pub open spec fn auto_usb_prefix() -> Seq<char> {
    ":auto-usb-"@
}

/// What stands for the port in a setup command.
pub open spec fn port_keyword() -> Seq<char> {
    "{{port}}"@
}

/// What `str::to_lowercase` makes of this text. Nothing more is known of it.
pub uninterp spec fn lowercase(text: Seq<char>) -> Seq<char>;

/// What `str::replace` makes of `text` when each `from` is to become `to`.
/// Nothing more is known of it.
pub uninterp spec fn replaced(text: Seq<char>, from: Seq<char>, to: Seq<char>) -> Seq<char>;

/// `part` stands somewhere in `text`.
pub open spec fn holds(text: Seq<char>, part: Seq<char>) -> bool {
    exists|at: int|
        0 <= at <= text.len() - part.len() && #[trigger] text.subrange(at, at + part.len()) == part
}

/// The product name to look for, in lowercase, where `port` asks for a USB
/// port by its product name.
pub open spec fn auto_usb_pattern(port: Seq<char>) -> Option<Seq<char>> {
    if auto_usb_prefix().is_prefix_of(port) {
        Some(lowercase(port.skip(auto_usb_prefix().len() as int)))
    } else {
        None
    }
}

/// The name at `at` is there and holds `pattern`.
pub open spec fn holds_at(names: Seq<Option<String>>, pattern: Seq<char>, at: int) -> bool {
    &&& 0 <= at < names.len()
    &&& names[at] matches Some(name)
    &&& holds(name@, pattern)
}

/// `found` is the place of the first name that holds `pattern`, or nothing
/// if no name does.
pub open spec fn is_first_holding(
    names: Seq<Option<String>>,
    pattern: Seq<char>,
    found: Option<usize>,
) -> bool {
    match found {
        Some(at) => holds_at(names, pattern, at as int) && forall|before: int|
            0 <= before < at ==> !holds_at(names, pattern, before),
        None => forall|at: int| !holds_at(names, pattern, at),
    }
}

/// The product names of the ports in lowercase, one for each port.
pub open spec fn is_lowercase_products(ports: Seq<PortInfo>, names: Seq<Option<String>>) -> bool {
    &&& names.len() == ports.len()
    &&& forall|at: int|
        0 <= at < ports.len() ==> match (#[trigger] ports[at]).usb_product {
            Some(product) => names[at] matches Some(name) && name@ == lowercase(product@),
            None => names[at] is None,
        }
}

/// The port at `at` is a USB port whose product name holds `pattern`, case
/// apart.
pub open spec fn is_usb_match(ports: Seq<PortInfo>, pattern: Seq<char>, at: int) -> bool {
    &&& 0 <= at < ports.len()
    &&& ports[at].usb_product matches Some(product)
    &&& holds(lowercase(product@), pattern)
}

/// The port at `at` is the first USB port whose product name holds
/// `pattern`, case apart.
pub open spec fn is_first_usb_match(ports: Seq<PortInfo>, pattern: Seq<char>, at: int) -> bool {
    &&& is_usb_match(ports, pattern, at)
    &&& forall|before: int| 0 <= before < at ==> !is_usb_match(ports, pattern, before)
}

/// The name of the port to open where `port` is configured and the system
/// has `ports`, or the text of the error where there is none to open.
pub open spec fn resolved_port(port: Seq<char>, ports: Seq<PortInfo>) -> Result<
    Seq<char>,
    Seq<char>,
> {
    match auto_usb_pattern(port) {
        None => Ok(port),
        Some(pattern) => if exists|at: int| is_first_usb_match(ports, pattern, at) {
            Ok(ports[choose|at: int| is_first_usb_match(ports, pattern, at)].port_name@)
        } else {
            Err(no_port_message(pattern))
        },
    }
}

/// What the error says when no port has the product name asked for.
pub open spec fn no_port_message(pattern: Seq<char>) -> Seq<char> {
    "found no usb serial port containing '"@ + pattern + "' in its name"@
}

/// Calls `str::starts_with`. Taken on trust: the answer is whether `prefix`,
/// char by char, is the beginning of `text`.
#[verifier::external_body]
fn starts_with(text: &str, prefix: &str) -> (begins: bool)
    ensures
        begins == prefix@.is_prefix_of(text@),
{
    text.starts_with(prefix)
}

/// Calls `str::contains`. Taken on trust: the answer is whether `part`, char
/// by char, stands somewhere in `text`.
#[verifier::external_body]
fn contains(text: &str, part: &str) -> (found: bool)
    ensures
        found == holds(text@, part@),
{
    text.contains(part)
}

/// Calls `str::to_lowercase`. Taken on trust: the same text always gives the
/// same result, which the contracts call `lowercase`. What that result is,
/// is not stated.
#[verifier::external_body]
fn to_lowercase(text: &str) -> (lower: String)
    ensures
        lower@ == lowercase(text@),
{
    text.to_lowercase()
}

/// Calls `str::replace`. Taken on trust: the same three texts always give the
/// same result, which the contracts call `replaced`. What that result is, is
/// not stated.
#[verifier::external_body]
fn replace(text: &str, from: &str, to: &str) -> (out: String)
    ensures
        out@ == replaced(text@, from@, to@),
{
    text.replace(from, to)
}

/// The place of the first name that is there and holds `pattern`.
pub fn first_holding(names: &Vec<Option<String>>, pattern: &str) -> (found: Option<usize>)
    ensures
        is_first_holding(names@, pattern@, found),
{
    let mut at: usize = 0;
    while at < names.len()
        invariant
            at <= names@.len(),
            forall|before: int| 0 <= before < at ==> !holds_at(names@, pattern@, before),
        decreases names@.len() - at,
    {
        match &names[at] {
            Some(name) => {
                if contains(name.as_str(), pattern) {
                    return Some(at);
                }
            },
            None => {},
        }
        at += 1;
    }
    None
}

impl Default for Config {
    /// The configuration of a device with one key on pin 2 that types a
    /// space, found by the product name `arduino`.
    fn default() -> (cfg: Config)
        ensures
            cfg.serial_port@ == ":auto-usb-arduino"@,
            cfg.previous_command is None,
            cfg.baud_rate == 115200,
            cfg.key_maps@.len() == 1,
            cfg.key_maps@[0].pin == 2,
            cfg.key_maps@[0].keycodes@ == seq![32u16],
            cfg.debounce_us == 1000,
            cfg.debounce_type == DebounceType::LastChange,
            !cfg.enable_interrupts,
            cfg.timeout_ms == 3000,
            !cfg.verbose,
    {
        let mut keycodes: Vec<u16> = Vec::new();
        keycodes.push(32);
        let mut key_maps: Vec<KeyMap> = Vec::new();
        key_maps.push(KeyMap { pin: 2, keycodes });
        Config {
            previous_command: None,
            serial_port: ":auto-usb-arduino".to_owned(),
            baud_rate: 115200,
            key_maps,
            debounce_us: 1000,
            debounce_type: DebounceType::LastChange,
            enable_interrupts: false,
            timeout_ms: 3000,
            verbose: false,
        }
    }
}

impl Config {
    /// The product name to look for among the USB ports, in lowercase, where
    /// the configured port begins with `:auto-usb-`; nothing where the
    /// configured port is the name of a port.
    pub fn auto_usb_pattern(&self) -> (pattern: Option<String>)
        ensures
            match auto_usb_pattern(self.serial_port@) {
                Some(text) => pattern matches Some(found) && found@ == text,
                None => pattern is None,
            },
    {
        let name: &str = self.serial_port.as_str();
        if starts_with(name, ":auto-usb-") {
            proof {
                reveal_strlit(":auto-usb-");
            }
            let total: usize = name.unicode_len();
            let rest: &str = name.substring_char(10, total);
            assert(rest@ == name@.skip(10));
            Some(to_lowercase(rest))
        } else {
            None
        }
    }

    /// The name of the port to open. A configured port that begins with
    /// `:auto-usb-` stands for the first of `ports` that is a USB port whose
    /// product name holds the rest, case apart; it is an error if there is
    /// none. Any other configured port is the name itself, whatever `ports`
    /// holds.
    pub fn resolve_port(&self, ports: &Vec<PortInfo>) -> (port: Result<String, String>)
        ensures
            match port {
                Ok(name) => resolved_port(self.serial_port@, ports@) == Ok::<Seq<char>, Seq<char>>(
                    name@,
                ),
                Err(message) => resolved_port(self.serial_port@, ports@) == Err::<
                    Seq<char>,
                    Seq<char>,
                >(message@),
            },
    {
        match self.auto_usb_pattern() {
            None => Ok(self.serial_port.clone()),
            Some(pattern) => {
                let names: Vec<Option<String>> = lowercase_products(ports);
                match first_holding(&names, pattern.as_str()) {
                    Some(at) => {
                        proof {
                            assert forall|before: int| 0 <= before < at implies !is_usb_match(
                                ports@,
                                pattern@,
                                before,
                            ) by {
                                assert(!holds_at(names@, pattern@, before));
                            }
                            assert(is_first_usb_match(ports@, pattern@, at as int));
                            let chosen = choose|other: int|
                                is_first_usb_match(ports@, pattern@, other);
                            assert(chosen == at);
                        }
                        Ok(ports[at].port_name.clone())
                    },
                    None => {
                        proof {
                            assert forall|at: int| !is_first_usb_match(ports@, pattern@, at) by {
                                assert(!holds_at(names@, pattern@, at));
                            }
                        }
                        let mut message: String = "found no usb serial port containing '".to_owned();
                        message.append(pattern.as_str());
                        message.append("' in its name");
                        Err(message)
                    },
                }
            },
        }
    }

    /// The setup command to run before the connection, with the port in
    /// place of each `{{port}}`: the port that `resolve_port` gives, or the
    /// configured one where it gives none. Nothing where no command is
    /// configured.
    pub fn setup_command(&self, ports: &Vec<PortInfo>) -> (command: Option<String>)
        ensures
            match self.previous_command {
                None => command is None,
                Some(template) => command matches Some(line) && line@ == replaced(
                    template@,
                    port_keyword(),
                    match resolved_port(self.serial_port@, ports@) {
                        Ok(name) => name,
                        Err(_) => self.serial_port@,
                    },
                ),
            },
    {
        match &self.previous_command {
            None => None,
            Some(template) => {
                let port: String = match self.resolve_port(ports) {
                    Ok(name) => name,
                    Err(_) => self.serial_port.clone(),
                };
                Some(replace(template.as_str(), "{{port}}", port.as_str()))
            },
        }
    }
}

/// The product names of the ports in lowercase, one for each port.
pub fn lowercase_products(ports: &Vec<PortInfo>) -> (names: Vec<Option<String>>)
    ensures
        is_lowercase_products(ports@, names@),
{
    let mut names: Vec<Option<String>> = Vec::new();
    let mut at: usize = 0;
    while at < ports.len()
        invariant
            at <= ports@.len(),
            is_lowercase_products(ports@.take(at as int), names@),
        decreases ports@.len() - at,
    {
        let name: Option<String> = match &ports[at].usb_product {
            Some(product) => Some(to_lowercase(product.as_str())),
            None => None,
        };
        names.push(name);
        at += 1;
    }
    assert(ports@.take(at as int) == ports@);
    names
}

} // verus!
