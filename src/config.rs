use crate::protocol::Action;
use vstd::prelude::*;

verus! {

/// The code that evdev gives a key name, or `None` where it knows no such key.
pub uninterp spec fn key_code_named(name: Seq<char>) -> Option<u16>;

/// Relies on evdev's `FromStr` for `KeyCode`: looks a key name such as `KEY_A`
/// up in evdev's table of key names.
#[verifier::external_body]
fn parse_key_code(name: &str) -> (r: Option<u16>)
    ensures
        r == key_code_named(name@),
{
    name.parse::<evdev::KeyCode>().ok().map(|k| k.0)
}

/// Which raw events are of interest: `None` in `device_names` matches every
/// device, `None` in `value` every value.
#[derive(Clone, Debug, Hash, PartialEq, Eq)]
pub struct InputTrigger {
    pub device_names: Option<Vec<String>>,
    pub key: u16,
    pub value: Option<i32>,
}

/// Where the server is and how each side proves who it is.
#[derive(Clone, Debug)]
pub struct ServerConnectionConfig {
    /// `ip:port` of the server.
    pub server_addr: String,
    /// The name that the server's certificate must carry.
    pub server_domain: String,
    /// PEM trust anchor for the server's certificate.
    pub server_ca_bytes: Vec<u8>,
    /// PEM certificate that the agent presents.
    pub cert_bytes: Vec<u8>,
    /// PEM private key of that certificate.
    pub key_bytes: Vec<u8>,
}

/// The configuration: transport parameters and the trigger table, read-only once
/// loaded.
#[derive(Clone, Debug)]
pub struct Config {
    pub server_connection: ServerConnectionConfig,
    pub actions: Vec<(InputTrigger, Vec<Action>)>,
}

impl InputTrigger {
    /// A trigger whose key is given by its evdev name; `None` where evdev knows
    /// no key of that name.
    pub fn from_key_name(device_names: Option<Vec<String>>, key_name: &str, value: Option<i32>) -> (r:
        Option<InputTrigger>)
        ensures
            r is Some <==> key_code_named(key_name@) is Some,
            r matches Some(t) ==> t.key == key_code_named(key_name@)->0 && t.device_names
                == device_names && t.value == value,
    {
        match parse_key_code(key_name) {
            Some(key) => Some(InputTrigger { device_names, key, value }),
            None => None,
        }
    }
}

/// Whether one of `names` is `name`.
pub open spec fn names_contain(names: Seq<String>, name: Seq<char>) -> bool {
    exists|i: int| 0 <= i < names.len() && names[i]@ == name
}

/// Whether a trigger matches an event of value `value` on key `code` from the
/// device called `device`.
pub open spec fn trigger_matches(t: InputTrigger, device: Seq<char>, code: u16, value: i32) -> bool {
    &&& t.key == code
    &&& (t.value is None || t.value->0 == value)
    &&& (t.device_names is None || names_contain(t.device_names->0@, device))
}

/// The actions of every entry whose trigger matches, flattened in table order.
pub open spec fn matched_actions(
    entries: Seq<(InputTrigger, Vec<Action>)>,
    device: Seq<char>,
    code: u16,
    value: i32,
) -> Seq<Action>
    decreases entries.len(),
{
    if entries.len() == 0 {
        Seq::empty()
    } else {
        let earlier = matched_actions(entries.drop_last(), device, code, value);
        let last = entries.last();
        if trigger_matches(last.0, device, code, value) {
            earlier + last.1@
        } else {
            earlier
        }
    }
}

/// Whether `name` is one of `names`.
pub fn names_include(names: &Vec<String>, name: &String) -> (r: bool)
    ensures
        r == names_contain(names@, name@),
{
    let mut i: usize = 0;
    while i < names.len()
        invariant
            i <= names@.len(),
            forall|j: int| 0 <= j < i ==> names@[j]@ != name@,
        decreases names.len() - i,
    {
        if names[i] == *name {
            return true;
        }
        i = i + 1;
    }
    false
}

impl InputTrigger {
    /// Whether this trigger matches an event of value `value` on key `code` from
    /// the device called `device`.
    pub fn matches(&self, device: &String, code: u16, value: i32) -> (r: bool)
        ensures
            r == trigger_matches(*self, device@, code, value),
    {
        if self.key != code {
            return false;
        }
        match self.value {
            Some(v) => {
                if v != value {
                    return false;
                }
            },
            None => {},
        }
        match &self.device_names {
            Some(names) => names_include(names, device),
            None => true,
        }
    }
}

/// The actions of every entry of the table whose trigger matches the event,
/// flattened in table order.
pub fn actions_for_event(
    entries: &Vec<(InputTrigger, Vec<Action>)>,
    device: &String,
    code: u16,
    value: i32,
) -> (r: Vec<Action>)
    ensures
        r@ == matched_actions(entries@, device@, code, value),
{
    let mut out: Vec<Action> = Vec::new();
    let mut i: usize = 0;
    while i < entries.len()
        invariant
            i <= entries@.len(),
            out@ == matched_actions(entries@.take(i as int), device@, code, value),
        decreases entries.len() - i,
    {
        let entry = &entries[i];
        assert(entries@.take(i + 1).drop_last() =~= entries@.take(i as int));
        assert(entries@.take(i + 1).last() == entries@[i as int]);
        if entry.0.matches(device, code, value) {
            let acts = &entry.1;
            let ghost before = out@;
            let mut j: usize = 0;
            while j < acts.len()
                invariant
                    j <= acts@.len(),
                    out@ == before + acts@.take(j as int),
                decreases acts.len() - j,
            {
                out.push(acts[j].clone());
                assert(acts@.take(j + 1) =~= acts@.take(j as int).push(acts@[j as int]));
                assert(out@ =~= before + acts@.take(j + 1));
                j = j + 1;
            }
            assert(acts@.take(acts@.len() as int) =~= acts@);
        }
        i = i + 1;
    }
    assert(entries@.take(entries@.len() as int) =~= entries@);
    out
}

} // verus!
