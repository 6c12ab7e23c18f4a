//! The device registry: an ordered collection of configured devices,
//! addressable by case-insensitive name, case-insensitive alias, or
//! 1-based position, with first match in sequence order winning.
//!
//! The registry only holds and changes in-memory state.  Loading it
//! from storage and persisting it again belong to the external
//! configuration store; every mutation here is to be followed by an
//! explicit persist call to that collaborator.

use vstd::prelude::*;
use vstd::pervasive::unreached;
use crate::device::{Device, Type};
use crate::route::{no_slash, no_slash_exec};
use crate::error::ConfigError;
use crate::text::{dec_digit, dec_rep, eq_ignore_ascii_case, str_eq, str_eq_ignore_ascii_case, str_is_dec_of};

verus! {

/// The registry of configured devices, plus registry-level settings.
#[derive(Clone, Debug)]
pub struct Config {
    /// The user's configured devices.
    pub devices: Vec<Device>,
    /// The user's LIFX API secret.
    pub lifx_secret: Option<String>,
    /// The user's configured MQTT broker hostname.
    pub mqtt_host: Option<String>,
    /// The user's configured MQTT broker port (1883 is used if not specified).
    pub mqtt_port: Option<u16>,
}

/// Does the identifier `s` match device `d` by name or by alias,
/// up to ASCII case?
pub open spec fn name_or_alias_matches(d: Device, s: Seq<char>) -> bool {
    ||| eq_ignore_ascii_case(d.name@, s)
    ||| match d.alternatives {
        Some(alts) => exists|k: int|
            0 <= k < alts@.len() && eq_ignore_ascii_case(#[trigger] alts@[k]@, s),
        None => false,
    }
}

/// Does the identifier `s` match the device `d` standing at 1-based
/// position `pos1`?  All three predicates — name, alias, position —
/// are tried per device, so that a device named "2" shadows the
/// positional lookup of a later device.
pub open spec fn device_matches(d: Device, s: Seq<char>, pos1: nat) -> bool {
    name_or_alias_matches(d, s) || s == dec_rep(pos1)
}

/// The first index at or after `k` whose device matches `s`.
pub open spec fn find_index_from(devs: Seq<Device>, s: Seq<char>, k: int) -> Option<int>
    decreases devs.len() - k,
{
    if k < 0 || k >= devs.len() {
        None
    } else if device_matches(devs[k], s, (k + 1) as nat) {
        Some(k)
    } else {
        find_index_from(devs, s, k + 1)
    }
}

/// The index of the first device that `s` resolves to, if any.
pub open spec fn spec_find(devs: Seq<Device>, s: Seq<char>) -> Option<int> {
    find_index_from(devs, s, 0)
}

/// Does `s` match `devs[i]` by name, alias or position, with no
/// earlier device matching?
pub open spec fn is_first_match(devs: Seq<Device>, s: Seq<char>, i: int) -> bool {
    &&& 0 <= i < devs.len()
    &&& device_matches(devs[i], s, (i + 1) as nat)
    &&& forall|j: int| 0 <= j < i ==> !device_matches(#[trigger] devs[j], s, (j + 1) as nat)
}

/// `find_index_from` returns exactly the first match at or after `k`.
proof fn lemma_find_index_from(devs: Seq<Device>, s: Seq<char>, k: int)
    requires
        0 <= k <= devs.len(),
    ensures
        match find_index_from(devs, s, k) {
            Some(i) => k <= i < devs.len() && device_matches(devs[i], s, (i + 1) as nat)
                && forall|j: int| k <= j < i ==> !device_matches(#[trigger] devs[j], s, (j + 1) as nat),
            None => forall|j: int| k <= j < devs.len()
                ==> !device_matches(#[trigger] devs[j], s, (j + 1) as nat),
        },
    decreases devs.len() - k,
{
    if k < devs.len() && !device_matches(devs[k], s, (k + 1) as nat) {
        lemma_find_index_from(devs, s, k + 1);
    }
}

/// `spec_find` returns exactly the first matching index.
pub proof fn lemma_spec_find(devs: Seq<Device>, s: Seq<char>)
    ensures
        match spec_find(devs, s) {
            Some(i) => is_first_match(devs, s, i),
            None => forall|j: int| 0 <= j < devs.len()
                ==> !device_matches(#[trigger] devs[j], s, (j + 1) as nat),
        },
{
    lemma_find_index_from(devs, s, 0);
}

/// A device that `s` names or aliases is found: `find` resolves `s` to
/// the device at `i` whenever `s` equals its name or one of its
/// aliases up to ASCII case and no earlier device matches `s` (with a
/// duplicated name, the earliest holder wins).
pub proof fn lemma_find_named(devs: Seq<Device>, s: Seq<char>, i: int)
    requires
        0 <= i < devs.len(),
        name_or_alias_matches(devs[i], s),
        forall|j: int| 0 <= j < i ==> !device_matches(#[trigger] devs[j], s, (j + 1) as nat),
    ensures
        spec_find(devs, s) == Some(i),
{
    lemma_spec_find(devs, s);
}

/// Every digit of the decimal representation is a decimal digit
/// character, and the first is never `0` unless the number itself is
/// zero.
proof fn lemma_dec_rep_shape(n: nat)
    ensures
        dec_rep(n).len() >= 1,
        forall|i: int| 0 <= i < dec_rep(n).len() ==> '0' <= #[trigger] dec_rep(n)[i] <= '9',
        n >= 1 ==> dec_rep(n)[0] != '0',
        n >= 10 ==> dec_rep(n).len() >= 2,
    decreases n,
{
    if n >= 10 {
        lemma_dec_rep_shape(n / 10);
    }
}

/// The decimal digit characters spell their digits apart.
proof fn lemma_dec_digit_injective(x: int, y: int)
    requires
        0 <= x < 10,
        0 <= y < 10,
        dec_digit(x) == dec_digit(y),
    ensures
        x == y,
{
    assert(dec_digit(x) as u32 == 48 + x);
    assert(dec_digit(y) as u32 == 48 + y);
}

/// The decimal representation is injective: distinct numbers spell
/// distinct strings.
proof fn lemma_dec_rep_injective(a: nat, b: nat)
    requires
        dec_rep(a) == dec_rep(b),
    ensures
        a == b,
    decreases a,
{
    lemma_dec_rep_shape(a);
    lemma_dec_rep_shape(b);
    if a >= 10 && b >= 10 {
        assert(dec_rep(a).drop_last() =~= dec_rep(a / 10));
        assert(dec_rep(b).drop_last() =~= dec_rep(b / 10));
        lemma_dec_rep_injective(a / 10, b / 10);
        assert(dec_rep(a).last() == dec_digit((a % 10) as int));
        assert(dec_rep(b).last() == dec_digit((b % 10) as int));
        lemma_dec_digit_injective((a % 10) as int, (b % 10) as int);
    } else if a < 10 && b < 10 {
        assert(dec_rep(a)[0] == dec_rep(b)[0]);
        lemma_dec_digit_injective(a as int, b as int);
    } else if a < 10 && b >= 10 {
        assert(dec_rep(a).len() == 1);
    } else {
        assert(dec_rep(b).len() == 1);
    }
}

/// An identifier that names and aliases no device resolves to a
/// device only by position: where it spells no position within range
/// either — the empty string, anything with a non-digit such as a
/// sign, `"0"`, a representation with a leading zero, or a position
/// past the device count — `find` resolves it to nothing.
pub proof fn lemma_find_rejects(devs: Seq<Device>, s: Seq<char>)
    requires
        forall|j: int| 0 <= j < devs.len() ==> !name_or_alias_matches(#[trigger] devs[j], s),
        forall|n: nat| s == dec_rep(n) ==> !(1 <= n <= devs.len()),
    ensures
        spec_find(devs, s) is None,
{
    lemma_spec_find(devs, s);
    match spec_find(devs, s) {
        Some(i) => {
            assert(s == dec_rep((i + 1) as nat));
            assert(false);
        }
        None => {}
    }
}

/// An identifier that names and aliases no device and does not even
/// look like a 1-based position — it is empty, or starts with
/// anything outside `1..9` (such as `0` or a minus sign), or holds a
/// non-digit anywhere — resolves to nothing.
pub proof fn lemma_find_rejects_malformed(devs: Seq<Device>, s: Seq<char>)
    requires
        forall|j: int| 0 <= j < devs.len() ==> !name_or_alias_matches(#[trigger] devs[j], s),
        s.len() == 0 || !('1' <= s[0] && s[0] <= '9') || exists|i: int|
            0 <= i < s.len() && !('0' <= #[trigger] s[i] && s[i] <= '9'),
    ensures
        spec_find(devs, s) is None,
{
    assert forall|n: nat| s == dec_rep(n) implies !(1 <= n <= devs.len()) by {
        if 1 <= n {
            lemma_dec_rep_shape(n);
        }
    }
    lemma_find_rejects(devs, s);
}

/// An identifier spelling a position past the device count, and
/// naming and aliasing nothing, resolves to nothing.
pub proof fn lemma_find_rejects_beyond_count(devs: Seq<Device>, n: nat)
    requires
        n > devs.len(),
        forall|j: int| 0 <= j < devs.len()
            ==> !name_or_alias_matches(#[trigger] devs[j], dec_rep(n)),
    ensures
        spec_find(devs, dec_rep(n)) is None,
{
    assert forall|m: nat| dec_rep(n) == dec_rep(m) implies !(1 <= m <= devs.len()) by {
        lemma_dec_rep_injective(n, m);
    }
    lemma_find_rejects(devs, dec_rep(n));
}

/// Does `s` match `d` (standing at 1-based position `pos1`)?
fn device_matches_exec(d: &Device, s: &str, pos1: usize) -> (b: bool)
    ensures
        b == device_matches(*d, s@, pos1 as nat),
{
    if str_eq_ignore_ascii_case(d.name.as_str(), s) {
        return true;
    }
    match d.alternatives.as_ref() {
        Some(alts) => {
            let n = alts.len();
            let mut k: usize = 0;
            while k < n
                invariant
                    k <= n,
                    n == alts@.len(),
                    d.alternatives == Some(*alts),
                    forall|j: int| 0 <= j < k ==> !eq_ignore_ascii_case(#[trigger] alts@[j]@, s@),
                decreases n - k,
            {
                if str_eq_ignore_ascii_case(alts[k].as_str(), s) {
                    proof {
                        let av = d.alternatives->0;
                        assert(av == *alts);
                        assert(eq_ignore_ascii_case(av@[k as int]@, s@));
                    }
                    return true;
                }
                k += 1;
            }
        }
        None => {}
    }
    str_is_dec_of(s, pos1)
}

impl Config {
    /// The position of the device the identifier resolves to, if any:
    /// the devices are scanned once, in order, and the first for which
    /// the name, an alias, or the 1-based position matches wins.
    pub fn find_index(&self, s: &str) -> (r: Option<usize>)
        ensures
            match r {
                Some(i) => spec_find(self.devices@, s@) == Some(i as int),
                None => spec_find(self.devices@, s@) is None,
            },
    {
        let n = self.devices.len();
        let mut i: usize = 0;
        while i < n
            invariant
                i <= n,
                n == self.devices@.len(),
                forall|j: int| 0 <= j < i
                    ==> !device_matches(#[trigger] self.devices@[j], s@, (j + 1) as nat),
            decreases n - i,
        {
            if device_matches_exec(&self.devices[i], s, i + 1) {
                proof {
                    lemma_find_index_from(self.devices@, s@, 0);
                }
                return Some(i);
            }
            i += 1;
        }
        proof {
            lemma_find_index_from(self.devices@, s@, 0);
        }
        None
    }

    /// Finds the specified device in the list of configured devices.
    ///
    /// The device sequence is scanned once, in order; the first device
    /// whose name or any alias equals the identifier up to ASCII case,
    /// or whose 1-based position spells the identifier in decimal, is
    /// returned.  An identifier that matches nothing — in particular
    /// the empty string, `"0"`, a negative number, or a position past
    /// the end — resolves to `None`.
    pub fn find<'a>(&'a self, s: &str) -> (r: Option<&'a Device>)
        ensures
            match r {
                Some(d) => {
                    &&& spec_find(self.devices@, s@) matches Some(i)
                    &&& is_first_match(self.devices@, s@, spec_find(self.devices@, s@)->0)
                    &&& *d == self.devices@[spec_find(self.devices@, s@)->0]
                },
                None => spec_find(self.devices@, s@) is None,
            },
    {
        proof {
            lemma_spec_find(self.devices@, s@);
        }
        match self.find_index(s) {
            Some(i) => Some(&self.devices[i]),
            None => None,
        }
    }
}

/// Full device identity: the same kind and selector, the same name,
/// and the same aliases in the same order.
pub open spec fn same_device(a: Device, b: Device) -> bool {
    &&& match (a.kind, b.kind) {
        (Type::LifxBulb { selector: s1 }, Type::LifxBulb { selector: s2 }) => s1@ == s2@,
    }
    &&& a.name@ == b.name@
    &&& match (a.alternatives, b.alternatives) {
        (Some(x), Some(y)) => x@.len() == y@.len() && forall|k: int|
            0 <= k < x@.len() ==> #[trigger] x@[k]@ == y@[k]@,
        (None, None) => true,
        _ => false,
    }
}

/// Compares two string lists element by element.
fn string_vec_eq(a: &Vec<String>, b: &Vec<String>) -> (r: bool)
    ensures
        r == (a@.len() == b@.len() && forall|k: int|
            0 <= k < a@.len() ==> #[trigger] a@[k]@ == b@[k]@),
{
    let n = a.len();
    if n != b.len() {
        return false;
    }
    let mut k: usize = 0;
    while k < n
        invariant
            k <= n,
            n == a@.len(),
            n == b@.len(),
            forall|j: int| 0 <= j < k ==> #[trigger] a@[j]@ == b@[j]@,
        decreases n - k,
    {
        if !str_eq(a[k].as_str(), b[k].as_str()) {
            return false;
        }
        k += 1;
    }
    true
}

/// Are the two devices identical?
fn device_eq_exec(a: &Device, b: &Device) -> (r: bool)
    ensures
        r == same_device(*a, *b),
{
    let same_kind = match (&a.kind, &b.kind) {
        (Type::LifxBulb { selector: s1 }, Type::LifxBulb { selector: s2 }) => {
            str_eq(s1.as_str(), s2.as_str())
        }
    };
    if !same_kind {
        return false;
    }
    if !str_eq(a.name.as_str(), b.name.as_str()) {
        return false;
    }
    match (a.alternatives.as_ref(), b.alternatives.as_ref()) {
        (Some(x), Some(y)) => {
            proof {
                assert(a.alternatives == Some(*x));
                assert(b.alternatives == Some(*y));
            }
            string_vec_eq(x, y)
        }
        (None, None) => true,
        _ => false,
    }
}

/// The least index at or after `k` (but not past `i`) whose device is
/// identical to `devs[i]`.
pub open spec fn first_equal_from(devs: Seq<Device>, i: int, k: int) -> int
    decreases i - k,
{
    if k < 0 || k >= i {
        i
    } else if same_device(devs[k], devs[i]) {
        k
    } else {
        first_equal_from(devs, i, k + 1)
    }
}

/// The index of the first device identical to `devs[i]` — at most `i`
/// itself.
pub open spec fn first_equal(devs: Seq<Device>, i: int) -> int {
    first_equal_from(devs, i, 0)
}

proof fn lemma_first_equal_from(devs: Seq<Device>, i: int, k: int)
    requires
        0 <= k <= i < devs.len(),
    ensures
        ({
            let j = first_equal_from(devs, i, k);
            &&& k <= j <= i
            &&& same_device(devs[j], devs[i])
            &&& forall|m: int| k <= m < j ==> !same_device(#[trigger] devs[m], devs[i])
        }),
    decreases i - k,
{
    if k < i && !same_device(devs[k], devs[i]) {
        lemma_first_equal_from(devs, i, k + 1);
    }
}

/// `first_equal` is exactly the least index holding a device identical
/// to `devs[i]`.
pub proof fn lemma_first_equal(devs: Seq<Device>, i: int)
    requires
        0 <= i < devs.len(),
    ensures
        ({
            let j = first_equal(devs, i);
            &&& 0 <= j <= i
            &&& same_device(devs[j], devs[i])
            &&& forall|m: int| 0 <= m < j ==> !same_device(#[trigger] devs[m], devs[i])
        }),
{
    lemma_first_equal_from(devs, i, 0);
}

/// Finds the first device identical to `devices[i]`.
fn first_equal_index(devices: &Vec<Device>, i: usize) -> (j: usize)
    requires
        i < devices@.len(),
    ensures
        j == first_equal(devices@, i as int),
        j <= i,
{
    proof {
        lemma_first_equal(devices@, i as int);
    }
    let mut j: usize = 0;
    while j < i
        invariant
            j <= i,
            i < devices@.len(),
            first_equal(devices@, i as int) == first_equal_from(devices@, i as int, j as int),
        decreases i - j,
    {
        if device_eq_exec(&devices[j], &devices[i]) {
            return j;
        }
        j += 1;
    }
    j
}

/// Does every device name stand free of the topic separator `/`?  A
/// name holding one would produce an ambiguous topic, so such names
/// are rejected when the registry is built.
pub open spec fn names_ok(devs: Seq<Device>) -> bool {
    forall|j: int| 0 <= j < devs.len() ==> no_slash(#[trigger] devs[j].name@)
}

impl Config {
    /// Checks the registry-construction rule on names: none may hold
    /// the topic separator.  The configuration store calls this before
    /// accepting a loaded registry.
    pub fn valid_names(&self) -> (b: bool)
        ensures
            b == names_ok(self.devices@),
    {
        let n = self.devices.len();
        let mut j: usize = 0;
        while j < n
            invariant
                j <= n,
                n == self.devices@.len(),
                forall|k: int| 0 <= k < j ==> no_slash(#[trigger] self.devices@[k].name@),
            decreases n - j,
        {
            if !no_slash_exec(self.devices[j].name.as_str()) {
                return false;
            }
            j += 1;
        }
        true
    }
}

/// A root-level configuration option to set.
#[derive(Debug, Clone, PartialEq, Eq)]
pub enum SetKey {
    /// Set the LIFX API secret key to use.
    LifxSecret {
        /// The secret to use.
        value: Option<String>,
    },
}

/// An administrative command against the registry.
#[derive(Debug, Clone, PartialEq, Eq)]
pub enum ConfigCommand {
    /// Add a device to the list of configured devices.
    Add,
    /// Remove a device from the list of configured devices.
    Remove { device: String },
    /// Set a root-level configuration option.
    SetOption { key: SetKey },
}

/// The commands `config` carries out.  Adding a device is not offered
/// here, and setting the secret needs the value spelled out: both ask
/// for interaction that belongs to the caller.
pub open spec fn supported_command(command: ConfigCommand) -> bool {
    match command {
        ConfigCommand::Add => false,
        ConfigCommand::Remove { .. } => true,
        ConfigCommand::SetOption { key: SetKey::LifxSecret { value } } => value is Some,
    }
}

/// Applies an administrative command to the in-memory registry:
/// removing a device, or replacing the registry-level credential.
/// Removal resolves the identifier through `find` and then removes
/// the **first** device identical to the one found — by full device
/// identity, so with duplicate identical devices the earliest copy
/// goes, whichever of them the identifier resolved to.  Persisting
/// the changed registry is the caller's to do, through the external
/// configuration store.
pub fn config(cfg: &mut Config, command: ConfigCommand) -> (r: Result<(), ConfigError>)
    requires
        supported_command(command),
    ensures
        match command {
            ConfigCommand::Add => false,
            ConfigCommand::Remove { device } => {
                match spec_find(old(cfg).devices@, device@) {
                    Some(i) => {
                        &&& r is Ok
                        &&& final(cfg).devices@ == old(cfg).devices@.remove(
                            first_equal(old(cfg).devices@, i),
                        )
                        &&& final(cfg).lifx_secret == old(cfg).lifx_secret
                        &&& final(cfg).mqtt_host == old(cfg).mqtt_host
                        &&& final(cfg).mqtt_port == old(cfg).mqtt_port
                    },
                    None => {
                        &&& r matches Err(ConfigError::DeviceNotFound(d)) && d@ == device@
                        &&& *final(cfg) == *old(cfg)
                    },
                }
            },
            ConfigCommand::SetOption { key: SetKey::LifxSecret { value } } => {
                &&& r is Ok
                &&& final(cfg).lifx_secret == value
                &&& final(cfg).devices == old(cfg).devices
                &&& final(cfg).mqtt_host == old(cfg).mqtt_host
                &&& final(cfg).mqtt_port == old(cfg).mqtt_port
            },
        },
{
    match command {
        ConfigCommand::Add => unreached(),
        ConfigCommand::Remove { device } => match cfg.find_index(device.as_str()) {
            Some(i) => {
                proof {
                    lemma_spec_find(cfg.devices@, device@);
                }
                let j = first_equal_index(&cfg.devices, i);
                cfg.devices.remove(j);
                Ok(())
            }
            None => Err(ConfigError::DeviceNotFound(device)),
        },
        ConfigCommand::SetOption { key } => match key {
            SetKey::LifxSecret { value } => {
                cfg.lifx_secret = value;
                Ok(())
            }
        },
    }
}

} // verus!
