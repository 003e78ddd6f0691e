//! The settings of the packet investigation tool: which packets it prints,
//! and the clock it shows them with.
use vstd::prelude::*;

use crate::error::ErrorKind;
use crate::packet2::{Packet, PacketType};
use crate::text::{split_char, split_on, str_eq};
use crate::version::{all_digits, decimal_value, parse_u32, spec_parse_client_version, spec_parse_u32, Version};
use crate::wowsreplay::ReplayMeta;

verus! {

/// What `parse_int::parse::<u32>` gives for `s` (decimal, or hexadecimal,
/// octal or binary after a `0x`, `0o` or `0b` prefix, with `_` allowed
/// between digits); `None` where it fails.
pub uninterp spec fn parse_int_u32(s: Seq<char>) -> Option<u32>;

/// Parses `s` with `parse_int::parse::<u32>`. Trusted: the result is the
/// one [`parse_int_u32`] names; and a non-empty string of decimal digits
/// gives its value when that fits a `u32`, and fails otherwise (the
/// function trims `s`, finds no sign or prefix, and reads base 10).
/// `parse` multiplies a negated number by `0 - 1`, which overflows a `u32`,
/// so strings with a `-` are not passed.
#[verifier::external_body]
fn parse_int_call(s: &str) -> (r: Option<u32>)
    requires
        forall|i: int| 0 <= i < s@.len() ==> s@[i] != '-',
    ensures
        r == parse_int_u32(s@),
        s@.len() > 0 && all_digits(s@) ==> r == if decimal_value(s@) <= u32::MAX {
            Some(decimal_value(s@) as u32)
        } else {
            None
        },
{
    parse_int::parse::<u32>(s).ok()
}

/// A number as the tool's options are written: what `parse_int` reads, but
/// never a negative one.
pub open spec fn spec_parse_number(s: Seq<char>) -> Option<u32> {
    if exists|i: int| 0 <= i < s.len() && s[i] == '-' {
        None
    } else {
        parse_int_u32(s)
    }
}

/// Reads a number of the tool's options, as [`spec_parse_number`] says.
pub fn parse_number(s: &str) -> (r: Option<u32>)
    ensures
        r == spec_parse_number(s@),
        s@.len() > 0 && all_digits(s@) && decimal_value(s@) <= u32::MAX ==> r == Some(decimal_value(s@) as u32),
{
    let n = s.unicode_len();
    let mut i: usize = 0;
    while i < n
        invariant
            n == s@.len(),
            i <= n,
            forall|j: int| 0 <= j < i ==> s@[j] != '-',
        decreases n - i,
    {
        if s.get_char(i) == '-' {
            proof {
                assert(s@[i as int] == '-');
                if all_digits(s@) {
                    assert(crate::version::is_digit(s@[i as int]));
                }
            }
            return None;
        }
        i += 1;
    }
    parse_int_call(s)
}

/// A clock offset written `hh:mm:ss+offset`: the seconds of `hh:mm:ss` and
/// the offset, each a decimal `u32`; `None` when it is not so written or the
/// seconds do not fit a `u32`. Text after a second `+` is ignored.
pub open spec fn spec_timestamp(s: Seq<char>) -> Option<(u32, u32)> {
    let ts = split_on(s, '+');
    if ts.len() < 2 {
        None
    } else {
        match spec_parse_u32(ts[1]) {
            None => None,
            Some(offset) => {
                let parts = split_on(ts[0], ':');
                if parts.len() != 3 {
                    None
                } else {
                    match (spec_parse_u32(parts[0]), spec_parse_u32(parts[1]), spec_parse_u32(parts[2])) {
                        (Some(h), Some(m), Some(sec)) => if h * 3600 + m * 60 + sec <= u32::MAX {
                            Some(((h * 3600 + m * 60 + sec) as u32, offset))
                        } else {
                            None
                        },
                        _ => None,
                    }
                }
            },
        }
    }
}

/// Reads a clock offset, as [`spec_timestamp`] says.
pub fn parse_timestamp(s: &str) -> (r: Option<(u32, u32)>)
    ensures
        r == spec_timestamp(s@),
{
    let ts = split_char(s, '+');
    if ts.len() < 2 {
        return None;
    }
    let offset = match parse_u32(ts[1].as_str()) {
        Some(o) => o,
        None => return None,
    };
    let parts = split_char(ts[0].as_str(), ':');
    if parts.len() != 3 {
        return None;
    }
    let h = match parse_u32(parts[0].as_str()) {
        Some(v) => v,
        None => return None,
    };
    let m = match parse_u32(parts[1].as_str()) {
        Some(v) => v,
        None => return None,
    };
    let sec = match parse_u32(parts[2].as_str()) {
        Some(v) => v,
        None => return None,
    };
    let total: u64 = h as u64 * 3600 + m as u64 * 60 + sec as u64;
    if total > u32::MAX as u64 {
        return None;
    }
    Some((total as u32, offset))
}

/// The options of the investigation tool, as given on the command line.
pub struct InvestigativeBuilder {
    pub no_meta: bool,
    pub filter_packet: Option<String>,
    pub filter_method: Option<String>,
    pub timestamp: Option<String>,
    pub entity_id: Option<String>,
}

/// The settings of the investigation tool for one replay.
pub struct InvestigativePrinter {
    /// Print only packets of this kind.
    pub filter_packet: Option<u32>,
    /// Print only calls of this method.
    pub filter_method: Option<String>,
    /// Show clocks shifted by `seconds - offset`: the seconds of the given
    /// `hh:mm:ss`, and the offset.
    pub timestamp: Option<(u32, u32)>,
    /// With a method filter, print only calls on this entity.
    pub entity_id: Option<u32>,
    /// Print the players of the arena state.
    pub meta: bool,
    pub version: Version,
}

pub open spec fn opt_number(s: Option<String>) -> Option<Option<u32>> {
    match s {
        None => Some(None),
        Some(t) => match spec_parse_number(t@) {
            Some(n) => Some(Some(n)),
            None => None,
        },
    }
}

pub open spec fn opt_timestamp(s: Option<String>) -> Option<Option<(u32, u32)>> {
    match s {
        None => Some(None),
        Some(t) => match spec_timestamp(t@) {
            Some(v) => Some(Some(v)),
            None => None,
        },
    }
}

fn number_option(s: &Option<String>) -> (r: Result<Option<u32>, ErrorKind>)
    ensures
        match r {
            Ok(v) => opt_number(*s) == Some(v),
            Err(_) => opt_number(*s) is None,
        },
{
    match s {
        None => Ok(None),
        Some(t) => match parse_number(t.as_str()) {
            Some(n) => Ok(Some(n)),
            None => Err(ErrorKind::ParsingFailure("not a number".to_owned())),
        },
    }
}

impl InvestigativeBuilder {
    /// The settings for the replay that `meta` describes. Fails when the
    /// replay's client version, a number, or the clock offset cannot be
    /// read.
    pub fn build(&self, meta: &ReplayMeta) -> (r: Result<InvestigativePrinter, ErrorKind>)
        ensures
            match r {
                Ok(p) => {
                    &&& spec_parse_client_version(meta.clientVersionFromExe@) == Some(p.version)
                    &&& opt_number(self.filter_packet) == Some(p.filter_packet)
                    &&& opt_number(self.entity_id) == Some(p.entity_id)
                    &&& opt_timestamp(self.timestamp) == Some(p.timestamp)
                    &&& p.meta == !self.no_meta
                    &&& match (p.filter_method, self.filter_method) {
                        (Some(a), Some(b)) => a@ == b@,
                        (None, None) => true,
                        _ => false,
                    }
                },
                Err(_) => spec_parse_client_version(meta.clientVersionFromExe@) is None || opt_number(
                    self.filter_packet,
                ) is None || opt_number(self.entity_id) is None || opt_timestamp(self.timestamp) is None,
            },
    {
        let version = match Version::parse_client_version(meta.clientVersionFromExe.as_str()) {
            Some(v) => v,
            None => return Err(ErrorKind::ParsingFailure("malformed client version".to_owned())),
        };
        let filter_packet = number_option(&self.filter_packet)?;
        let entity_id = number_option(&self.entity_id)?;
        let timestamp = match &self.timestamp {
            None => None,
            Some(t) => match parse_timestamp(t.as_str()) {
                Some(v) => Some(v),
                None => return Err(ErrorKind::ParsingFailure("expected hh:mm:ss+offset".to_owned())),
            },
        };
        let filter_method = match &self.filter_method {
            None => None,
            Some(m) => Some(m.clone()),
        };
        Ok(InvestigativePrinter { filter_packet, filter_method, timestamp, entity_id, meta: !self.no_meta, version })
    }
}

/// Whether the tool prints a packet of kind `ty` with payload `payload`:
/// it must be of the kind filtered for, if any; with a method filter it
/// must be a call of that method, on the entity filtered for, if any.
pub open spec fn spec_selects(p: InvestigativePrinter, ty: u32, payload: PacketType) -> bool {
    &&& (p.filter_packet matches Some(n) ==> n == ty)
    &&& (p.filter_method matches Some(name) ==> (payload matches PacketType::EntityMethod(m) && m.method@
        == name@ && (p.entity_id matches Some(e) ==> m.entity_id == e)))
}

impl InvestigativePrinter {
    /// Whether the tool prints `packet`, as [`spec_selects`] says.
    pub fn selects(&self, packet: &Packet) -> (r: bool)
        ensures
            r == spec_selects(*self, packet.packet_type, packet.payload),
    {
        if let Some(n) = self.filter_packet {
            if n != packet.packet_type {
                return false;
            }
        }
        if let Some(name) = &self.filter_method {
            match &packet.payload {
                PacketType::EntityMethod(m) => {
                    if !str_eq(m.method.as_str(), name.as_str()) {
                        return false;
                    }
                    if let Some(e) = self.entity_id {
                        if m.entity_id != e {
                            return false;
                        }
                    }
                },
                _ => {
                    return false;
                },
            }
        }
        true
    }
}

/// Hours, minutes and seconds of a clock of `total` seconds.
pub fn clock_hms(total: u32) -> (r: (u32, u32, u32))
    ensures
        r.0 == total / 3600,
        r.1 == (total / 60) % 60,
        r.2 == total % 60,
        r.0 * 3600 + r.1 * 60 + r.2 == total,
{
    let s = total % 60;
    let rest = (total - s) / 60;
    let m = rest % 60;
    let h = (rest - m) / 60;
    assert(h == total / 3600 && rest == total / 60) by (nonlinear_arith)
        requires
            s == total % 60,
            rest == (total - s) / 60,
            m == rest % 60,
            h == (rest - m) / 60,
    ;
    (h, m, s)
}

} // verus!
