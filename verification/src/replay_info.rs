//! What a replay browser shows of one replay: who played which ship on
//! which map, the game version, how many packets it holds, and whether the
//! player's team won.
use vstd::prelude::*;
use vstd::string::StrSliceExecFns;

use crate::analyzer::decoder::{DecodedPacket, DecodedPacketPayload, OnArenaStateReceivedPlayer};
use crate::error::ErrorKind;
use crate::text::str_eq;
use crate::version::{decimal, push_decimal_u64, spec_parse_client_version, Version};
use crate::wowsreplay::ReplayMeta;

verus! {

/// One replay, as a replay browser lists it.
pub struct ReplayInfo {
    pub username: String,
    pub date: String,
    pub ship: String,
    pub map: String,
    pub version: Version,
    pub hash: String,
    pub path: String,
    /// Whether the player's team won, once the battle has ended.
    pub victory: Option<bool>,
    pub num_packets: usize,
    /// The player's team, -1 until the arena state names it.
    pub player_team: i64,
}

/// The team of the first player of `ps` named `name`, or `team` when none
/// is.
pub open spec fn team_of(ps: Seq<OnArenaStateReceivedPlayer>, name: Seq<char>, team: i64) -> i64
    decreases ps.len(),
{
    if ps.len() == 0 {
        team
    } else if ps[0].username@ == name {
        ps[0].teamid
    } else {
        team_of(ps.drop_first(), name, team)
    }
}

/// The team of the first player of `ps` named `name`, or `team` when none
/// is, as [`team_of`] says.
fn find_team(ps: &Vec<OnArenaStateReceivedPlayer>, name: &str, team: i64) -> (r: i64)
    ensures
        r == team_of(ps@, name@, team),
{
    let mut k: usize = 0;
    proof {
        assert(ps@.subrange(0, ps@.len() as int) =~= ps@);
    }
    while k < ps.len()
        invariant
            k <= ps@.len(),
            team_of(ps@, name@, team) == team_of(ps@.subrange(k as int, ps@.len() as int), name@, team),
        decreases ps@.len() - k,
    {
        let ghost rest = ps@.subrange(k as int, ps@.len() as int);
        proof {
            assert(rest[0] == ps@[k as int]);
            assert(rest.drop_first() =~= ps@.subrange(k + 1, ps@.len() as int));
        }
        if str_eq(ps[k].username.as_str(), name) {
            return ps[k].teamid;
        }
        k += 1;
    }
    proof {
        assert(ps@.subrange(k as int, ps@.len() as int) =~= Seq::<OnArenaStateReceivedPlayer>::empty());
    }
    team
}

impl ReplayInfo {
    /// The entry of the replay at `path` with hash `hash`, from its
    /// metadata: nothing decoded yet. Fails when the client version cannot
    /// be read.
    pub fn new(path: String, hash: String, meta: &ReplayMeta) -> (r: Result<ReplayInfo, ErrorKind>)
        ensures
            match r {
                Ok(info) => {
                    &&& spec_parse_client_version(meta.clientVersionFromExe@) == Some(info.version)
                    &&& info.username@ == meta.playerName@
                    &&& info.date@ == meta.dateTime@
                    &&& info.ship@ == meta.playerVehicle@
                    &&& info.map@ == meta.mapDisplayName@
                    &&& info.hash@ == hash@
                    &&& info.path@ == path@
                    &&& info.victory is None
                    &&& info.num_packets == 0
                    &&& info.player_team == -1
                },
                Err(_) => spec_parse_client_version(meta.clientVersionFromExe@) is None,
            },
    {
        let version = match Version::parse_client_version(meta.clientVersionFromExe.as_str()) {
            Some(v) => v,
            None => return Err(ErrorKind::ParsingFailure("malformed client version".to_owned())),
        };
        Ok(ReplayInfo {
            username: meta.playerName.clone(),
            date: meta.dateTime.clone(),
            ship: meta.playerVehicle.clone(),
            map: meta.mapDisplayName.clone(),
            version,
            hash,
            path,
            victory: None,
            num_packets: 0,
            player_team: -1,
        })
    }

    /// Takes in one packet, decoded or not: every packet is counted; the
    /// arena state names the player's team (from the first player with
    /// the player's name); the end of the battle tells whether that team
    /// won, once the team is known.
    pub fn process(&mut self, decoded: &Result<DecodedPacket, ErrorKind>)
        requires
            old(self).num_packets < usize::MAX,
        ensures
            final(self).num_packets == old(self).num_packets + 1,
            final(self).username == old(self).username,
            final(self).version == old(self).version,
            match decoded {
                Ok(d) => match d.payload {
                    DecodedPacketPayload::OnArenaStateReceived { players, .. } => {
                        &&& final(self).player_team == team_of(players@, old(self).username@, old(self).player_team)
                        &&& final(self).victory == old(self).victory
                    },
                    DecodedPacketPayload::BattleEnd { winning_team, .. } => {
                        &&& final(self).player_team == old(self).player_team
                        &&& final(self).victory == if old(self).player_team != -1 {
                            Some(winning_team as i64 == old(self).player_team)
                        } else {
                            old(self).victory
                        }
                    },
                    _ => final(self).player_team == old(self).player_team && final(self).victory == old(self).victory,
                },
                Err(_) => final(self).player_team == old(self).player_team && final(self).victory == old(self).victory,
            },
    {
        match decoded {
            Ok(d) => match &d.payload {
                DecodedPacketPayload::OnArenaStateReceived { players, .. } => {
                    self.player_team = find_team(players, self.username.as_str(), self.player_team);
                },
                DecodedPacketPayload::BattleEnd { winning_team, .. } => {
                    if self.player_team != -1 {
                        self.victory = Some(*winning_team as i64 == self.player_team);
                    }
                },
                _ => {},
            },
            Err(_) => {},
        }
        self.num_packets += 1;
    }
}

/// The number of bytes that `c` takes in UTF-8.
pub open spec fn utf8_width(c: char) -> nat {
    if (c as u32) < 0x80 {
        1
    } else if (c as u32) < 0x800 {
        2
    } else if (c as u32) < 0x10000 {
        3
    } else {
        4
    }
}

/// The characters that the first `n` bytes of the UTF-8 encoding of `s`
/// hold, when `s` has that many bytes and they end at a character boundary
/// (what `&s[0..n]` gives without panicking).
pub open spec fn byte_prefix(s: Seq<char>, n: nat) -> Option<Seq<char>>
    decreases s.len(),
{
    if n == 0 {
        Some(Seq::empty())
    } else if s.len() == 0 || utf8_width(s[0]) > n {
        None
    } else {
        match byte_prefix(s.drop_first(), (n - utf8_width(s[0])) as nat) {
            Some(p) => Some(seq![s[0]] + p),
            None => None,
        }
    }
}

/// The characters of `s` in its first `n` bytes, as [`byte_prefix`] says.
fn byte_prefix_of(s: &str, n: usize) -> (r: Option<String>)
    ensures
        match r {
            Some(p) => byte_prefix(s@, n as nat) == Some(p@),
            None => byte_prefix(s@, n as nat) is None,
        },
{
    let len = s.unicode_len();
    let mut i: usize = 0;
    let mut left: usize = n;
    let mut out = String::new();
    proof {
        assert(s@.subrange(0, len as int) =~= s@);
        assert forall|p: Seq<char>| #![trigger out@ + p] out@ + p =~= p by {}
    }
    while left > 0
        invariant
            len == s@.len(),
            i <= len,
            left <= n,
            byte_prefix(s@, n as nat) == match byte_prefix(s@.subrange(i as int, len as int), left as nat) {
                Some(p) => Some(out@ + p),
                None => None,
            },
        decreases left,
    {
        let ghost rest = s@.subrange(i as int, len as int);
        if i == len {
            proof {
                assert(rest.len() == 0);
            }
            return None;
        }
        let c = s.get_char(i);
        let code = c as u32;
        let w: usize = if code < 0x80 {
            1
        } else if code < 0x800 {
            2
        } else if code < 0x10000 {
            3
        } else {
            4
        };
        proof {
            assert(rest[0] == c);
            assert(w == utf8_width(c));
        }
        if w > left {
            return None;
        }
        proof {
            assert(rest.drop_first() =~= s@.subrange(i + 1, len as int));
            assert(out@ + (seq![c] + Seq::<char>::empty()) =~= out@.push(c));
            assert forall|p: Seq<char>| #![trigger out@.push(c) + p] out@ + (seq![c] + p) =~= out@.push(c) + p by {}
        }
        let mut one = String::new();
        one.append(s.substring_char(i, i + 1));
        proof {
            assert(s@.subrange(i as int, i + 1) =~= seq![c]);
        }
        out.append(one.as_str());
        i = i + 1;
        left = left - w;
    }
    Some(out)
}

impl ReplayInfo {
    /// The file name under which the replay server offers this replay for
    /// download: date, ship, map, player and the first ten bytes of the hash,
    /// joined by `-`, with the `.wowsreplay` extension.
    pub fn download_name(&self) -> (r: String)
        requires
            byte_prefix(self.hash@, 10) is Some,
        ensures
            r@ == self.date@ + "-"@ + self.ship@ + "-"@ + self.map@ + "-"@ + self.username@ + "-"@ + byte_prefix(
                self.hash@,
                10,
            )->0 + ".wowsreplay"@,
    {
        proof {
            reveal_strlit("-");
            reveal_strlit(".wowsreplay");
        }
        let short = match byte_prefix_of(self.hash.as_str(), 10) {
            Some(p) => p,
            None => String::new(),
        };
        let mut r = self.date.clone();
        r.append("-");
        r.append(self.ship.as_str());
        r.append("-");
        r.append(self.map.as_str());
        r.append("-");
        r.append(self.username.as_str());
        r.append("-");
        r.append(short.as_str());
        r.append(".wowsreplay");
        r
    }
}

/// The greeting of the replay server's test page, for a visitor `name` of
/// age `age`, with the number of replays read and of files found.
pub fn hello(name: &str, age: u8, replays: usize, total_files: usize) -> (r: String)
    ensures
        r@ == "Hello, "@ + decimal(age as nat) + " year old named "@ + name@ + "! There are "@ + decimal(
            replays as nat,
        ) + " replays, but "@ + decimal(total_files as nat) + " total files have been found"@,
{
    proof {
        reveal_strlit("Hello, ");
        reveal_strlit(" year old named ");
        reveal_strlit("! There are ");
        reveal_strlit(" replays, but ");
        reveal_strlit(" total files have been found");
    }
    let mut r = String::new();
    r.append("Hello, ");
    push_decimal_u64(&mut r, age as u64);
    r.append(" year old named ");
    r.append(name);
    r.append("! There are ");
    push_decimal_u64(&mut r, replays as u64);
    r.append(" replays, but ");
    push_decimal_u64(&mut r, total_files as u64);
    r.append(" total files have been found");
    proof {
        assert(r@ =~= "Hello, "@ + decimal(age as nat) + " year old named "@ + name@ + "! There are "@ + decimal(
            replays as nat,
        ) + " replays, but "@ + decimal(total_files as nat) + " total files have been found"@);
    }
    r
}

} // verus!
