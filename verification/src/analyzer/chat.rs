//! The chat of a battle: who said what, with player names resolved from the
//! arena state.
use std::collections::HashMap;
use vstd::prelude::*;

use crate::analyzer::decoder::{DecodedPacket, DecodedPacketPayload, OnArenaStateReceivedPlayer, VoiceLine};
use crate::error::ErrorKind;
use crate::version::{spec_parse_client_version, Version};
use crate::wowsreplay::ReplayMeta;

verus! {

broadcast use vstd::std_specs::hash::group_hash_axioms;

/// Makes a [`ChatLogger`].
pub struct ChatLoggerBuilder;

impl ChatLoggerBuilder {
    pub fn new() -> ChatLoggerBuilder {
        ChatLoggerBuilder
    }

    /// A chat logger for the replay that `meta` describes; fails when its
    /// client version is malformed.
    pub fn build(&self, meta: &ReplayMeta) -> (r: Result<ChatLogger, ErrorKind>)
        ensures
            match r {
                Ok(c) => spec_parse_client_version(meta.clientVersionFromExe@) == Some(c.version())
                    && c.names() == Map::<i32, Seq<char>>::empty(),
                Err(_) => spec_parse_client_version(meta.clientVersionFromExe@) is None,
            },
    {
        match Version::parse_client_version(meta.clientVersionFromExe.as_str()) {
            Some(version) => {
                let c = ChatLogger { usernames: HashMap::new(), version };
                proof {
                    assert(c.names() =~= Map::<i32, Seq<char>>::empty());
                }
                Ok(c)
            },
            None => Err(ErrorKind::ParsingFailure("malformed client version".to_owned())),
        }
    }
}

/// A line of the chat log.
#[derive(Debug)]
pub enum ChatLine {
    /// A text message; `clock` is the game clock, an `f32` bit pattern.
    Message { clock: u32, sender: String, audience: String, message: String },
    /// A voice line.
    Voice { clock: u32, sender: String, line: VoiceLine },
}

/// Follows the chat of a battle.
pub struct ChatLogger {
    usernames: HashMap<i32, String>,
    version: Version,
}

/// The names known after the players of an arena state are added, in
/// order; `None` when an avatar id does not fit an `i32`.
pub open spec fn with_players(m: Map<i32, Seq<char>>, ps: Seq<OnArenaStateReceivedPlayer>) -> Option<
    Map<i32, Seq<char>>,
>
    decreases ps.len(),
{
    if ps.len() == 0 {
        Some(m)
    } else {
        match with_players(m, ps.drop_last()) {
            Some(m2) => if i32::MIN <= ps.last().avatarid <= i32::MAX {
                Some(m2.insert(ps.last().avatarid as i32, ps.last().username@))
            } else {
                None
            },
            None => None,
        }
    }
}

impl ChatLogger {
    /// The names known, by avatar id.
    pub closed spec fn names(&self) -> Map<i32, Seq<char>> {
        self.usernames@.map_values(|s: String| s@)
    }

    pub closed spec fn version(&self) -> Version {
        self.version
    }

    /// Takes in one decoded packet: the players of an arena state make
    /// their names known; a chat message or a voice line gives a line of
    /// the log, with the sender's name. Fails when the sender's name is not
    /// known, or when an avatar id does not fit an `i32`; then nothing
    /// changes.
    pub fn observe(&mut self, d: &DecodedPacket) -> (r: Result<Option<ChatLine>, ErrorKind>)
        ensures
            final(self).version() == old(self).version(),
            match d.payload {
                DecodedPacketPayload::Chat { sender_id, audience, message, .. } => {
                    &&& final(self).names() == old(self).names()
                    &&& match r {
                        Ok(Some(ChatLine::Message { clock, sender, audience: a, message: m })) => {
                            &&& old(self).names().contains_key(sender_id)
                            &&& sender@ == old(self).names()[sender_id]
                            &&& clock == d.clock && a@ == audience@ && m@ == message@
                        },
                        Err(_) => !old(self).names().contains_key(sender_id),
                        _ => false,
                    }
                },
                DecodedPacketPayload::VoiceLine { sender_id, message, .. } => {
                    &&& final(self).names() == old(self).names()
                    &&& match r {
                        Ok(Some(ChatLine::Voice { clock, sender, line })) => {
                            &&& old(self).names().contains_key(sender_id)
                            &&& sender@ == old(self).names()[sender_id]
                            &&& clock == d.clock && line == message
                        },
                        Err(_) => !old(self).names().contains_key(sender_id),
                        _ => false,
                    }
                },
                DecodedPacketPayload::OnArenaStateReceived { players, .. } => match with_players(
                    old(self).names(),
                    players@,
                ) {
                    Some(m) => r matches Ok(None) && final(self).names() == m,
                    None => r is Err && final(self).names() == old(self).names(),
                },
                _ => r matches Ok(None) && final(self).names() == old(self).names(),
            },
    {
        match &d.payload {
            DecodedPacketPayload::Chat { sender_id, audience, message, .. } => match self.usernames.get(sender_id) {
                Some(name) => Ok(
                    Some(
                        ChatLine::Message {
                            clock: d.clock,
                            sender: name.clone(),
                            audience: audience.clone(),
                            message: message.clone(),
                        },
                    ),
                ),
                None => Err(ErrorKind::ParsingFailure("chat from an unknown player".to_owned())),
            },
            DecodedPacketPayload::VoiceLine { sender_id, message, .. } => match self.usernames.get(sender_id) {
                Some(name) => Ok(Some(ChatLine::Voice { clock: d.clock, sender: name.clone(), line: *message })),
                None => Err(ErrorKind::ParsingFailure("voice line from an unknown player".to_owned())),
            },
            DecodedPacketPayload::OnArenaStateReceived { players, .. } => {
                let mut k: usize = 0;
                let ghost start = self.names();
                while k < players.len()
                    invariant
                        k <= (*players)@.len(),
                        with_players(start, (*players)@.subrange(0, k as int)) is Some,
                        forall|j: int| 0 <= j < k ==> i32::MIN <= #[trigger] (*players)@[j].avatarid <= i32::MAX,
                        self.usernames@ == old(self).usernames@,
                        self.version == old(self).version,
                        start == old(self).names(),
                        d.payload is OnArenaStateReceived,
                        d.payload->OnArenaStateReceived_players == *players,
                    decreases (*players)@.len() - k,
                {
                    proof {
                        assert((*players)@.subrange(0, k + 1).drop_last() =~= (*players)@.subrange(0, k as int));
                    }
                    let a = players[k].avatarid;
                    if a < i32::MIN as i64 || a > i32::MAX as i64 {
                        proof {
                            lemma_with_players_fail(start, (*players)@, k as int);
                        }
                        return Err(ErrorKind::ParsingFailure("avatar id out of range".to_owned()));
                    }
                    k = k + 1;
                }
                let mut k: usize = 0;
                proof {
                    assert((*players)@.subrange(0, 0) =~= Seq::<OnArenaStateReceivedPlayer>::empty());
                    assert((*players)@.subrange(0, (*players)@.len() as int) =~= (*players)@);
                }
                while k < players.len()
                    invariant
                        k <= (*players)@.len(),
                        forall|j: int| 0 <= j < (*players)@.len() ==> i32::MIN <= #[trigger] (*players)@[j].avatarid
                            <= i32::MAX,
                        with_players(start, (*players)@.subrange(0, k as int)) == Some(self.names()),
                        self.version == old(self).version,
                        start == old(self).names(),
                        d.payload is OnArenaStateReceived,
                        d.payload->OnArenaStateReceived_players == *players,
                    decreases (*players)@.len() - k,
                {
                    proof {
                        assert((*players)@.subrange(0, k + 1).drop_last() =~= (*players)@.subrange(0, k as int));
                        assert((*players)@[k as int].avatarid <= i32::MAX);
                    }
                    let a = players[k].avatarid as i32;
                    let ghost before = self.usernames@;
                    self.usernames.insert(a, players[k].username.clone());
                    proof {
                        assert(self.names() =~= before.map_values(|s: String| s@).insert(a, (*players)@[k as int].username@));
                    }
                    k = k + 1;
                }
                Ok(None)
            },
            _ => Ok(None),
        }
    }
}

proof fn lemma_with_players_fail(m: Map<i32, Seq<char>>, ps: Seq<OnArenaStateReceivedPlayer>, k: int)
    requires
        0 <= k < ps.len(),
        !(i32::MIN <= ps[k].avatarid <= i32::MAX),
    ensures
        with_players(m, ps) is None,
    decreases ps.len() - k,
{
    if k < ps.len() - 1 {
        lemma_with_players_fail(m, ps.drop_last(), k);
    }
}

} // verus!
