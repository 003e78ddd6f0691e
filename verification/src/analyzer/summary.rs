//! A summary of a battle from the player's side: the ribbons earned and
//! the damage statistics.
use vstd::prelude::*;

use crate::analyzer::decoder::{spec_ribbon, DecodedPacket, DecodedPacketPayload, Ribbon, StatValue};
use crate::error::ErrorKind;

verus! {

/// Makes a [`Summary`].
pub struct SummaryBuilder;

impl SummaryBuilder {
    pub fn new() -> Self {
        SummaryBuilder
    }

    /// An empty summary.
    pub fn build(&self) -> (r: Summary)
        ensures
            r.well_formed(),
            r.counts() == Seq::new(31, |i: int| 0u64),
            r.damage() == Map::<(i64, i64), (i64, StatValue)>::empty(),
    {
        Summary::new()
    }
}

/// The game code of a ribbon the summary counts; the unknown ones have none.
pub open spec fn ribbon_code(r: Ribbon) -> Option<int> {
    match r {
        Ribbon::TorpedoHit => Some(1),
        Ribbon::PlaneShotDown => Some(3),
        Ribbon::Incapacitation => Some(4),
        Ribbon::Destroyed => Some(5),
        Ribbon::SetFire => Some(6),
        Ribbon::Flooding => Some(7),
        Ribbon::Citadel => Some(8),
        Ribbon::Defended => Some(9),
        Ribbon::Captured => Some(10),
        Ribbon::AssistedInCapture => Some(11),
        Ribbon::SecondaryHit => Some(13),
        Ribbon::OverPenetration => Some(14),
        Ribbon::Penetration => Some(15),
        Ribbon::NonPenetration => Some(16),
        Ribbon::Ricochet => Some(17),
        Ribbon::Spotted => Some(19),
        Ribbon::DiveBombPenetration => Some(21),
        Ribbon::RocketPenetration => Some(25),
        Ribbon::RocketNonPenetration => Some(26),
        Ribbon::ShotDownByAircraft => Some(27),
        Ribbon::TorpedoProtectionHit => Some(28),
        Ribbon::RocketTorpedoProtectionHit => Some(30),
        Ribbon::Unknown(_) => None,
    }
}

fn code_of(r: Ribbon) -> (c: Option<usize>)
    ensures
        match c {
            Some(c) => ribbon_code(r) == Some(c as int) && c < 31,
            None => ribbon_code(r) is None,
        },
{
    match r {
        Ribbon::TorpedoHit => Some(1),
        Ribbon::PlaneShotDown => Some(3),
        Ribbon::Incapacitation => Some(4),
        Ribbon::Destroyed => Some(5),
        Ribbon::SetFire => Some(6),
        Ribbon::Flooding => Some(7),
        Ribbon::Citadel => Some(8),
        Ribbon::Defended => Some(9),
        Ribbon::Captured => Some(10),
        Ribbon::AssistedInCapture => Some(11),
        Ribbon::SecondaryHit => Some(13),
        Ribbon::OverPenetration => Some(14),
        Ribbon::Penetration => Some(15),
        Ribbon::NonPenetration => Some(16),
        Ribbon::Ricochet => Some(17),
        Ribbon::Spotted => Some(19),
        Ribbon::DiveBombPenetration => Some(21),
        Ribbon::RocketPenetration => Some(25),
        Ribbon::RocketNonPenetration => Some(26),
        Ribbon::ShotDownByAircraft => Some(27),
        Ribbon::TorpedoProtectionHit => Some(28),
        Ribbon::RocketTorpedoProtectionHit => Some(30),
        Ribbon::Unknown(_) => None,
    }
}

/// The damage statistics recorded in order, as a map: a later record of a
/// key replaces an earlier one.
pub open spec fn damage_map(s: Seq<((i64, i64), (i64, StatValue))>) -> Map<(i64, i64), (i64, StatValue)>
    decreases s.len(),
{
    if s.len() == 0 {
        Map::empty()
    } else {
        damage_map(s.drop_last()).insert(s.last().0, s.last().1)
    }
}

/// The ribbons counted so far (by game code) and the latest damage
/// statistics.
pub struct Summary {
    ribbons: Vec<u64>,
    damage: Vec<((i64, i64), (i64, StatValue))>,
}

impl Summary {
    /// A count is kept for each game code below 31.
    pub closed spec fn well_formed(&self) -> bool {
        self.ribbons@.len() == 31
    }

    /// How many ribbons of each game code were counted.
    pub closed spec fn counts(&self) -> Seq<u64> {
        self.ribbons@
    }

    /// The latest damage statistic of each key.
    pub closed spec fn damage(&self) -> Map<(i64, i64), (i64, StatValue)> {
        damage_map(self.damage@)
    }

    /// A summary with nothing counted.
    pub fn new() -> (r: Summary)
        ensures
            r.well_formed(),
            r.counts() == Seq::new(31, |i: int| 0u64),
            r.damage() == Map::<(i64, i64), (i64, StatValue)>::empty(),
    {
        let mut ribbons: Vec<u64> = Vec::new();
        let mut i: usize = 0;
        while i < 31
            invariant
                i <= 31,
                ribbons@ =~= Seq::new(i as nat, |j: int| 0u64),
            decreases 31 - i,
        {
            ribbons.push(0);
            i = i + 1;
        }
        Summary { ribbons, damage: Vec::new() }
    }

    /// How many ribbons `r` were counted; none for an unknown ribbon.
    pub fn ribbon_count(&self, r: Ribbon) -> (n: u64)
        requires
            self.well_formed(),
        ensures
            match ribbon_code(r) {
                Some(c) => n == self.counts()[c],
                None => n == 0,
            },
    {
        match code_of(r) {
            Some(c) => self.ribbons[c],
            None => 0,
        }
    }

    /// The latest damage statistic recorded under `key`.
    pub fn damage_of(&self, key: (i64, i64)) -> (r: Option<(i64, StatValue)>)
        ensures
            match r {
                Some(v) => self.damage().contains_key(key) && self.damage()[key] == v,
                None => !self.damage().contains_key(key),
            },
    {
        let mut j: usize = self.damage.len();
        proof {
            assert(self.damage@.subrange(0, j as int) =~= self.damage@);
        }
        while j > 0
            invariant
                j <= self.damage@.len(),
                forall|k: (i64, i64)|
                    (#[trigger] damage_map(self.damage@).contains_key(k) && k != key) || (k == key && !damage_map(
                        self.damage@.subrange(0, j as int),
                    ).contains_key(k)) || (k == key && damage_map(self.damage@).contains_key(k) && damage_map(
                        self.damage@.subrange(0, j as int),
                    ).contains_key(k) && damage_map(self.damage@)[k] == damage_map(
                        self.damage@.subrange(0, j as int),
                    )[k]) || (!damage_map(self.damage@).contains_key(k) && k != key),
                damage_map(self.damage@).contains_key(key) == damage_map(self.damage@.subrange(0, j as int)).contains_key(key),
                damage_map(self.damage@).contains_key(key) ==> damage_map(self.damage@)[key] == damage_map(
                    self.damage@.subrange(0, j as int),
                )[key],
            decreases j,
        {
            let ghost sub = self.damage@.subrange(0, j as int);
            proof {
                assert(sub.drop_last() =~= self.damage@.subrange(0, j - 1));
            }
            if self.damage[j - 1].0.0 == key.0 && self.damage[j - 1].0.1 == key.1 {
                return Some(self.damage[j - 1].1);
            }
            j = j - 1;
        }
        None
    }

    /// Takes in one decoded packet: a ribbon is counted, damage statistics
    /// are recorded. Only ribbons the summary knows may be handed in. Fails
    /// when a count would overflow; then nothing changes.
    pub fn record(&mut self, d: &DecodedPacket) -> (r: Result<(), ErrorKind>)
        requires
            old(self).well_formed(),
            d.payload matches DecodedPacketPayload::Ribbon(rb) ==> ribbon_code(rb) is Some,
        ensures
            final(self).well_formed(),
            match d.payload {
                DecodedPacketPayload::Ribbon(rb) => match ribbon_code(rb) {
                    Some(c) => if old(self).counts()[c] < u64::MAX {
                        r is Ok && final(self).counts() == old(self).counts().update(c, (old(self).counts()[c] + 1) as u64)
                            && final(self).damage() == old(self).damage()
                    } else {
                        r is Err && final(self).counts() == old(self).counts() && final(self).damage() == old(self).damage()
                    },
                    None => r is Err && final(self).counts() == old(self).counts() && final(self).damage()
                        == old(self).damage(),
                },
                DecodedPacketPayload::DamageStat(st) => r is Ok && final(self).counts() == old(self).counts()
                    && final(self).damage() == damage_map(old(self).damage_seq() + st@),
                _ => r is Ok && final(self).counts() == old(self).counts() && final(self).damage() == old(self).damage(),
            },
    {
        match &d.payload {
            DecodedPacketPayload::Ribbon(rb) => match code_of(*rb) {
                Some(c) => {
                    let n = self.ribbons[c];
                    if n == u64::MAX {
                        return Err(ErrorKind::ParsingFailure("ribbon count overflow".to_owned()));
                    }
                    self.ribbons.set(c, n + 1);
                    proof {
                        assert(self.damage@ == old(self).damage@);
                        assert(self.counts() == old(self).counts().update(c as int, (old(self).counts()[c as int] + 1) as u64));
                    }
                    Ok(())
                },
                None => Err(ErrorKind::ParsingFailure("unrecognized ribbon".to_owned())),
            },
            DecodedPacketPayload::DamageStat(st) => {
                let ghost start = self.damage@;
                let mut k: usize = 0;
                while k < st.len()
                    invariant
                        k <= st@.len(),
                        self.damage@ == start + st@.subrange(0, k as int),
                        start == old(self).damage@,
                        self.ribbons@ == old(self).ribbons@,
                        self.ribbons@.len() == 31,
                    decreases st@.len() - k,
                {
                    proof {
                        assert(start + st@.subrange(0, k + 1) =~= (start + st@.subrange(0, k as int)).push(st@[k as int]));
                    }
                    self.damage.push(st[k]);
                    k = k + 1;
                }
                proof {
                    assert(st@.subrange(0, st@.len() as int) =~= st@);
                }
                Ok(())
            },
            _ => Ok(()),
        }
    }

    /// The damage statistics in the order they were recorded.
    pub closed spec fn damage_seq(&self) -> Seq<((i64, i64), (i64, StatValue))> {
        self.damage@
    }
}

/// Every damage statistic recorded is found under its key, with the value
/// last recorded for it.
pub proof fn lemma_damage_last_wins(s: Seq<((i64, i64), (i64, StatValue))>, e: ((i64, i64), (i64, StatValue)))
    ensures
        damage_map(s.push(e)).contains_key(e.0),
        damage_map(s.push(e))[e.0] == e.1,
{
    assert(s.push(e).drop_last() =~= s);
}

/// The ribbon that a game code decodes to is counted under that same code,
/// and the code under which a known ribbon is counted decodes back to
/// that ribbon: the decoding of `onRibbon` codes and the counting of
/// ribbons follow one code table.
pub proof fn lemma_ribbon_codes_agree(c: i8, r: Ribbon)
    ensures
        ribbon_code(spec_ribbon(c)) is Some ==> ribbon_code(spec_ribbon(c)) == Some(c as int),
        ribbon_code(spec_ribbon(c)) is None ==> spec_ribbon(c) == Ribbon::Unknown(c),
        ribbon_code(r) matches Some(k) ==> 0 <= k < 128 && spec_ribbon(k as i8) == r,
{
}

/// Distinct known ribbons are counted apart: no two share a counter.
pub proof fn lemma_ribbon_counters_distinct(r1: Ribbon, r2: Ribbon)
    requires
        ribbon_code(r1) is Some,
        ribbon_code(r2) is Some,
        r1 != r2,
    ensures
        ribbon_code(r1) != ribbon_code(r2),
{
    lemma_ribbon_codes_agree(0, r1);
    lemma_ribbon_codes_agree(0, r2);
}

} // verus!
