//! The interface of an analysis: it sees each packet in turn, then
//! finishes.
use vstd::prelude::*;

use crate::error::ErrorKind;
use crate::packet2::{frame_of, frames_ok, Packet, PacketProcessorMut, Parser};
use crate::rpc::entitydefs::parse_scripts;
use crate::version::{spec_parse_client_version, DataFileLoader, Version};
use crate::wowsreplay::{ReplayFile, ReplayMeta};

verus! {

/// Makes an [`Analyzer`] for a replay, from its metadata.
pub trait AnalyzerBuilder {
    type Built: Analyzer;

    fn build(&self, meta: &ReplayMeta) -> Self::Built;
}

/// Makes an [`AnalyzerMut`] for a replay, from its metadata.
pub trait AnalyzerMutBuilder {
    type Built: AnalyzerMut;

    fn build(&self, meta: &ReplayMeta) -> Self::Built;
}

/// An analysis that sees the packets without changing.
pub trait Analyzer {
    fn process(&self, packet: &Packet);

    fn finish(&self);
}

/// An analysis that changes as it sees the packets.
pub trait AnalyzerMut {
    /// Whether this analysis keeps a record of what it is handed, as
    /// [`AnalyzerMut::seen`] and [`AnalyzerMut::finishes`]. An analysis
    /// that does not say so promises nothing of them.
    open spec fn keeps_record(&self) -> bool {
        false
    }

    /// The header and bytes of each packet this analysis has seen, in order.
    open spec fn seen(&self) -> Seq<(u32, u32, u32, Seq<u8>)> {
        Seq::empty()
    }

    /// How many times this analysis has been finished.
    open spec fn finishes(&self) -> nat {
        0
    }

    fn process_mut(&mut self, packet: &Packet)
        ensures
            final(self).keeps_record() == old(self).keeps_record(),
            old(self).keeps_record() ==> final(self).seen() == old(self).seen().push(frame_of(*packet))
                && final(self).finishes() == old(self).finishes(),
    ;

    fn finish(&mut self)
        ensures
            final(self).keeps_record() == old(self).keeps_record(),
            old(self).keeps_record() ==> final(self).seen() == old(self).seen() && final(self).finishes()
                == old(self).finishes() + 1,
    ;
}

/// A boxed analysis is the analysis it holds, so that analyses of
/// different kinds can share one adapter.
impl AnalyzerMut for Box<dyn AnalyzerMut> {
    open spec fn keeps_record(&self) -> bool {
        (**self).keeps_record()
    }

    open spec fn seen(&self) -> Seq<(u32, u32, u32, Seq<u8>)> {
        (**self).seen()
    }

    open spec fn finishes(&self) -> nat {
        (**self).finishes()
    }

    fn process_mut(&mut self, packet: &Packet) {
        (**self).process_mut(packet);
    }

    fn finish(&mut self) {
        (**self).finish();
    }
}

/// `new` is analysis `old` having seen `packet` once more, where it keeps a
/// record.
pub open spec fn saw_once<A: AnalyzerMut>(old: A, new: A, packet: Packet) -> bool {
    &&& new.keeps_record() == old.keeps_record()
    &&& old.keeps_record() ==> new.seen() == old.seen().push(frame_of(packet)) && new.finishes()
        == old.finishes()
}

/// `new` is analysis `old` finished once more, where it keeps a record.
pub open spec fn finished_once<A: AnalyzerMut>(old: A, new: A) -> bool {
    &&& new.keeps_record() == old.keeps_record()
    &&& old.keeps_record() ==> new.seen() == old.seen() && new.finishes() == old.finishes() + 1
}

/// Each analysis of `new` is the one at its place in `old` having seen
/// `packet` once more.
pub open spec fn all_saw<A: AnalyzerMut>(old: Seq<A>, new: Seq<A>, packet: Packet) -> bool {
    &&& new.len() == old.len()
    &&& forall|k: int| 0 <= k < old.len() ==> #[trigger] saw_once(old[k], new[k], packet)
}

/// Each analysis of `new` is the one at its place in `old` finished once
/// more.
pub open spec fn all_finished<A: AnalyzerMut>(old: Seq<A>, new: Seq<A>) -> bool {
    &&& new.len() == old.len()
    &&& forall|k: int| 0 <= k < old.len() ==> #[trigger] finished_once(old[k], new[k])
}

/// Hands each packet to every analysis of a list, in order.
pub struct AnalyzerAdapter<A: AnalyzerMut> {
    analyzers: Vec<A>,
    log: Ghost<Seq<(u32, u32, u32, Seq<u8>)>>,
}

impl<A: AnalyzerMut> AnalyzerAdapter<A> {
    /// An adapter over `analyzers`, that has been handed no packet yet.
    pub fn new(analyzers: Vec<A>) -> (r: Self)
        ensures
            r.analyzers() == analyzers@,
            r.len() == analyzers@.len(),
            r.received() == Seq::<(u32, u32, u32, Seq<u8>)>::empty(),
    {
        Self { analyzers, log: Ghost(Seq::empty()) }
    }

    /// The analyses, in the order they are handed packets.
    pub closed spec fn analyzers(&self) -> Seq<A> {
        self.analyzers@
    }

    /// The number of analyses.
    pub closed spec fn len(&self) -> nat {
        self.analyzers@.len()
    }

    /// Finishes every analysis once, in order; the adapter keeps all of
    /// them, in the same order, and its record of packets.
    pub fn finish(&mut self)
        ensures
            all_finished(old(self).analyzers(), final(self).analyzers()),
            final(self).len() == old(self).len(),
            final(self).received() == old(self).received(),
    {
        let n = self.analyzers.len();
        let mut i: usize = 0;
        let ghost start = self.analyzers@;
        while i < n
            invariant
                i <= n,
                n == self.analyzers@.len(),
                n == start.len(),
                start == old(self).analyzers@,
                self.log == old(self).log,
                forall|j: int| 0 <= j < i ==> #[trigger] finished_once(start[j], self.analyzers@[j]),
                forall|j: int| i <= j < n ==> #[trigger] self.analyzers@[j] == start[j],
            decreases n - i,
        {
            let ghost before = self.analyzers@;
            let mut a = self.analyzers.remove(i);
            proof {
                before.remove_ensures(i as int);
            }
            let ghost a0 = a;
            a.finish();
            let ghost a1 = a;
            let ghost mid = self.analyzers@;
            proof {
                mid.insert_ensures(i as int, a1);
            }
            self.analyzers.insert(i, a);
            proof {
                assert(finished_once(start[i as int], self.analyzers@[i as int])) by {
                    assert(self.analyzers@[i as int] == a1);
                    assert(start[i as int] == a0);
                }
            }
            i = i + 1;
        }
    }
}

impl<A: AnalyzerMut> PacketProcessorMut for AnalyzerAdapter<A> {
    open spec fn keeps_record(&self) -> bool {
        true
    }

    closed spec fn received(&self) -> Seq<(u32, u32, u32, Seq<u8>)> {
        self.log@
    }

    /// Hands the packet to every analysis, in order; the adapter keeps all
    /// of them, in the same order.
    fn process_mut(&mut self, packet: Packet)
        ensures
            all_saw(old(self).analyzers(), final(self).analyzers(), packet),
            final(self).len() == old(self).len(),
    {
        let n = self.analyzers.len();
        let mut i: usize = 0;
        let ghost start = self.analyzers@;
        while i < n
            invariant
                i <= n,
                n == self.analyzers@.len(),
                n == start.len(),
                start == old(self).analyzers@,
                self.log == old(self).log,
                forall|j: int| 0 <= j < i ==> #[trigger] saw_once(start[j], self.analyzers@[j], packet),
                forall|j: int| i <= j < n ==> #[trigger] self.analyzers@[j] == start[j],
            decreases n - i,
        {
            let ghost before = self.analyzers@;
            let mut a = self.analyzers.remove(i);
            proof {
                before.remove_ensures(i as int);
            }
            let ghost a0 = a;
            a.process_mut(&packet);
            let ghost a1 = a;
            proof {
                self.analyzers@.insert_ensures(i as int, a1);
            }
            self.analyzers.insert(i, a);
            proof {
                assert(saw_once(start[i as int], self.analyzers@[i as int], packet)) by {
                    assert(self.analyzers@[i as int] == a1);
                    assert(start[i as int] == a0);
                }
            }
            i = i + 1;
        }
        self.log = Ghost(self.log@.push(frame_of(packet)));
    }
}

/// Runs an analysis over a replay: checks that the replay names its game
/// version as four numbers, reads the entity definitions from `datafiles`
/// (the data files of that version), then hands every packet of the
/// replay's stream to `processor`, in order. Fails when the version is not
/// readable, when the definitions cannot be read, or when the stream ends
/// inside a packet.
pub fn parse_replay<L: DataFileLoader, P: PacketProcessorMut>(
    replay: &ReplayFile,
    datafiles: &L,
    processor: &mut P,
) -> (r: Result<(), ErrorKind>)
    ensures
        r is Ok ==> spec_parse_client_version(replay.meta.clientVersionFromExe@) is Some && frames_ok(
            replay.packet_data@,
            0,
        ),
        spec_parse_client_version(replay.meta.clientVersionFromExe@) is None ==> r is Err,
{
    if Version::parse_client_version(replay.meta.clientVersionFromExe.as_str()).is_none() {
        return Err(ErrorKind::ParsingFailure("unreadable client version".to_owned()));
    }
    let specs = parse_scripts(datafiles)?;
    let mut parser = Parser::new(&specs);
    parser.parse_packets_mut(replay.packet_data.as_slice(), processor)
}

} // verus!
