//! Counts over many replays: how many packets each has, and how many of
//! them could not be decoded.
use vstd::prelude::*;

use crate::error::ErrorKind;
use crate::packet2::{Packet, PacketType};
use crate::version::{parse_u32, spec_parse_u32};

verus! {

/// What a survey of replays has counted.
pub struct SurveyStats {
    pub total_packets: usize,
    pub invalid_packets: usize,
    pub audits: Vec<String>,
    pub date_time: String,
}

impl SurveyStats {
    /// Nothing counted yet.
    pub fn new() -> (r: Self)
        ensures
            r.total_packets == 0,
            r.invalid_packets == 0,
            r.audits@.len() == 0,
            r.date_time@.len() == 0,
    {
        Self { total_packets: 0, invalid_packets: 0, audits: Vec::new(), date_time: String::new() }
    }

    /// Counts one packet, and it as invalid when it could not be decoded.
    pub fn record(&mut self, packet: &Packet)
        requires
            old(self).total_packets < usize::MAX,
            old(self).invalid_packets < usize::MAX,
        ensures
            final(self).total_packets == old(self).total_packets + 1,
            final(self).invalid_packets == old(self).invalid_packets + if packet.payload is Invalid {
                1int
            } else {
                0int
            },
            final(self).audits@ == old(self).audits@,
            final(self).date_time@ == old(self).date_time@,
    {
        match &packet.payload {
            PacketType::Invalid(_) => {
                self.invalid_packets = self.invalid_packets + 1;
            },
            _ => {},
        }
        self.total_packets = self.total_packets + 1;
    }
}

/// The settings of a survey of one replay: whether to skip the decoder,
/// which packet kind to dump, and the replay's file name.
pub struct SurveyBuilder {
    skip_decoder: bool,
    dump_packet: Option<String>,
    filename: String,
}

impl SurveyBuilder {
    pub fn new(skip_decoder: bool, dump_packet: Option<&str>, filename: String) -> (r: Self)
        ensures
            r.skips_decoder() == skip_decoder,
            r.spec_dump_packet() == match dump_packet {
                Some(d) => Some(d@),
                None => None,
            },
            r.spec_filename() == filename@,
    {
        Self {
            skip_decoder,
            dump_packet: match dump_packet {
                Some(d) => Some(d.to_owned()),
                None => None,
            },
            filename,
        }
    }

    pub closed spec fn skips_decoder(&self) -> bool {
        self.skip_decoder
    }

    pub closed spec fn spec_dump_packet(&self) -> Option<Seq<char>> {
        match self.dump_packet {
            Some(d) => Some(d@),
            None => None,
        }
    }

    pub closed spec fn spec_filename(&self) -> Seq<char> {
        self.filename@
    }

    /// The packet kind to dump, a decimal number; fails when it is not one.
    pub fn dump_packet_type(&self) -> (r: Result<Option<u32>, ErrorKind>)
        ensures
            match self.spec_dump_packet() {
                None => r == Ok::<Option<u32>, ErrorKind>(None),
                Some(d) => match spec_parse_u32(d) {
                    Some(n) => r == Ok::<Option<u32>, ErrorKind>(Some(n)),
                    None => r is Err,
                },
            },
    {
        match &self.dump_packet {
            None => Ok(None),
            Some(d) => match parse_u32(d.as_str()) {
                Some(n) => Ok(Some(n)),
                None => Err(ErrorKind::ParsingFailure("packet kind to dump is not a number".to_owned())),
            },
        }
    }
}

} // verus!
