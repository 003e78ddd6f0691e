use std::cell::RefCell;
use std::rc::Rc;

use wows_replays::analyzer::{AnalyzerAdapter, AnalyzerMut};
use wows_replays::packet2::{Packet, PacketProcessorMut, Parser};
use wows_replays::rpc::entitydefs::EntitySpec;

struct Tally {
    name: &'static str,
    events: Rc<RefCell<Vec<String>>>,
}

impl AnalyzerMut for Tally {
    fn process_mut(&mut self, packet: &Packet) {
        self.events.borrow_mut().push(format!("{} saw {}", self.name, packet.packet_type));
    }

    fn finish(&mut self) {
        self.events.borrow_mut().push(format!("{} finished", self.name));
    }
}

fn frame(ty: u32, body: &[u8]) -> Vec<u8> {
    let mut d = (body.len() as u32).to_le_bytes().to_vec();
    d.extend_from_slice(&ty.to_le_bytes());
    d.extend_from_slice(&0u32.to_le_bytes());
    d.extend_from_slice(body);
    d
}

#[test]
fn adapter_hands_each_packet_to_every_analysis_in_order_then_finishes_each_once() {
    let events = Rc::new(RefCell::new(Vec::new()));
    let analyzers: Vec<Box<dyn AnalyzerMut>> = vec![
        Box::new(Tally { name: "a", events: events.clone() }),
        Box::new(Tally { name: "b", events: events.clone() }),
    ];
    let mut adapter = AnalyzerAdapter::new(analyzers);
    let specs: Vec<EntitySpec> = vec![];
    let mut parser = Parser::new(&specs);
    let mut data = frame(0x4, &7u32.to_le_bytes());
    data.extend(frame(0x27, &3u32.to_le_bytes()));
    parser.parse_packets_mut(&data, &mut adapter).unwrap();
    adapter.finish();
    assert_eq!(
        *events.borrow(),
        vec!["a saw 4", "b saw 4", "a saw 39", "b saw 39", "a finished", "b finished"]
    );
}

#[test]
fn adapter_over_no_analysis_accepts_packets() {
    let mut adapter: AnalyzerAdapter<Box<dyn AnalyzerMut>> = AnalyzerAdapter::new(Vec::new());
    let specs: Vec<EntitySpec> = vec![];
    let mut parser = Parser::new(&specs);
    let data = frame(0x4, &7u32.to_le_bytes());
    assert!(parser.parse_packets_mut(&data, &mut adapter).is_ok());
    adapter.finish();
}
