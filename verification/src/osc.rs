//! Open Sound Control at the two ends of the mapping engine: the packets
//! that bring LFO samples in, and the choice of the effect values that go
//! out on a tick.

use rosc::{OscMessage, OscPacket, OscType};
use vstd::prelude::*;
use crate::mapping::{AppState, Drive, MappingView};
use crate::text::{decimal_text, join, push_decimal};

verus! {

/// A message as far as the library reads it: its address, and its first
/// argument where that is a single-precision number (as bits).
#[derive(Debug)]
pub struct OscMessageIn {
    pub addr: String,
    pub sample: Option<u32>,
}

/// What a bundle holds: messages, and bundles that are not looked into.
#[derive(Debug)]
pub enum OscItem {
    Message(OscMessageIn),
    Bundle,
}

/// A packet: a message, or a bundle.
#[derive(Debug)]
pub enum OscInput {
    Message(OscMessageIn),
    Bundle { content: Vec<OscItem> },
}

/// What `rosc` decodes a datagram to, or `None` where it is no OSC packet.
pub uninterp spec fn osc_decoded(datagram: Seq<u8>) -> Option<OscInput>;

/// `rosc::decoder::decode_udp`: the packet that a datagram holds, with its
/// variants told apart and moved over: address and first argument of a
/// message (a number of the variant `OscType::Float` as its bits), the
/// packets of a bundle in order. Bytes behind the packet are left aside; a
/// datagram that does not decode gives nothing.
#[verifier::external_body]
fn decode_datagram(datagram: &[u8]) -> (input: Option<OscInput>)
    ensures
        input == osc_decoded(datagram@),
{
    let read = |m: &OscMessage| OscMessageIn {
        addr: m.addr.clone(),
        sample: match m.args.first() {
            Some(OscType::Float(v)) => Some(v.to_bits()),
            _ => None,
        },
    };
    let item = |p: &OscPacket| match p {
        OscPacket::Message(m) => OscItem::Message(read(m)),
        OscPacket::Bundle(_) => OscItem::Bundle,
    };
    match rosc::decoder::decode_udp(datagram).ok()?.1 {
        OscPacket::Message(m) => Some(OscInput::Message(read(&m))),
        OscPacket::Bundle(b) => Some(OscInput::Bundle { content: b.content.iter().map(item).collect() }),
    }
}

/// The state after the first `n` packets of a bundle were taken in:
/// messages count, bundles inside a bundle are passed over.
pub open spec fn bundle_step(v: MappingView, content: Seq<OscItem>, n: int) -> MappingView
    decreases n,
{
    if n <= 0 {
        v
    } else {
        let before = bundle_step(v, content, n - 1);
        match content[n - 1] {
            OscItem::Message(m) => before.osc_step(m.addr@, m.sample),
            OscItem::Bundle => before,
        }
    }
}

/// The state after a packet was taken in.
pub open spec fn packet_step(v: MappingView, packet: OscInput) -> MappingView {
    match packet {
        OscInput::Message(m) => v.osc_step(m.addr@, m.sample),
        OscInput::Bundle { content } => bundle_step(v, content@, content@.len() as int),
    }
}

/// The state after a datagram arrived.
pub open spec fn datagram_step(v: MappingView, datagram: Seq<u8>) -> MappingView {
    match osc_decoded(datagram) {
        Some(packet) => packet_step(v, packet),
        None => v,
    }
}

/// No packet breaks the shape of the state or what is mapped.
pub proof fn lemma_packet_keeps_mapping(v: MappingView, packet: OscInput)
    requires
        v.wf(),
    ensures
        packet_step(v, packet).wf(),
        packet_step(v, packet).mapping == v.mapping,
        packet_step(v, packet).fader_active == v.fader_active,
        packet_step(v, packet).fader_value == v.fader_value,
        packet_step(v, packet).lfo_bank == v.lfo_bank,
        packet_step(v, packet).effect_bank == v.effect_bank,
{
    match packet {
        OscInput::Message(_) => {},
        OscInput::Bundle { content } => {
            lemma_bundle_keeps_mapping(v, content@, content@.len() as int);
        },
    }
}

proof fn lemma_bundle_keeps_mapping(v: MappingView, content: Seq<OscItem>, n: int)
    requires
        v.wf(),
    ensures
        bundle_step(v, content, n).wf(),
        bundle_step(v, content, n).mapping == v.mapping,
        bundle_step(v, content, n).fader_active == v.fader_active,
        bundle_step(v, content, n).fader_value == v.fader_value,
        bundle_step(v, content, n).lfo_bank == v.lfo_bank,
        bundle_step(v, content, n).effect_bank == v.effect_bank,
    decreases n,
{
    if n > 0 {
        lemma_bundle_keeps_mapping(v, content, n - 1);
    }
}

impl AppState {
    /// Takes in a decoded packet: a message, or the messages of a bundle
    /// in order.
    pub fn ingest_packet(&mut self, packet: &OscInput)
        requires
            old(self).wf(),
        ensures
            final(self)@ == packet_step(old(self)@, *packet),
            final(self).wf(),
    {
        match packet {
            OscInput::Message(m) => {
                self.process_osc_message(m.addr.as_str(), m.sample);
            },
            OscInput::Bundle { content } => {
                let mut i: usize = 0;
                while i < content.len()
                    invariant
                        i <= content@.len(),
                        self.wf(),
                        self@ == bundle_step(old(self)@, content@, i as int),
                    decreases content@.len() - i,
                {
                    match &content[i] {
                        OscItem::Message(m) => {
                            self.process_osc_message(m.addr.as_str(), m.sample);
                        },
                        OscItem::Bundle => {},
                    }
                    i += 1;
                }
            },
        }
    }

    /// Takes in a datagram from the OSC input socket. One that does not
    /// decode changes nothing.
    pub fn handle_osc_input(&mut self, datagram: &[u8])
        requires
            old(self).wf(),
        ensures
            final(self)@ == datagram_step(old(self)@, datagram@),
            final(self).wf(),
    {
        match decode_datagram(datagram) {
            Some(packet) => {
                self.ingest_packet(&packet);
            },
            None => {},
        }
    }
}

/// The columns for which a message goes out on a tick, among the first `n`:
/// those that something drives and whose value is not the one last sent.
pub open spec fn bundle_columns(drives: Seq<Drive>, differs: Seq<bool>, n: int) -> Seq<usize>
    decreases n,
{
    if n <= 0 {
        Seq::empty()
    } else {
        let before = bundle_columns(drives, differs, n - 1);
        if differs[n - 1] && !(drives[n - 1] is Hold) {
            before.push((n - 1) as usize)
        } else {
            before
        }
    }
}

/// Change-only send: the columns of a bundle come in rising order, so no
/// column comes twice; each is below `n`, is driven, and has a value that
/// differs from the one last sent; and every such column is among them.
pub proof fn lemma_bundle_columns(drives: Seq<Drive>, differs: Seq<bool>, n: int)
    requires
        0 <= n <= usize::MAX,
    ensures
        bundle_columns(drives, differs, n).len() <= n,
        forall|i: int|
            0 <= i < bundle_columns(drives, differs, n).len() ==> {
                let c = #[trigger] bundle_columns(drives, differs, n)[i];
                0 <= c < n && differs[c as int] && !(drives[c as int] is Hold)
            },
        forall|i: int, j: int|
            0 <= i < j < bundle_columns(drives, differs, n).len() ==> bundle_columns(
                drives,
                differs,
                n,
            )[i] < bundle_columns(drives, differs, n)[j],
        forall|c: int|
            0 <= c < n && differs[c] && !(#[trigger] drives[c] is Hold) ==> bundle_columns(
                drives,
                differs,
                n,
            ).contains(c as usize),
    decreases n,
{
    if n > 0 {
        lemma_bundle_columns(drives, differs, n - 1);
        let before = bundle_columns(drives, differs, n - 1);
        let now = bundle_columns(drives, differs, n);
        assert forall|c: int|
            0 <= c < n && differs[c] && !(#[trigger] drives[c] is Hold) implies now.contains(
            c as usize,
        ) by {
            if c < n - 1 {
                assert(before.contains(c as usize));
                let i = choose|i: int| 0 <= i < before.len() && before[i] == c as usize;
                assert(now[i] == c as usize);
            } else {
                assert(now[now.len() - 1] == c as usize);
            }
        }
    }
}

/// Chooses the columns of the bundle for a tick. `differs` says for each
/// column whether the value it is driven to is further from the value last
/// sent than the sender tolerates.
pub fn plan_bundle(drives: &Vec<Drive>, differs: &Vec<bool>) -> (columns: Vec<usize>)
    requires
        drives@.len() == differs@.len(),
    ensures
        columns@ == bundle_columns(drives@, differs@, drives@.len() as int),
{
    let mut columns: Vec<usize> = Vec::new();
    let mut col: usize = 0;
    while col < drives.len()
        invariant
            col <= drives@.len(),
            drives@.len() == differs@.len(),
            columns@ == bundle_columns(drives@, differs@, col as int),
        decreases drives@.len() - col,
    {
        let held: bool = match drives[col] {
            Drive::Hold => true,
            _ => false,
        };
        if differs[col] && !held {
            columns.push(col);
        }
        col += 1;
    }
    columns
}

/// The address of the message for a column: `/effect/` and the number of
/// the column, counted from 1.
pub open spec fn effect_address_text(col: int) -> Seq<char> {
    "/effect/"@ + decimal_text((col + 1) as nat)
}

pub fn effect_address(col: usize) -> (address: String)
    requires
        col < 32,
    ensures
        address@ == effect_address_text(col as int),
{
    let mut address: String = join("/effect/", "");
    assert("/effect/"@ + ""@ =~= "/effect/"@) by {
        reveal_strlit("");
    }
    push_decimal(&mut address, (col + 1) as u64);
    address
}

} // verus!
