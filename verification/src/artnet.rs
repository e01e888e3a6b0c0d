//! Art-Net frame serialisation: a colour raster is sliced into DMX universes
//! and closed by one synchronisation packet.

use vstd::prelude::*;
use crate::text::chars_of;

verus! {

/// Clamps a scaled channel level to the range of a DMX channel.
pub open spec fn saturate(value: int) -> int {
    if value < 0 {
        0
    } else if value > 255 {
        255
    } else {
        value
    }
}

/// Saturation law: the result is always a valid channel level, and levels
/// that are already valid pass through unchanged.
pub fn saturate_u8(value: i64) -> (level: u8)
    ensures
        level == saturate(value as int),
        0 <= value <= 255 ==> level == value,
{
    if value < 0 {
        0
    } else if value > 255 {
        255
    } else {
        value as u8
    }
}

/// One cell of the raster: 8 bits per channel.
#[derive(Clone, Copy, Debug, PartialEq, Eq, Structural)]
pub struct RGB {
    pub red: u8,
    pub green: u8,
    pub blue: u8,
}

impl RGB {
    pub fn new(red: u8, green: u8, blue: u8) -> (color: RGB)
        ensures
            color == (RGB { red, green, blue }),
    {
        RGB { red, green, blue }
    }

    /// The channels in wire order: red, green, blue.
    pub open spec fn channel(self, k: int) -> u8 {
        if k == 0 {
            self.red
        } else if k == 1 {
            self.green
        } else {
            self.blue
        }
    }
}

/// The output level for every input level: what a brightness setting does to
/// a channel, tabulated over the 256 values a channel can take.
pub struct Dimmer {
    pub levels: Vec<u8>,
}

impl View for Dimmer {
    type V = Seq<u8>;

    open spec fn view(&self) -> Seq<u8> {
        self.levels@
    }
}

impl Dimmer {
    pub open spec fn wf(&self) -> bool {
        self@.len() == 256
    }

    /// Tests `wf`.
    pub fn is_valid(&self) -> (valid: bool)
        ensures
            valid == self.wf(),
    {
        self.levels.len() == 256
    }

    /// Full brightness: every level is sent as it is.
    pub fn full() -> (dimmer: Dimmer)
        ensures
            dimmer.wf(),
            forall|v: int| 0 <= v < 256 ==> dimmer@[v] == v,
    {
        let mut levels: Vec<u8> = Vec::new();
        let mut v: usize = 0;
        while v < 256
            invariant
                v <= 256,
                levels@.len() == v,
                forall|i: int| 0 <= i < v ==> levels@[i] == i,
            decreases 256 - v,
        {
            levels.push(v as u8);
            v += 1;
        }
        Dimmer { levels }
    }

    /// A dimmer from its table; the table must cover all 256 input levels.
    pub fn from_levels(levels: Vec<u8>) -> (dimmer: Option<Dimmer>)
        ensures
            dimmer is Some <==> levels@.len() == 256,
            dimmer is Some ==> dimmer->0@ == levels@ && dimmer->0.wf(),
    {
        if levels.len() == 256 {
            Some(Dimmer { levels })
        } else {
            None
        }
    }

    pub fn apply(&self, level: u8) -> (out: u8)
        requires
            self.wf(),
        ensures
            out == self@[level as int],
    {
        self.levels[level as usize]
    }
}

/// The eight bytes that open every Art-Net packet: "Art-Net" and a zero.
pub open spec fn packet_id() -> Seq<u8> {
    seq![65u8, 114u8, 116u8, 45u8, 78u8, 101u8, 116u8, 0u8]
}

/// OpDmx: identifier, opcode 0x5000 (low byte first), protocol version 14
/// (high byte first), sequence 0, physical 0, universe (low byte first),
/// payload length (high byte first), payload.
pub open spec fn dmx_packet(universe: u16, payload: Seq<u8>) -> Seq<u8> {
    packet_id() + seq![
        0x00u8,
        0x50u8,
        0x00u8,
        0x0eu8,
        0x00u8,
        0x00u8,
        (universe % 256) as u8,
        (universe / 256) as u8,
        (payload.len() / 256) as u8,
        (payload.len() % 256) as u8,
    ] + payload
}

/// OpSync: identifier, opcode 0x5200 (low byte first), protocol version 14
/// (high byte first), two zero bytes.
pub open spec fn sync_packet() -> Seq<u8> {
    packet_id() + seq![0x00u8, 0x52u8, 0x00u8, 0x0eu8, 0x00u8, 0x00u8]
}

fn push_packet_id(packet: &mut Vec<u8>)
    ensures
        final(packet)@ == old(packet)@ + packet_id(),
{
    packet.push(65);
    packet.push(114);
    packet.push(116);
    packet.push(45);
    packet.push(78);
    packet.push(101);
    packet.push(116);
    packet.push(0);
    assert(packet@ =~= old(packet)@ + packet_id());
}

/// Builds one OpDmx packet. The length field has sixteen bits, so the
/// payload may hold at most 65535 bytes.
pub fn create_dmx_packet(universe: u16, data: &[u8]) -> (packet: Vec<u8>)
    requires
        data@.len() <= 0xFFFF,
    ensures
        packet@ == dmx_packet(universe, data@),
        packet@.len() == 18 + data@.len(),
{
    let mut packet: Vec<u8> = Vec::new();
    push_packet_id(&mut packet);
    packet.push(0x00);
    packet.push(0x50);
    packet.push(0x00);
    packet.push(0x0e);
    packet.push(0x00);
    packet.push(0x00);
    packet.push((universe % 256) as u8);
    packet.push((universe / 256) as u8);
    let n: usize = data.len();
    packet.push((n / 256) as u8);
    packet.push((n % 256) as u8);
    let ghost head = packet@;
    let mut i: usize = 0;
    while i < n
        invariant
            i <= n,
            n == data@.len(),
            packet@ == head + data@.take(i as int),
        decreases n - i,
    {
        packet.push(data[i]);
        assert(data@.take(i + 1) =~= data@.take(i as int).push(data@[i as int]));
        i += 1;
    }
    assert(data@.take(n as int) =~= data@);
    assert(packet@ =~= dmx_packet(universe, data@));
    packet
}

/// Builds the OpSync packet that ends a frame.
pub fn create_sync_packet() -> (packet: Vec<u8>)
    ensures
        packet@ == sync_packet(),
        packet@.len() == 14,
{
    let mut packet: Vec<u8> = Vec::new();
    push_packet_id(&mut packet);
    packet.push(0x00);
    packet.push(0x52);
    packet.push(0x00);
    packet.push(0x0e);
    packet.push(0x00);
    packet.push(0x00);
    assert(packet@ =~= sync_packet());
    packet
}

/// How a frame is laid out over universes.
pub struct Slicing {
    /// Universe of the first chunk of the first layer.
    pub base_universe: u16,
    /// Cells per layer: width times height.
    pub layer_cells: usize,
    /// Payload bytes per OpDmx packet.
    pub channels_per_universe: usize,
    /// Universes set aside for each layer.
    pub universes_per_layer: u16,
    /// Output positions that share one block of universes.
    pub channel_span: usize,
}

/// The layers sent when the caller names none: 0, span, 2*span, ... below `length`.
pub open spec fn default_z_indices(length: int, span: int) -> Seq<usize> {
    Seq::new(
        (if length <= 0 {
            0
        } else {
            (length - 1) / span + 1
        }) as nat,
        |i: int| (i * span) as usize,
    )
}

/// How many packets a payload of `total` bytes takes at `per` bytes each.
pub open spec fn chunk_count(total: int, per: int) -> int {
    if total <= 0 {
        0
    } else {
        (total - 1) / per + 1
    }
}

pub open spec fn min_int(a: int, b: int) -> int {
    if a <= b {
        a
    } else {
        b
    }
}

impl Slicing {
    pub open spec fn wf(&self) -> bool {
        &&& self.channels_per_universe > 0
        &&& self.channel_span > 0
    }

    /// A layer is sent only if its slice lies within the raster's data.
    pub open spec fn layer_present(&self, z: int, cells: int) -> bool {
        (z + 1) * self.layer_cells <= cells
    }

    /// The bytes of layer `z`: three per cell, in raster order, each passed
    /// through the dimmer.
    pub open spec fn layer_payload(&self, data: Seq<RGB>, dimmer: Seq<u8>, z: int) -> Seq<u8> {
        Seq::new(
            (3 * self.layer_cells) as nat,
            |i: int| dimmer[data[z * self.layer_cells + i / 3].channel(i % 3) as int],
        )
    }

    /// Universe of the first chunk of the layer at output position `out_z`.
    pub open spec fn first_universe(&self, out_z: int) -> int {
        self.base_universe + (out_z / (self.channel_span as int)) * self.universes_per_layer
    }

    pub open spec fn chunks_per_layer(&self) -> int {
        chunk_count(3 * self.layer_cells, self.channels_per_universe as int)
    }

    /// Chunk `k` of a layer's payload; only the last one may be short.
    pub open spec fn chunk(&self, payload: Seq<u8>, k: int) -> Seq<u8> {
        payload.subrange(
            k * self.channels_per_universe,
            min_int((k + 1) * self.channels_per_universe, payload.len() as int),
        )
    }

    /// The packets of one layer: consecutive universes, one per chunk.
    pub open spec fn layer_packets(&self, payload: Seq<u8>, out_z: int) -> Seq<Seq<u8>> {
        Seq::new(
            self.chunks_per_layer() as nat,
            |k: int| dmx_packet((self.first_universe(out_z) + k) as u16, self.chunk(payload, k)),
        )
    }

    /// Whether the layer at `out_z` can be written down: its universes and
    /// its payload lengths fit their sixteen-bit fields. A layer that is not
    /// sent constrains nothing.
    pub open spec fn layer_in_range(&self, cells: int, out_z: int, z: int) -> bool {
        self.layer_present(z, cells) && self.layer_cells > 0 ==> {
            &&& self.first_universe(out_z) + self.chunks_per_layer() - 1 <= 0xFFFF
            &&& min_int(self.channels_per_universe as int, 3 * self.layer_cells) <= 0xFFFF
        }
    }

    pub open spec fn frame_in_range(&self, cells: int, zs: Seq<usize>) -> bool {
        forall|out_z: int|
            0 <= out_z < zs.len() ==> #[trigger] self.layer_in_range(
                cells,
                out_z,
                zs[out_z] as int,
            )
    }

    /// The OpDmx packets of the first `count` layers, in the order sent.
    pub open spec fn dmx_packets(
        &self,
        data: Seq<RGB>,
        dimmer: Seq<u8>,
        zs: Seq<usize>,
        count: nat,
    ) -> Seq<Seq<u8>>
        decreases count,
    {
        if count == 0 {
            Seq::empty()
        } else {
            let out_z = (count - 1) as int;
            let z = zs[out_z] as int;
            let before = self.dmx_packets(data, dimmer, zs, (count - 1) as nat);
            if self.layer_present(z, data.len() as int) {
                before + self.layer_packets(self.layer_payload(data, dimmer, z), out_z)
            } else {
                before
            }
        }
    }

    /// A whole frame: every layer's packets, then one OpSync.
    pub open spec fn frame(&self, data: Seq<RGB>, dimmer: Seq<u8>, zs: Seq<usize>) -> Seq<Seq<u8>> {
        self.dmx_packets(data, dimmer, zs, zs.len()).push(sync_packet())
    }
}

/// The views of a list of packets.
pub open spec fn packets_view(packets: Seq<Vec<u8>>) -> Seq<Seq<u8>> {
    packets.map_values(|p: Vec<u8>| p@)
}

/// Lists the default layers: 0, span, 2*span, ... below `length`.
pub fn default_layers(length: usize, channel_span: usize) -> (zs: Vec<usize>)
    requires
        channel_span > 0,
    ensures
        zs@ == default_z_indices(length as int, channel_span as int),
{
    let mut zs: Vec<usize> = Vec::new();
    if length == 0 {
        assert(zs@ =~= default_z_indices(length as int, channel_span as int));
        return zs;
    }
    let count: usize = (length - 1) / channel_span + 1;
    let mut i: usize = 0;
    while i < count
        invariant
            channel_span > 0,
            length > 0,
            count == (length - 1) / (channel_span as int) + 1,
            i <= count,
            zs@.len() == i,
            forall|k: int| 0 <= k < i ==> zs@[k] == k * channel_span,
        decreases count - i,
    {
        assert(i * channel_span <= length - 1) by (nonlinear_arith)
            requires
                channel_span > 0,
                length > 0,
                i <= (length - 1) / (channel_span as int),
        ;
        zs.push(i * channel_span);
        i += 1;
    }
    assert(zs@ =~= default_z_indices(length as int, channel_span as int));
    zs
}

/// Finds where layer `z` starts in a raster of `cells` cells.
fn locate_layer(z: usize, layer_cells: usize, cells: usize) -> (first: Option<usize>)
    ensures
        first is Some <==> (z + 1) * layer_cells <= cells,
        first is Some ==> first->0 == z * layer_cells && first->0 + layer_cells <= cells,
{
    if layer_cells == 0 {
        assert((z + 1) * 0 == 0 && z * 0 == 0) by (nonlinear_arith);
        return Some(0);
    }
    let next: usize = match z.checked_add(1) {
        Some(n) => n,
        None => {
            assert((z + 1) * layer_cells > cells) by (nonlinear_arith)
                requires
                    z + 1 > cells,
                    layer_cells >= 1,
            ;
            return None;
        },
    };
    match next.checked_mul(layer_cells) {
        Some(end) => {
            if end > cells {
                None
            } else {
                assert(z * layer_cells == end - layer_cells) by (nonlinear_arith)
                    requires
                        end == (z + 1) * layer_cells,
                ;
                Some(end - layer_cells)
            }
        },
        None => None,
    }
}

/// Writes out the bytes of one layer.
fn collect_layer(slicing: &Slicing, data: &Vec<RGB>, dimmer: &Dimmer, z: usize, first: usize) -> (bytes: Vec<u8>)
    requires
        dimmer.wf(),
        first == z * slicing.layer_cells,
        first + slicing.layer_cells <= data@.len(),
    ensures
        bytes@ == slicing.layer_payload(data@, dimmer@, z as int),
{
    let mut bytes: Vec<u8> = Vec::new();
    let cells: usize = data.len();
    let mut c: usize = 0;
    while c < slicing.layer_cells
        invariant
            dimmer.wf(),
            first == z * slicing.layer_cells,
            first + slicing.layer_cells <= data@.len(),
            cells == data@.len(),
            c <= slicing.layer_cells,
            bytes@.len() == 3 * c,
            forall|i: int|
                0 <= i < 3 * c ==> bytes@[i] == dimmer@[data@[first + i / 3].channel(i % 3) as int],
        decreases slicing.layer_cells - c,
    {
        let cell: RGB = data[first + c];
        bytes.push(dimmer.apply(cell.red));
        bytes.push(dimmer.apply(cell.green));
        bytes.push(dimmer.apply(cell.blue));
        c += 1;
    }
    assert(bytes@ =~= slicing.layer_payload(data@, dimmer@, z as int));
    bytes
}

/// Cuts one layer's bytes into packets on consecutive universes.
fn emit_layer(slicing: &Slicing, bytes: &Vec<u8>, out_z: usize, first_universe: usize, out: &mut Vec<Vec<u8>>)
    requires
        slicing.wf(),
        bytes@.len() == 3 * slicing.layer_cells,
        slicing.layer_cells > 0,
        first_universe == slicing.first_universe(out_z as int),
        first_universe + slicing.chunks_per_layer() - 1 <= 0xFFFF,
        min_int(slicing.channels_per_universe as int, 3 * slicing.layer_cells) <= 0xFFFF,
    ensures
        packets_view(final(out)@) == packets_view(old(out)@) + slicing.layer_packets(
            bytes@,
            out_z as int,
        ),
{
    let total: usize = bytes.len();
    let per: usize = slicing.channels_per_universe;
    let ghost before = packets_view(out@);
    let ghost layer = slicing.layer_packets(bytes@, out_z as int);
    let mut k: usize = 0;
    let mut offset: usize = 0;
    while offset < total
        invariant
            slicing.wf(),
            total == bytes@.len(),
            total == 3 * slicing.layer_cells,
            total > 0,
            per == slicing.channels_per_universe,
            first_universe == slicing.first_universe(out_z as int),
            first_universe + slicing.chunks_per_layer() - 1 <= 0xFFFF,
            min_int(per as int, total as int) <= 0xFFFF,
            layer == slicing.layer_packets(bytes@, out_z as int),
            k <= slicing.chunks_per_layer(),
            offset == min_int(k * per, total as int),
            (offset < total) == (k < slicing.chunks_per_layer()),
            packets_view(out@) == before + layer.take(k as int),
        decreases total - offset,
    {
        let end: usize = if total - offset > per {
            offset + per
        } else {
            total
        };
        proof {
            let chunks = slicing.chunks_per_layer();
            assert(k * per == offset);
            assert((k + 1) * per == offset + per) by (nonlinear_arith)
                requires
                    k * per == offset,
            ;
            assert(end == min_int((k + 1) * per, total as int));
            assert(((k + 1) * per < total) == (k + 1 < chunks)) by (nonlinear_arith)
                requires
                    per > 0,
                    total > 0,
                    chunks == (total - 1) / (per as int) + 1,
                    k >= 0,
            ;
        }
        let chunk: &[u8] = vstd::slice::slice_subrange(bytes.as_slice(), offset, end);
        assert(chunk@ == slicing.chunk(bytes@, k as int));
        let packet: Vec<u8> = create_dmx_packet((first_universe + k) as u16, chunk);
        let ghost prev = out@;
        out.push(packet);
        proof {
            assert(layer[k as int] == packet@);
            assert(layer.take(k + 1) =~= layer.take(k as int).push(packet@));
            assert(packets_view(out@) =~= packets_view(prev).push(packet@));
        }
        offset = end;
        k += 1;
    }
    proof {
        assert(layer.take(k as int) =~= layer);
    }
}

/// Serialises one frame: for each listed layer that lies within the data,
/// its bytes in chunks on consecutive universes, and one OpSync at the end.
///
/// Universe numbers and payload lengths are sixteen-bit fields. `None` is
/// returned exactly when a layer to be sent would need a larger number.
pub fn encode_layers(slicing: &Slicing, data: &Vec<RGB>, dimmer: &Dimmer, z_indices: &Vec<usize>) -> (frame:
    Option<Vec<Vec<u8>>>)
    requires
        slicing.wf(),
        dimmer.wf(),
    ensures
        frame is Some <==> slicing.frame_in_range(data@.len() as int, z_indices@),
        frame is Some ==> packets_view(frame->0@) == slicing.frame(data@, dimmer@, z_indices@),
{
    let mut out: Vec<Vec<u8>> = Vec::new();
    let mut out_z: usize = 0;
    assert(packets_view(out@) =~= slicing.dmx_packets(data@, dimmer@, z_indices@, 0));
    while out_z < z_indices.len()
        invariant
            slicing.wf(),
            dimmer.wf(),
            out_z <= z_indices@.len(),
            forall|j: int|
                0 <= j < out_z ==> #[trigger] slicing.layer_in_range(
                    data@.len() as int,
                    j,
                    z_indices@[j] as int,
                ),
            packets_view(out@) == slicing.dmx_packets(data@, dimmer@, z_indices@, out_z as nat),
        decreases z_indices@.len() - out_z,
    {
        let z: usize = z_indices[out_z];
        match locate_layer(z, slicing.layer_cells, data.len()) {
            Some(first) => {
                if slicing.layer_cells > 0 {
                    let bytes: Vec<u8> = collect_layer(slicing, data, dimmer, z, first);
                    let total: usize = bytes.len();
                    let per: usize = slicing.channels_per_universe;
                    let chunks: usize = (total - 1) / per + 1;
                    let group: u128 = (out_z / slicing.channel_span) as u128;
                    let width: u128 = slicing.universes_per_layer as u128;
                    assert(group * width <= 0xFFFF_FFFF_FFFF_FFFF * 0xFFFF) by (nonlinear_arith)
                        requires
                            group <= 0xFFFF_FFFF_FFFF_FFFF,
                            width <= 0xFFFF,
                    ;
                    let block: u128 = group * width;
                    let first_universe: u128 = block + (slicing.base_universe as u128);
                    let fits: bool = first_universe + (chunks as u128) - 1 <= 0xFFFF && (per
                        <= 0xFFFF || total <= 0xFFFF);
                    if !fits {
                        assert(!slicing.layer_in_range(
                            data@.len() as int,
                            out_z as int,
                            z_indices@[out_z as int] as int,
                        ));
                        return None;
                    }
                    emit_layer(slicing, &bytes, out_z, first_universe as usize, &mut out);
                } else {
                    assert(slicing.layer_packets(
                        slicing.layer_payload(data@, dimmer@, z as int),
                        out_z as int,
                    ) =~= Seq::<Seq<u8>>::empty());
                }
            },
            None => {},
        }
        out_z += 1;
    }
    out.push(create_sync_packet());
    proof {
        let done = slicing.dmx_packets(data@, dimmer@, z_indices@, z_indices@.len());
        assert(packets_view(out@) =~= done.push(sync_packet()));
    }
    Some(out)
}

/// The fields of an OpDmx packet can be read back: the universe from bytes
/// 14 and 15, the payload length from bytes 16 and 17, the payload after them.
pub proof fn lemma_dmx_packet_reads_back(universe: u16, payload: Seq<u8>)
    requires
        payload.len() <= 0xFFFF,
    ensures
        dmx_packet(universe, payload).len() == 18 + payload.len(),
        dmx_packet(universe, payload).take(8) == packet_id(),
        dmx_packet(universe, payload)[8] == 0x00 && dmx_packet(universe, payload)[9] == 0x50,
        dmx_packet(universe, payload)[10] == 0 && dmx_packet(universe, payload)[11] == 14,
        dmx_packet(universe, payload)[14] + 256 * dmx_packet(universe, payload)[15] == universe,
        256 * dmx_packet(universe, payload)[16] + dmx_packet(universe, payload)[17]
            == payload.len(),
        dmx_packet(universe, payload).skip(18) == payload,
{
    let p = dmx_packet(universe, payload);
    assert(p.take(8) =~= packet_id());
    assert(p.skip(18) =~= payload);
}

/// Raster order is kept: at full brightness, where the dimmer sends every
/// level as it is, the three payload bytes of a cell are its red, green and
/// blue, and the cells of a layer follow each other as they lie in the data.
pub proof fn lemma_full_brightness_payload(
    slicing: Slicing,
    data: Seq<RGB>,
    dimmer: Seq<u8>,
    z: int,
    cell: int,
)
    requires
        dimmer.len() == 256,
        forall|v: int| 0 <= v < 256 ==> dimmer[v] == v,
        0 <= cell < slicing.layer_cells,
    ensures
        slicing.layer_payload(data, dimmer, z).len() == 3 * slicing.layer_cells,
        slicing.layer_payload(data, dimmer, z)[3 * cell] == data[z * slicing.layer_cells
            + cell].red,
        slicing.layer_payload(data, dimmer, z)[3 * cell + 1] == data[z * slicing.layer_cells
            + cell].green,
        slicing.layer_payload(data, dimmer, z)[3 * cell + 2] == data[z * slicing.layer_cells
            + cell].blue,
{
}

/// Chunking loses nothing: byte `i` of a layer's payload is byte `i % per`
/// of the packet on universe `first + i / per`, behind the 18 header bytes.
pub proof fn lemma_chunks_carry_payload(slicing: Slicing, payload: Seq<u8>, out_z: int, i: int)
    requires
        slicing.wf(),
        payload.len() == 3 * slicing.layer_cells,
        0 <= i < payload.len(),
    ensures
        0 <= i / (slicing.channels_per_universe as int) < slicing.layer_packets(
            payload,
            out_z,
        ).len(),
        slicing.layer_packets(payload, out_z)[i / (slicing.channels_per_universe as int)]
            == dmx_packet(
            (slicing.first_universe(out_z) + i / (slicing.channels_per_universe as int)) as u16,
            slicing.chunk(payload, i / (slicing.channels_per_universe as int)),
        ),
        0 <= i % (slicing.channels_per_universe as int) < slicing.chunk(
            payload,
            i / (slicing.channels_per_universe as int),
        ).len(),
        slicing.chunk(payload, i / (slicing.channels_per_universe as int))[i % (
        slicing.channels_per_universe as int)] == payload[i],
{
    let per = slicing.channels_per_universe as int;
    let total = payload.len() as int;
    let k = i / per;
    let r = i % per;
    assert(0 <= k && k <= (total - 1) / per && 0 <= r < per && i == k * per + r
        && (k + 1) * per == k * per + per) by (nonlinear_arith)
        requires
            per > 0,
            0 <= i < total,
            k == i / per,
            r == i % per,
    ;
}

/// One axis of the raster.
#[derive(Clone, Copy, Debug, PartialEq, Eq, Structural)]
pub enum Axis {
    X,
    Y,
    Z,
}

/// One token of an orientation: which axis of the caller becomes this axis
/// of the raster, and whether it runs backwards.
#[derive(Clone, Copy, Debug, PartialEq, Eq, Structural)]
pub struct AxisToken {
    pub axis: Axis,
    pub negative: bool,
}

/// Why an operation on a raster was turned down.
#[derive(Clone, Copy, Debug, PartialEq, Eq, Structural)]
pub enum RasterError {
    /// A token does not end in `X`, `Y` or `Z`.
    InvalidAxis,
    /// An orientation is not made of three tokens.
    InvalidOrientation,
    XOutOfRange,
    YOutOfRange,
    ZOutOfRange,
    /// The coordinates lie outside the raster.
    CoordinatesOutOfBounds,
    /// The cell that the orientation leads to lies outside the data.
    CellOutOfRange,
}

/// What a token of an orientation means, where it means anything: its last
/// character names the axis, and a minus sign at its start turns the axis
/// round. `X`, `+X` and `-X` are such tokens.
pub open spec fn token_meaning(token: Seq<char>) -> Option<AxisToken> {
    if token.len() == 0 {
        None
    } else {
        let negative = token[0] == '-';
        if token.last() == 'X' {
            Some(AxisToken { axis: Axis::X, negative })
        } else if token.last() == 'Y' {
            Some(AxisToken { axis: Axis::Y, negative })
        } else if token.last() == 'Z' {
            Some(AxisToken { axis: Axis::Z, negative })
        } else {
            None
        }
    }
}

/// Reads one token of an orientation.
pub fn parse_axis_token(token: &str) -> (meaning: Option<AxisToken>)
    ensures
        meaning == token_meaning(token@),
{
    let chars: Vec<char> = chars_of(token);
    let n: usize = chars.len();
    if n == 0 {
        return None;
    }
    let negative: bool = chars[0] == '-';
    let last: char = chars[n - 1];
    if last == 'X' {
        Some(AxisToken { axis: Axis::X, negative })
    } else if last == 'Y' {
        Some(AxisToken { axis: Axis::Y, negative })
    } else if last == 'Z' {
        Some(AxisToken { axis: Axis::Z, negative })
    } else {
        None
    }
}

/// A colour volume of `width` by `height` by `length` cells. Cell
/// `(x, y, z)` of the caller is stored where the orientation leads.
pub struct Raster {
    pub width: usize,
    pub height: usize,
    pub length: usize,
    pub data: Vec<RGB>,
    /// The tokens for the x, y and z of the stored cell, in this order.
    pub orientation: [AxisToken; 3],
}

/// One coordinate after an orientation token was applied to `(x, y, z)` in
/// a raster of the given size.
pub open spec fn oriented(
    token: AxisToken,
    width: int,
    height: int,
    length: int,
    x: int,
    y: int,
    z: int,
) -> int {
    let (value, size) = match token.axis {
        Axis::X => (x, width),
        Axis::Y => (y, height),
        Axis::Z => (z, length),
    };
    if token.negative {
        size - 1 - value
    } else {
        value
    }
}

impl Raster {
    /// The data hold one colour per cell, and a layer can be counted.
    pub open spec fn wf(&self) -> bool {
        &&& self.data@.len() == self.width * self.height * self.length
        &&& self.width * self.height <= usize::MAX
    }

    /// Where cell `(x, y, z)` is stored: `ty * width + tx + tz * width * height`
    /// for the oriented coordinates `(tx, ty, tz)`.
    pub open spec fn cell_index(&self, x: int, y: int, z: int) -> int {
        let w = self.width as int;
        let h = self.height as int;
        let l = self.length as int;
        let tx = oriented(self.orientation[0], w, h, l, x, y, z);
        let ty = oriented(self.orientation[1], w, h, l, x, y, z);
        let tz = oriented(self.orientation[2], w, h, l, x, y, z);
        ty * w + tx + tz * w * h
    }

    /// Where cell `(x, y, z)` is stored without regard to the orientation.
    pub open spec fn direct_index(&self, x: int, y: int, z: int) -> int {
        y * self.width + x + z * self.width * self.height
    }

    pub open spec fn in_bounds(&self, x: int, y: int, z: int) -> bool {
        0 <= x < self.width && 0 <= y < self.height && 0 <= z < self.length
    }

    /// A black raster. The default orientation is `X`, `Y`, `Z`. An
    /// orientation must be three tokens, each naming an axis.
    pub fn new(width: usize, height: usize, length: usize, orientation: Option<Vec<String>>) -> (made:
        Result<Raster, RasterError>)
        requires
            width * height <= usize::MAX,
            width * height * length <= usize::MAX,
        ensures
            match made {
                Ok(raster) => {
                    &&& raster.wf()
                    &&& raster.width == width && raster.height == height && raster.length == length
                    &&& forall|i: int|
                        0 <= i < raster.data@.len() ==> raster.data@[i] == (RGB {
                            red: 0,
                            green: 0,
                            blue: 0,
                        })
                    &&& match orientation {
                        Some(tokens) => tokens@.len() == 3 && forall|k: int|
                            0 <= k < 3 ==> token_meaning(tokens@[k]@) == Some(
                                #[trigger] raster.orientation[k],
                            ),
                        None => raster.orientation@ == seq![
                            AxisToken { axis: Axis::X, negative: false },
                            AxisToken { axis: Axis::Y, negative: false },
                            AxisToken { axis: Axis::Z, negative: false },
                        ],
                    }
                },
                Err(error) => match orientation {
                    Some(tokens) => if tokens@.len() != 3 {
                        error == RasterError::InvalidOrientation
                    } else {
                        error == RasterError::InvalidAxis && exists|k: int|
                            0 <= k < 3 && token_meaning(#[trigger] tokens@[k]@) is None
                    },
                    None => false,
                },
            },
    {
        let mut tokens: [AxisToken; 3] = [
            AxisToken { axis: Axis::X, negative: false },
            AxisToken { axis: Axis::Y, negative: false },
            AxisToken { axis: Axis::Z, negative: false },
        ];
        if let Some(names) = &orientation {
            if names.len() != 3 {
                return Err(RasterError::InvalidOrientation);
            }
            let mut k: usize = 0;
            while k < 3
                invariant
                    k <= 3,
                    names@.len() == 3,
                    orientation == Some(*names),
                    forall|j: int| 0 <= j < k ==> token_meaning(names@[j]@) == Some(#[trigger] tokens[j]),
                decreases 3 - k,
            {
                match parse_axis_token(names[k].as_str()) {
                    Some(token) => {
                        tokens.set(k, token);
                    },
                    None => {
                        assert(token_meaning(names@[k as int]@) is None);
                        return Err(RasterError::InvalidAxis);
                    },
                }
                k += 1;
            }
        }
        let cells: usize = cell_count(width, height, length);
        let mut data: Vec<RGB> = Vec::new();
        let mut i: usize = 0;
        while i < cells
            invariant
                i <= cells,
                data@.len() == i,
                forall|j: int| 0 <= j < i ==> data@[j] == (RGB { red: 0, green: 0, blue: 0 }),
            decreases cells - i,
        {
            data.push(RGB::new(0, 0, 0));
            i += 1;
        }
        Ok(Raster { width, height, length, data, orientation: tokens })
    }
}

/// The number of cells of a raster.
fn cell_count(width: usize, height: usize, length: usize) -> (cells: usize)
    requires
        width * height * length <= usize::MAX,
    ensures
        cells == width * height * length,
{
    if width == 0 || height == 0 || length == 0 {
        assert(width * height * length == 0) by (nonlinear_arith)
            requires
                width == 0 || height == 0 || length == 0,
        ;
        return 0;
    }
    assert(width * height <= width * height * length) by (nonlinear_arith)
        requires
            length >= 1,
            width >= 0,
            height >= 0,
    ;
    width * height * length
}

/// The name of an orientation token: the axis, with a minus sign before it
/// where the axis is turned round.
pub open spec fn token_name(token: AxisToken) -> Seq<char> {
    let axis = match token.axis {
        Axis::X => 'X',
        Axis::Y => 'Y',
        Axis::Z => 'Z',
    };
    if token.negative {
        seq!['-', axis]
    } else {
        seq![axis]
    }
}

/// A token is read back from its name.
pub proof fn lemma_token_name_reads_back(token: AxisToken)
    ensures
        token_meaning(token_name(token)) == Some(token),
{
}

impl AxisToken {
    pub fn name(&self) -> (text: String)
        ensures
            text@ == token_name(*self),
    {
        let mut text: String = String::new();
        if self.negative {
            text.push('-');
        }
        text.push(
            match self.axis {
                Axis::X => 'X',
                Axis::Y => 'Y',
                Axis::Z => 'Z',
            },
        );
        assert(text@ =~= token_name(*self));
        text
    }
}

/// Applies one orientation token to the coordinates of a cell.
fn orient(token: AxisToken, width: usize, height: usize, length: usize, x: usize, y: usize, z: usize) -> (t:
    usize)
    requires
        x < width,
        y < height,
        z < length,
    ensures
        t == oriented(token, width as int, height as int, length as int, x as int, y as int, z as int),
{
    match token.axis {
        Axis::X => if token.negative {
            width - 1 - x
        } else {
            x
        },
        Axis::Y => if token.negative {
            height - 1 - y
        } else {
            y
        },
        Axis::Z => if token.negative {
            length - 1 - z
        } else {
            z
        },
    }
}

/// `row * width + column + layer * width * height` where that is below
/// `limit`.
fn linear_index(row: usize, column: usize, layer: usize, width: usize, height: usize, limit: usize) -> (index:
    Option<usize>)
    ensures
        match index {
            Some(i) => i == row * width + column + layer * width * height && i < limit,
            None => row * width + column + layer * width * height >= limit,
        },
{
    let ghost total = row * width + column + layer * width * height;
    assert(row * width >= 0 && layer * width >= 0 && layer * width * height >= 0) by (nonlinear_arith)
        requires
            row >= 0,
            width >= 0,
            layer >= 0,
            height >= 0,
    ;
    let in_layer: usize = match row.checked_mul(width) {
        Some(r) => match r.checked_add(column) {
            Some(c) => c,
            None => {
                return None;
            },
        },
        None => {
            return None;
        },
    };
    if layer == 0 || width == 0 || height == 0 {
        assert(layer * width * height == 0) by (nonlinear_arith)
            requires
                layer == 0 || width == 0 || height == 0,
        ;
        return if in_layer < limit {
            Some(in_layer)
        } else {
            None
        };
    }
    let before: usize = match layer.checked_mul(width) {
        Some(a) => match a.checked_mul(height) {
            Some(b) => b,
            None => {
                return None;
            },
        },
        None => {
            assert(layer * width * height >= layer * width) by (nonlinear_arith)
                requires
                    height >= 1,
                    layer * width >= 0,
            ;
            return None;
        },
    };
    match in_layer.checked_add(before) {
        Some(i) => if i < limit {
            Some(i)
        } else {
            None
        },
        None => None,
    }
}

impl Raster {
    /// Tests `wf`.
    pub fn is_valid(&self) -> (valid: bool)
        ensures
            valid == self.wf(),
    {
        let layer: usize = match self.width.checked_mul(self.height) {
            Some(cells) => cells,
            None => {
                return false;
            },
        };
        assert(layer * self.length == self.width * self.height * self.length);
        if layer == 0 || self.length == 0 {
            assert(self.width * self.height * self.length == 0) by (nonlinear_arith)
                requires
                    self.width * self.height == 0 || self.length == 0,
            ;
            return self.data.len() == 0;
        }
        let held: usize = self.data.len();
        match layer.checked_mul(self.length) {
            Some(cells) => held == cells,
            None => false,
        }
    }

    pub fn get_width(&self) -> (width: usize)
        ensures
            width == self.width,
    {
        self.width
    }

    pub fn get_height(&self) -> (height: usize)
        ensures
            height == self.height,
    {
        self.height
    }

    pub fn get_length(&self) -> (length: usize)
        ensures
            length == self.length,
    {
        self.length
    }

    /// A copy of the cells, in stored order.
    pub fn get_data(&self) -> (data: Vec<RGB>)
        ensures
            data@ == self.data@,
    {
        let mut data: Vec<RGB> = Vec::new();
        let mut i: usize = 0;
        while i < self.data.len()
            invariant
                i <= self.data@.len(),
                data@ == self.data@.take(i as int),
            decreases self.data@.len() - i,
        {
            data.push(self.data[i]);
            assert(self.data@.take(i + 1) =~= self.data@.take(i as int).push(self.data@[i as int]));
            i += 1;
        }
        assert(self.data@.take(self.data@.len() as int) =~= self.data@);
        data
    }

    /// The names of the three orientation tokens.
    pub fn get_orientation(&self) -> (names: Vec<String>)
        ensures
            names@.len() == 3,
            forall|k: int| 0 <= k < 3 ==> (#[trigger] names@[k])@ == token_name(self.orientation[k]),
    {
        let mut names: Vec<String> = Vec::new();
        names.push(self.orientation[0].name());
        names.push(self.orientation[1].name());
        names.push(self.orientation[2].name());
        names
    }

    /// Makes every cell black.
    pub fn clear(&mut self)
        requires
            old(self).wf(),
        ensures
            final(self).wf(),
            final(self).width == old(self).width,
            final(self).height == old(self).height,
            final(self).length == old(self).length,
            final(self).orientation == old(self).orientation,
            forall|i: int|
                0 <= i < final(self).data@.len() ==> final(self).data@[i] == (RGB {
                    red: 0,
                    green: 0,
                    blue: 0,
                }),
    {
        let n: usize = self.data.len();
        let mut i: usize = 0;
        while i < n
            invariant
                i <= n,
                n == self.data@.len(),
                self.width == old(self).width,
                self.height == old(self).height,
                self.length == old(self).length,
                self.orientation == old(self).orientation,
                self.data@.len() == old(self).data@.len(),
                forall|j: int| 0 <= j < i ==> self.data@[j] == (RGB { red: 0, green: 0, blue: 0 }),
            decreases n - i,
        {
            self.data.set(i, RGB::new(0, 0, 0));
            i += 1;
        }
    }

    /// Where the cell `(x, y, z)` is stored, if it is stored at all.
    fn locate(&self, x: usize, y: usize, z: usize) -> (index: Option<usize>)
        requires
            self.in_bounds(x as int, y as int, z as int),
        ensures
            match index {
                Some(i) => i == self.cell_index(x as int, y as int, z as int) && i < self.data@.len(),
                None => self.cell_index(x as int, y as int, z as int) >= self.data@.len(),
            },
    {
        let tx: usize = orient(self.orientation[0], self.width, self.height, self.length, x, y, z);
        let ty: usize = orient(self.orientation[1], self.width, self.height, self.length, x, y, z);
        let tz: usize = orient(self.orientation[2], self.width, self.height, self.length, x, y, z);
        linear_index(ty, tx, tz, self.width, self.height, self.data.len())
    }

    /// Sets the colour of cell `(x, y, z)`. A coordinate outside the raster
    /// is turned down, x before y before z; so is a cell that the
    /// orientation leads outside the data.
    pub fn set_pix(&mut self, x: usize, y: usize, z: usize, color: RGB) -> (done: Result<
        (),
        RasterError,
    >)
        ensures
            final(self).width == old(self).width,
            final(self).height == old(self).height,
            final(self).length == old(self).length,
            final(self).orientation == old(self).orientation,
            old(self).wf() ==> final(self).wf(),
            done == (if x >= old(self).width {
                Err::<(), RasterError>(RasterError::XOutOfRange)
            } else if y >= old(self).height {
                Err::<(), RasterError>(RasterError::YOutOfRange)
            } else if z >= old(self).length {
                Err::<(), RasterError>(RasterError::ZOutOfRange)
            } else if old(self).cell_index(x as int, y as int, z as int) >= old(self).data@.len() {
                Err::<(), RasterError>(RasterError::CellOutOfRange)
            } else {
                Ok::<(), RasterError>(())
            }),
            done is Ok ==> final(self).data@ == old(self).data@.update(
                old(self).cell_index(x as int, y as int, z as int),
                color,
            ),
            done is Err ==> final(self).data@ == old(self).data@,
    {
        if x >= self.width {
            return Err(RasterError::XOutOfRange);
        }
        if y >= self.height {
            return Err(RasterError::YOutOfRange);
        }
        if z >= self.length {
            return Err(RasterError::ZOutOfRange);
        }
        match self.locate(x, y, z) {
            Some(index) => {
                self.data.set(index, color);
                Ok(())
            },
            None => Err(RasterError::CellOutOfRange),
        }
    }

    /// The colour of cell `(x, y, z)`.
    pub fn get_pix(&self, x: usize, y: usize, z: usize) -> (color: Result<RGB, RasterError>)
        ensures
            color == (if !self.in_bounds(x as int, y as int, z as int) {
                Err::<RGB, RasterError>(RasterError::CoordinatesOutOfBounds)
            } else if self.cell_index(x as int, y as int, z as int) >= self.data@.len() {
                Err::<RGB, RasterError>(RasterError::CellOutOfRange)
            } else {
                Ok::<RGB, RasterError>(self.data@[self.cell_index(x as int, y as int, z as int)])
            }),
    {
        if x >= self.width || y >= self.height || z >= self.length {
            return Err(RasterError::CoordinatesOutOfBounds);
        }
        match self.locate(x, y, z) {
            Some(index) => Ok(self.data[index]),
            None => Err(RasterError::CellOutOfRange),
        }
    }

    /// Sets the colour of the cell stored at `(x, y, z)`, without regard
    /// to the orientation.
    pub fn set_pix_direct(&mut self, x: usize, y: usize, z: usize, color: RGB) -> (done: Result<
        (),
        RasterError,
    >)
        requires
            old(self).wf(),
        ensures
            final(self).wf(),
            final(self).width == old(self).width,
            final(self).height == old(self).height,
            final(self).length == old(self).length,
            final(self).orientation == old(self).orientation,
            old(self).in_bounds(x as int, y as int, z as int) ==> done is Ok && 0 <= old(self).direct_index(x as int, y as int, z as int) < old(self).data@.len() && final(self).data@ == old(self).data@.update(
                old(self).direct_index(x as int, y as int, z as int),
                color,
            ),
            !old(self).in_bounds(x as int, y as int, z as int) ==> done == Err::<(), RasterError>(
                RasterError::CoordinatesOutOfBounds,
            ) && final(self).data@ == old(self).data@,
    {
        if x >= self.width || y >= self.height || z >= self.length {
            return Err(RasterError::CoordinatesOutOfBounds);
        }
        proof {
            let w = self.width as int;
            let h = self.height as int;
            let l = self.length as int;
            assert(y * w + x + z * w * h < w * h * l && z * w * h >= 0 && y * w >= 0)
                by (nonlinear_arith)
                requires
                    0 <= x < w,
                    0 <= y < h,
                    0 <= z < l,
            ;
        }
        match linear_index(y, x, z, self.width, self.height, self.data.len()) {
            Some(index) => {
                self.data.set(index, color);
                Ok(())
            },
            None => Err(RasterError::CoordinatesOutOfBounds),
        }
    }

    /// Serialises the raster as one frame. Without `z_indices` the layers
    /// 0, span, 2*span, ... are sent.
    pub fn encode(
        &self,
        base_universe: u16,
        dimmer: &Dimmer,
        channels_per_universe: usize,
        universes_per_layer: u16,
        channel_span: usize,
        z_indices: Option<Vec<usize>>,
    ) -> (frame: Option<Vec<Vec<u8>>>)
        requires
            self.wf(),
            dimmer.wf(),
            channels_per_universe > 0,
            channel_span > 0,
        ensures
            ({
                let slicing = Slicing {
                    base_universe,
                    layer_cells: (self.width * self.height) as usize,
                    channels_per_universe,
                    universes_per_layer,
                    channel_span,
                };
                let zs = match z_indices {
                    Some(list) => list@,
                    None => default_z_indices(self.length as int, channel_span as int),
                };
                &&& frame is Some <==> slicing.frame_in_range(self.data@.len() as int, zs)
                &&& frame is Some ==> packets_view(frame->0@) == slicing.frame(
                    self.data@,
                    dimmer@,
                    zs,
                )
            }),
    {
        let slicing = Slicing {
            base_universe,
            layer_cells: self.width * self.height,
            channels_per_universe,
            universes_per_layer,
            channel_span,
        };
        let zs: Vec<usize> = match z_indices {
            Some(list) => list,
            None => default_layers(self.length, channel_span),
        };
        encode_layers(&slicing, &self.data, dimmer, &zs)
    }
}

} // verus!
