//! The line protocol spoken with a control-port device.

use vstd::prelude::*;
use vstd::utf8::encode_utf8;

verus! {

/// What the server tells a device.
#[derive(Debug, Clone)]
pub enum OutgoingMessage {
    Noop,
    LcdClear,
    LcdWrite { x: u16, y: u16, text: String },
    Backlight { states: Vec<bool> },
    Led { rgb_values: Vec<(u8, u8, u8)> },
}

/// An outgoing message as plain mathematics.
pub enum MessageView {
    Noop,
    LcdClear,
    LcdWrite { x: int, y: int, text: Seq<char> },
    Backlight { states: Seq<bool> },
    Led { rgb_values: Seq<(u8, u8, u8)> },
}

impl View for OutgoingMessage {
    type V = MessageView;

    open spec fn view(&self) -> MessageView {
        match self {
            OutgoingMessage::Noop => MessageView::Noop,
            OutgoingMessage::LcdClear => MessageView::LcdClear,
            OutgoingMessage::LcdWrite { x, y, text } => MessageView::LcdWrite {
                x: *x as int,
                y: *y as int,
                text: text@,
            },
            OutgoingMessage::Backlight { states } => MessageView::Backlight { states: states@ },
            OutgoingMessage::Led { rgb_values } => MessageView::Led { rgb_values: rgb_values@ },
        }
    }
}

/// The views of a list of messages, in order.
pub open spec fn messages_view(messages: Seq<OutgoingMessage>) -> Seq<MessageView> {
    messages.map_values(|m: OutgoingMessage| m@)
}

impl OutgoingMessage {
    /// Whether the message can be written down: the count field of an LED
    /// message has sixteen bits.
    pub open spec fn wf(&self) -> bool {
        match self {
            OutgoingMessage::Led { rgb_values } => rgb_values@.len() <= 0xFFFF,
            _ => true,
        }
    }

    /// Tests `wf`.
    pub fn fits_wire(&self) -> (fits: bool)
        ensures
            fits == self.wf(),
    {
        match self {
            OutgoingMessage::Led { rgb_values } => rgb_values.len() <= 0xFFFF,
            _ => true,
        }
    }

    pub fn is_noop(&self) -> (noop: bool)
        ensures
            noop == (self@ is Noop),
    {
        match self {
            OutgoingMessage::Noop => true,
            _ => false,
        }
    }
}

/// A number in decimal digits, as ASCII.
pub open spec fn decimal_bytes(n: nat) -> Seq<u8>
    decreases n,
{
    if n < 10 {
        seq![(48 + n) as u8]
    } else {
        decimal_bytes(n / 10).push((48 + n % 10) as u8)
    }
}

/// Backlight states as `0` and `1`, with a colon between neighbours.
pub open spec fn flag_bytes(states: Seq<bool>) -> Seq<u8>
    decreases states.len(),
{
    if states.len() == 0 {
        Seq::empty()
    } else if states.len() == 1 {
        seq![flag_byte(states[0])]
    } else {
        flag_bytes(states.drop_last()) + seq![58u8, flag_byte(states.last())]
    }
}

pub open spec fn flag_byte(on: bool) -> u8 {
    if on {
        49
    } else {
        48
    }
}

pub open spec fn color_channel(color: (u8, u8, u8), k: int) -> u8 {
    if k == 0 {
        color.0
    } else if k == 1 {
        color.1
    } else {
        color.2
    }
}

/// What an LED message carries before it is encoded: the number of
/// triplets in sixteen bits, low byte first, then red, green and blue of
/// each.
pub open spec fn led_payload(rgb_values: Seq<(u8, u8, u8)>) -> Seq<u8> {
    seq![(rgb_values.len() % 256) as u8, (rgb_values.len() / 256) as u8] + Seq::new(
        3 * rgb_values.len(),
        |i: int| color_channel(rgb_values[i / 3], i % 3),
    )
}

/// The text that `base64`'s standard engine, with padding, makes of `data`,
/// as ASCII bytes.
pub uninterp spec fn base64_standard(data: Seq<u8>) -> Seq<u8>;

/// The line that carries a message to the device:
///
/// - `noop\n`
/// - `lcd:clear\n`
/// - `lcd:<x>:<y>:<text>\n`
/// - `backlight:<b0>:<b1>:...\n`
/// - `led:<base64>\n`
pub open spec fn wire_bytes(m: MessageView) -> Seq<u8> {
    match m {
        MessageView::Noop => seq![110u8, 111u8, 111u8, 112u8, 10u8],
        MessageView::LcdClear => seq![
            108u8,
            99u8,
            100u8,
            58u8,
            99u8,
            108u8,
            101u8,
            97u8,
            114u8,
            10u8,
        ],
        MessageView::LcdWrite { x, y, text } => seq![108u8, 99u8, 100u8, 58u8] + decimal_bytes(
            x as nat,
        ) + seq![58u8] + decimal_bytes(y as nat) + seq![58u8] + encode_utf8(text) + seq![10u8],
        MessageView::Backlight { states } => seq![
            98u8,
            97u8,
            99u8,
            107u8,
            108u8,
            105u8,
            103u8,
            104u8,
            116u8,
            58u8,
        ] + flag_bytes(states) + seq![10u8],
        MessageView::Led { rgb_values } => seq![108u8, 101u8, 100u8, 58u8] + base64_standard(
            led_payload(rgb_values),
        ) + seq![10u8],
    }
}

/// `base64::Engine::encode` on `base64::engine::general_purpose::STANDARD`:
/// the encoding of `data`, handed out as the bytes of the text it returns.
/// The call fails where the size of the text overflows, so the input is
/// kept far below that.
#[verifier::external_body]
fn base64_encode(data: &Vec<u8>) -> (text: Vec<u8>)
    requires
        data@.len() <= 0x1000_0000,
    ensures
        text@ == base64_standard(data@),
{
    base64::Engine::encode(&base64::engine::general_purpose::STANDARD, data).into_bytes()
}

#[verifier::external_type_specification]
#[verifier::external_body]
pub struct ExBytes(bytes::Bytes);

/// The bytes that a `bytes::Bytes` holds, in order.
pub uninterp spec fn bytes_contents(b: bytes::Bytes) -> Seq<u8>;

/// `Bytes::from` for a vector: the buffer holds the vector's bytes.
#[verifier::external_body]
fn bytes_from_vec(data: Vec<u8>) -> (b: bytes::Bytes)
    ensures
        bytes_contents(b) == data@,
{
    bytes::Bytes::from(data)
}

fn append_bytes(out: &mut Vec<u8>, bytes: &[u8])
    ensures
        final(out)@ == old(out)@ + bytes@,
{
    let mut i: usize = 0;
    while i < bytes.len()
        invariant
            i <= bytes@.len(),
            out@ == old(out)@ + bytes@.take(i as int),
        decreases bytes@.len() - i,
    {
        out.push(bytes[i]);
        assert(bytes@.take(i + 1) =~= bytes@.take(i as int).push(bytes@[i as int]));
        i += 1;
    }
    assert(bytes@.take(bytes@.len() as int) =~= bytes@);
}

fn append_decimal(out: &mut Vec<u8>, n: u16)
    ensures
        final(out)@ == old(out)@ + decimal_bytes(n as nat),
    decreases n,
{
    if n >= 10 {
        append_decimal(out, n / 10);
    }
    out.push(48 + (n % 10) as u8);
    proof {
        if n >= 10 {
            assert(out@ =~= old(out)@ + decimal_bytes(n as nat));
        } else {
            assert(out@ =~= old(out)@ + decimal_bytes(n as nat));
        }
    }
}

fn append_flags(out: &mut Vec<u8>, states: &Vec<bool>)
    ensures
        final(out)@ == old(out)@ + flag_bytes(states@),
{
    let mut i: usize = 0;
    assert(states@.take(0) =~= Seq::<bool>::empty());
    while i < states.len()
        invariant
            i <= states@.len(),
            out@ == old(out)@ + flag_bytes(states@.take(i as int)),
        decreases states@.len() - i,
    {
        let ghost before = states@.take(i as int);
        let ghost after = states@.take(i + 1);
        proof {
            assert(after.drop_last() =~= before);
            assert(after.last() == states@[i as int]);
        }
        if i > 0 {
            out.push(58);
        }
        out.push(if states[i] {
            49
        } else {
            48
        });
        proof {
            if i > 0 {
                assert(out@ =~= old(out)@ + flag_bytes(after));
            } else {
                assert(before.len() == 0);
                assert(out@ =~= old(out)@ + flag_bytes(after));
            }
        }
        i += 1;
    }
    assert(states@.take(states@.len() as int) =~= states@);
}

fn build_led_payload(rgb_values: &Vec<(u8, u8, u8)>) -> (payload: Vec<u8>)
    requires
        rgb_values@.len() <= 0xFFFF,
    ensures
        payload@ == led_payload(rgb_values@),
        payload@.len() == 2 + 3 * rgb_values@.len(),
{
    let n: usize = rgb_values.len();
    let mut payload: Vec<u8> = Vec::new();
    payload.push((n % 256) as u8);
    payload.push((n / 256) as u8);
    let mut i: usize = 0;
    while i < n
        invariant
            i <= n,
            n == rgb_values@.len(),
            payload@.len() == 2 + 3 * i,
            payload@[0] == (n % 256) as u8,
            payload@[1] == (n / 256) as u8,
            forall|k: int|
                2 <= k < 2 + 3 * i ==> #[trigger] payload@[k] == color_channel(
                    rgb_values@[(k - 2) / 3],
                    (k - 2) % 3,
                ),
        decreases n - i,
    {
        let color: (u8, u8, u8) = rgb_values[i];
        payload.push(color.0);
        payload.push(color.1);
        payload.push(color.2);
        i += 1;
    }
    assert(payload@ =~= led_payload(rgb_values@));
    payload
}

impl OutgoingMessage {
    /// The line for this message, as bytes.
    pub fn to_wire(&self) -> (line: Vec<u8>)
        requires
            self.wf(),
        ensures
            line@ == wire_bytes(self@),
    {
        let mut line: Vec<u8> = Vec::new();
        match self {
            OutgoingMessage::Noop => {
                line.push(110);
                line.push(111);
                line.push(111);
                line.push(112);
                line.push(10);
                assert(line@ =~= wire_bytes(self@));
            },
            OutgoingMessage::LcdClear => {
                line.push(108);
                line.push(99);
                line.push(100);
                line.push(58);
                line.push(99);
                line.push(108);
                line.push(101);
                line.push(97);
                line.push(114);
                line.push(10);
                assert(line@ =~= wire_bytes(self@));
            },
            OutgoingMessage::LcdWrite { x, y, text } => {
                line.push(108);
                line.push(99);
                line.push(100);
                line.push(58);
                append_decimal(&mut line, *x);
                line.push(58);
                append_decimal(&mut line, *y);
                line.push(58);
                append_bytes(&mut line, text.as_str().as_bytes());
                line.push(10);
                assert(line@ =~= wire_bytes(self@));
            },
            OutgoingMessage::Backlight { states } => {
                line.push(98);
                line.push(97);
                line.push(99);
                line.push(107);
                line.push(108);
                line.push(105);
                line.push(103);
                line.push(104);
                line.push(116);
                line.push(58);
                append_flags(&mut line, states);
                line.push(10);
                assert(line@ =~= wire_bytes(self@));
            },
            OutgoingMessage::Led { rgb_values } => {
                line.push(108);
                line.push(101);
                line.push(100);
                line.push(58);
                let payload: Vec<u8> = build_led_payload(rgb_values);
                let encoded: Vec<u8> = base64_encode(&payload);
                append_bytes(&mut line, encoded.as_slice());
                line.push(10);
                assert(line@ =~= wire_bytes(self@));
            },
        }
        line
    }

    /// The line for this message, ready to be written to the connection.
    pub fn to_bytes(&self) -> (line: bytes::Bytes)
        requires
            self.wf(),
        ensures
            bytes_contents(line) == wire_bytes(self@),
    {
        bytes_from_vec(self.to_wire())
    }
}

/// What a device tells the server.
#[derive(Debug, Clone)]
pub enum IncomingMessage {
    Heartbeat,
    Controller { dip: String },
    Button { buttons: Vec<bool> },
}

/// An incoming message as plain mathematics.
pub enum IncomingView {
    Heartbeat,
    Controller { dip: Seq<char> },
    Button { buttons: Seq<bool> },
}

impl View for IncomingMessage {
    type V = IncomingView;

    open spec fn view(&self) -> IncomingView {
        match self {
            IncomingMessage::Heartbeat => IncomingView::Heartbeat,
            IncomingMessage::Controller { dip } => IncomingView::Controller { dip: dip@ },
            IncomingMessage::Button { buttons } => IncomingView::Button { buttons: buttons@ },
        }
    }
}

/// Why a line from a device was not understood.
#[derive(Clone, Copy, Debug, PartialEq, Eq, Structural)]
pub enum MessageError {
    /// The line is not a JSON document.
    InvalidJson,
    /// The line is JSON, but none of the three shapes.
    UnknownFormat,
}

/// The members of a JSON object that the protocol looks at.
pub struct LineFields {
    /// The member under the list key, where it is a list of booleans.
    pub flags: Option<Vec<bool>>,
    /// The member under the list key, where it is a list of integers.
    pub numbers: Option<Vec<i32>>,
    /// The member under the kind key, where it is a string.
    pub kind: Option<String>,
    /// The member under the name key, where it is a string.
    pub name: Option<String>,
}

pub struct LineFieldsView {
    pub flags: Option<Seq<bool>>,
    pub numbers: Option<Seq<i32>>,
    pub kind: Option<Seq<char>>,
    pub name: Option<Seq<char>>,
}

impl View for LineFields {
    type V = LineFieldsView;

    open spec fn view(&self) -> LineFieldsView {
        LineFieldsView {
            flags: match self.flags {
                Some(v) => Some(v@),
                None => None,
            },
            numbers: match self.numbers {
                Some(v) => Some(v@),
                None => None,
            },
            kind: match self.kind {
                Some(v) => Some(v@),
                None => None,
            },
            name: match self.name {
                Some(v) => Some(v@),
                None => None,
            },
        }
    }
}

/// What `serde_json` reads out of `text` under the three keys, or `None`
/// where `text` is not a JSON document.
pub uninterp spec fn json_fields(
    text: Seq<char>,
    list_key: Seq<char>,
    kind_key: Seq<char>,
    name_key: Seq<char>,
) -> Option<LineFieldsView>;

#[verifier::external_type_specification]
#[verifier::external_body]
pub struct ExJsonError(serde_json::Error);

/// `serde_json::from_str` reads the document; `Value::get` looks up the
/// three keys (a document that is no object has no members);
/// `serde_json::from_value` reads the first as a list of booleans and as a
/// list of 32-bit integers; `Value::as_str` reads the other two as strings.
/// The error is that of `from_str`.
#[verifier::external_body]
fn read_fields(text: &str, list_key: &str, kind_key: &str, name_key: &str) -> (fields: Result<
    LineFields,
    serde_json::Error,
>)
    ensures
        match fields {
            Ok(f) => json_fields(text@, list_key@, kind_key@, name_key@) == Some(f@),
            Err(_) => json_fields(text@, list_key@, kind_key@, name_key@) is None,
        },
{
    let document: serde_json::Value = serde_json::from_str(text)?;
    let list = document.get(list_key).cloned();
    Ok(
        LineFields {
            flags: list.clone().and_then(|v| serde_json::from_value(v).ok()),
            numbers: list.and_then(|v| serde_json::from_value(v).ok()),
            kind: document.get(kind_key).and_then(|v| v.as_str()).map(String::from),
            name: document.get(name_key).and_then(|v| v.as_str()).map(String::from),
        },
    )
}

/// A number stands for a pressed button unless it is zero.
pub open spec fn truthy(numbers: Seq<i32>) -> Seq<bool> {
    numbers.map_values(|n: i32| n != 0)
}

/// Which message a JSON object is. A `buttons` list decides first: of
/// booleans as it is, of integers by whether each is zero. Then the `type`:
/// `heartbeat`, or `controller` with a `dip` string. Anything else is
/// unknown.
pub open spec fn classify(f: LineFieldsView) -> Result<IncomingView, MessageError> {
    if f.flags is Some {
        Ok(IncomingView::Button { buttons: f.flags->0 })
    } else if f.numbers is Some {
        Ok(IncomingView::Button { buttons: truthy(f.numbers->0) })
    } else if f.kind == Some("heartbeat"@) {
        Ok(IncomingView::Heartbeat)
    } else if f.kind == Some("controller"@) && f.name is Some {
        Ok(IncomingView::Controller { dip: f.name->0 })
    } else {
        Err(MessageError::UnknownFormat)
    }
}

/// What a line from a device is read as.
pub open spec fn reading_of(line: Seq<char>) -> Result<IncomingView, MessageError> {
    match json_fields(line, "buttons"@, "type"@, "dip"@) {
        Some(f) => classify(f),
        None => Err(MessageError::InvalidJson),
    }
}

/// The view of what reading a line gave.
pub open spec fn reading_view(r: Result<IncomingMessage, MessageError>) -> Result<
    IncomingView,
    MessageError,
> {
    match r {
        Ok(m) => Ok(m@),
        Err(e) => Err(e),
    }
}

fn same_text(a: &str, b: &str) -> (same: bool)
    ensures
        same == (a@ == b@),
{
    let x: Vec<char> = crate::text::chars_of(a);
    let y: Vec<char> = crate::text::chars_of(b);
    if x.len() != y.len() {
        return false;
    }
    let mut i: usize = 0;
    while i < x.len()
        invariant
            i <= x@.len(),
            x@.len() == y@.len(),
            x@ == a@,
            y@ == b@,
            forall|k: int| 0 <= k < i ==> x@[k] == y@[k],
        decreases x@.len() - i,
    {
        if x[i] != y[i] {
            return false;
        }
        i += 1;
    }
    assert(x@ =~= y@);
    true
}

fn truthy_of(numbers: &Vec<i32>) -> (flags: Vec<bool>)
    ensures
        flags@ == truthy(numbers@),
{
    let mut flags: Vec<bool> = Vec::new();
    let mut i: usize = 0;
    while i < numbers.len()
        invariant
            i <= numbers@.len(),
            flags@.len() == i,
            forall|k: int| 0 <= k < i ==> flags@[k] == (numbers@[k] != 0),
        decreases numbers@.len() - i,
    {
        flags.push(numbers[i] != 0);
        i += 1;
    }
    assert(flags@ =~= truthy(numbers@));
    flags
}

impl IncomingMessage {
    /// Decides which message the members of a JSON object make up.
    pub fn from_fields(fields: LineFields) -> (message: Result<IncomingMessage, MessageError>)
        ensures
            reading_view(message) == classify(fields@),
    {
        let LineFields { flags, numbers, kind, name } = fields;
        if let Some(buttons) = flags {
            return Ok(IncomingMessage::Button { buttons });
        }
        if let Some(list) = numbers {
            return Ok(IncomingMessage::Button { buttons: truthy_of(&list) });
        }
        if let Some(kind_text) = kind {
            if same_text(kind_text.as_str(), "heartbeat") {
                return Ok(IncomingMessage::Heartbeat);
            }
            if same_text(kind_text.as_str(), "controller") {
                if let Some(dip) = name {
                    return Ok(IncomingMessage::Controller { dip });
                }
            }
        }
        Err(MessageError::UnknownFormat)
    }

    /// Reads one line from a device. The members looked at are `buttons`,
    /// `type` and `dip`.
    pub fn from_json(json_str: &str) -> (message: Result<IncomingMessage, MessageError>)
        ensures
            reading_view(message) == reading_of(json_str@),
    {
        match read_fields(json_str, "buttons", "type", "dip") {
            Ok(fields) => IncomingMessage::from_fields(fields),
            Err(_) => Err(MessageError::InvalidJson),
        }
    }
}

} // verus!
