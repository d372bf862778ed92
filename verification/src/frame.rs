//! Modbus frames over a byte stream.
//!
//! The frames themselves are built and checked by `rmodbus`. This module says
//! what they hold, decides when a reply is complete, and turns a reply into
//! register words or an error; moving the bytes is left to the transport.
use crate::crc::{crc16, high, low, sealed};
use crate::error::Error;
use crate::register::RegKind;
use crate::text::{append_decimal, decimal_text};
use rmodbus::client::ModbusRequest;
use rmodbus::consts::ModbusFunction;
use rmodbus::ModbusProto;
use vstd::prelude::*;

verus! {

/// How a frame is carried.
#[derive(Debug, Clone, Copy, PartialEq, Eq, Structural)]
pub enum Framing {
    /// Serial line: the frame ends in a checksum.
    Rtu,
    /// TCP: the frame starts with a header that carries its length.
    Tcp,
}

/// The Modbus functions the crate uses.
#[derive(Debug, Clone, Copy, PartialEq, Eq, Structural)]
pub enum Function {
    /// Read holding registers.
    ReadHolding,
    /// Read input registers.
    ReadInput,
    /// Write one holding register.
    WriteHolding,
}

impl Function {
    /// The function code.
    pub open spec fn code(self) -> u8 {
        match self {
            Function::ReadHolding => 3,
            Function::ReadInput => 4,
            Function::WriteHolding => 6,
        }
    }

    /// The function that reads a table.
    pub open spec fn reading(kind: RegKind) -> Function {
        match kind {
            RegKind::Input => Function::ReadInput,
            RegKind::Holding => Function::ReadHolding,
        }
    }
}

/// A whole frame: on a serial line the unit and the message, sealed with a
/// checksum; on TCP a header with transaction 1, protocol 0 and the length of
/// what follows, then the unit and the message.
pub open spec fn framed(framing: Framing, unit: u8, message: Seq<u8>) -> Seq<u8> {
    let body = seq![unit] + message;
    match framing {
        Framing::Rtu => sealed(body),
        Framing::Tcp => seq![
            0u8,
            1u8,
            0u8,
            0u8,
            high(body.len() as u16),
            low(body.len() as u16),
        ] + body,
    }
}

/// A message of a function and two words.
pub open spec fn two_words(function: Function, first: u16, second: u16) -> Seq<u8> {
    seq![function.code(), high(first), low(first), high(second), low(second)]
}

/// The length of the frame that starts with `bytes`, as far as they tell.
pub open spec fn frame_len(framing: Framing, bytes: Seq<u8>) -> Option<nat> {
    match framing {
        Framing::Tcp => {
            let n: nat = (bytes[4] * 256 + bytes[5] + 6) as nat;
            if bytes.len() >= 6 && bytes[2] == 0 && bytes[3] == 0 && n <= 255 {
                Some(n)
            } else {
                None
            }
        },
        Framing::Rtu => if bytes.len() < 2 {
            None
        } else if bytes[1] >= 0x80 {
            Some(5)
        } else if bytes.len() < 3 {
            None
        } else if 1 <= bytes[1] <= 4 && bytes[2] + 5 <= 255 {
            Some((bytes[2] + 5) as nat)
        } else if bytes[1] == 5 || bytes[1] == 6 || bytes[1] == 15 || bytes[1] == 16 {
            Some(8)
        } else {
            None
        },
    }
}

/// Where the unit stands in a frame.
pub open spec fn body_start(framing: Framing) -> int {
    match framing {
        Framing::Rtu => 0,
        Framing::Tcp => 6,
    }
}

/// Where the message ends in a frame.
pub open spec fn body_end(framing: Framing, reply: Seq<u8>) -> int {
    match framing {
        Framing::Rtu => reply.len() - 2,
        Framing::Tcp => reply.len() as int,
    }
}

/// The name of a Modbus exception.
pub open spec fn exception_name(code: u8) -> Seq<char> {
    match code {
        0x01 => "IllegalFunction"@,
        0x02 => "IllegalDataAddress"@,
        0x03 => "IllegalDataValue"@,
        0x04 => "SlaveDeviceFailure"@,
        0x05 => "Acknowledge"@,
        0x06 => "SlaveDeviceBusy"@,
        0x07 => "NegativeAcknowledge"@,
        0x08 => "MemoryParityError"@,
        0x09 => "GatewayPathUnavailable"@,
        0x10 => "GatewayTargetFailed"@,
        _ => "UnknownError"@,
    }
}

/// What is wrong with the envelope of a reply, if anything: it is too short,
/// too long or its checksum is wrong; or it is too short for TCP, or answers
/// another transaction or protocol.
pub open spec fn envelope_fault(framing: Framing, reply: Seq<u8>) -> Option<Seq<char>> {
    let n = reply.len() as int;
    match framing {
        Framing::Rtu => if n < 5 || n > 257 {
            Some("FrameBroken"@)
        } else if crc16(reply.take(n - 2)) != reply[n - 2] + 256 * reply[n - 1] {
            Some("FrameCRCError"@)
        } else {
            None
        },
        Framing::Tcp => if n < 9 || reply[0] != 0 || reply[1] != 1 || reply[2] != 0 || reply[3] != 0 {
            Some("FrameBroken"@)
        } else {
            None
        },
    }
}

/// What is wrong with a reply, if anything: its envelope, its unit, its
/// function (an exception then follows), or, for a read, more data than twice
/// the byte count that it announces.
pub open spec fn reply_fault(
    framing: Framing,
    unit: u8,
    function: Function,
    reply: Seq<u8>,
) -> Option<Seq<char>> {
    let start = body_start(framing);
    if envelope_fault(framing, reply) is Some {
        envelope_fault(framing, reply)
    } else if reply[start] != unit {
        Some("FrameBroken"@)
    } else if reply[start + 1] != function.code() {
        Some(exception_name(reply[start + 2]))
    } else if function != Function::WriteHolding && reply[start + 2] * 2 < body_end(framing, reply)
        - start - 3 {
        Some("FrameBroken"@)
    } else {
        None
    }
}

/// The data of a read reply.
pub open spec fn reply_data(framing: Framing, reply: Seq<u8>) -> Seq<u8> {
    reply.subrange(body_start(framing) + 3, body_end(framing, reply))
}

/// The words that data holds, high byte first, at most `count` of them.
pub open spec fn data_words(data: Seq<u8>, count: u16) -> Seq<u16> {
    Seq::new(
        if data.len() / 2 < count {
            data.len() / 2
        } else {
            count as nat
        },
        |i: int| (data[2 * i] * 256 + data[2 * i + 1]) as u16,
    )
}

/// `ModbusRequest::generate_get_inputs`, on a `ModbusRequest::new` for the
/// unit and framing. The result is the whole request frame to read `count`
/// input registers from `address`; into a `Vec` it cannot fail.
#[verifier::external_body]
fn build_get_inputs(framing: Framing, unit: u8, address: u16, count: u16) -> (r: Result<
    Vec<u8>,
    String,
>)
    ensures
        r is Ok,
        r->Ok_0@ == framed(
            framing,
            unit,
            two_words(Function::ReadInput, address, count),
        ),
{
    let proto = match framing {
        Framing::Rtu => ModbusProto::Rtu,
        Framing::Tcp => ModbusProto::TcpUdp,
    };
    let mut frame: Vec<u8> = Vec::new();
    let built = ModbusRequest::new(unit, proto).generate_get_inputs(address, count, &mut frame);
    built.map(|()| frame).map_err(|e| format!("{e:?}"))
}

/// `ModbusRequest::generate_get_holdings`, on a `ModbusRequest::new` for the
/// unit and framing. The result is the whole request frame to read `count`
/// holding registers from `address`; into a `Vec` it cannot fail.
#[verifier::external_body]
fn build_get_holdings(framing: Framing, unit: u8, address: u16, count: u16) -> (r: Result<
    Vec<u8>,
    String,
>)
    ensures
        r is Ok,
        r->Ok_0@ == framed(
            framing,
            unit,
            two_words(Function::ReadHolding, address, count),
        ),
{
    let proto = match framing {
        Framing::Rtu => ModbusProto::Rtu,
        Framing::Tcp => ModbusProto::TcpUdp,
    };
    let mut frame: Vec<u8> = Vec::new();
    let built = ModbusRequest::new(unit, proto).generate_get_holdings(address, count, &mut frame);
    built.map(|()| frame).map_err(|e| format!("{e:?}"))
}

/// `ModbusRequest::generate_set_holding`, on a `ModbusRequest::new` for the
/// unit and framing. The result is the whole request frame to write `value`
/// to the holding register at `address`; into a `Vec` it cannot fail.
#[verifier::external_body]
fn build_set_holding(framing: Framing, unit: u8, address: u16, value: u16) -> (r: Result<
    Vec<u8>,
    String,
>)
    ensures
        r is Ok,
        r->Ok_0@ == framed(
            framing,
            unit,
            two_words(Function::WriteHolding, address, value),
        ),
{
    let proto = match framing {
        Framing::Rtu => ModbusProto::Rtu,
        Framing::Tcp => ModbusProto::TcpUdp,
    };
    let mut frame: Vec<u8> = Vec::new();
    let built = ModbusRequest::new(unit, proto).generate_set_holding(address, value, &mut frame);
    built.map(|()| frame).map_err(|e| format!("{e:?}"))
}

/// `rmodbus::guess_response_frame_len`: the length of the reply that starts
/// with `bytes`, or `None` while they do not tell, or tell of a frame that is
/// no Modbus reply or is longer than 255 bytes.
#[verifier::external_body]
fn guess_frame_len(framing: Framing, bytes: &[u8]) -> (r: Option<u8>)
    ensures
        match frame_len(framing, bytes@) {
            Some(n) => r matches Some(len) && len == n,
            None => r is None,
        },
{
    let proto = match framing {
        Framing::Rtu => ModbusProto::Rtu,
        Framing::Tcp => ModbusProto::TcpUdp,
    };
    rmodbus::guess_response_frame_len(bytes, proto).ok()
}

/// `ModbusRequest::parse_ok`, on a `ModbusRequest::new` for the unit and
/// framing that asked for `function`: accepts a reply with a sound envelope
/// that comes from the unit and answers the function, and otherwise returns
/// the error, here by its `Debug` name.
#[verifier::external_body]
fn check_reply(framing: Framing, unit: u8, function: Function, reply: &[u8]) -> (r: Result<
    (),
    String,
>)
    ensures
        match reply_fault(framing, unit, function, reply@) {
            None => r is Ok,
            Some(fault) => r matches Err(e) && e@ == fault,
        },
{
    let mut request = ModbusRequest::new(unit, match framing {
        Framing::Rtu => ModbusProto::Rtu,
        Framing::Tcp => ModbusProto::TcpUdp,
    });
    request.func = match function {
        Function::ReadHolding => ModbusFunction::GetHoldings,
        Function::ReadInput => ModbusFunction::GetInputs,
        Function::WriteHolding => ModbusFunction::SetHolding,
    };
    request.parse_ok(reply).map_err(|e| format!("{e:?}"))
}

/// `ModbusRequest::parse_u16`, on a `ModbusRequest::new` for the unit and
/// framing that asked for `count` registers: the words of a sound reply. It
/// panics on a sound reply without data, so the contract asks for some.
#[verifier::external_body]
fn parse_words(framing: Framing, unit: u8, function: Function, count: u16, reply: &[u8]) -> (r:
    Result<Vec<u16>, String>)
    requires
        function != Function::WriteHolding,
        reply_fault(framing, unit, function, reply@) is None,
        reply_data(framing, reply@).len() > 0,
    ensures
        r is Ok,
        r->Ok_0@ == data_words(reply_data(framing, reply@), count),
{
    let mut request = ModbusRequest::new(unit, match framing {
        Framing::Rtu => ModbusProto::Rtu,
        Framing::Tcp => ModbusProto::TcpUdp,
    });
    request.func = match function {
        Function::ReadHolding => ModbusFunction::GetHoldings,
        Function::ReadInput => ModbusFunction::GetInputs,
        Function::WriteHolding => ModbusFunction::SetHolding,
    };
    request.count = count;
    let mut words: Vec<u16> = Vec::new();
    request.parse_u16(reply, &mut words).map(|()| words).map_err(|e| format!("{e:?}"))
}

/// `prefix`, then `address`, then a colon and `fault`.
fn located(prefix: &str, address: u16, fault: &str) -> (r: String)
    ensures
        r@ == prefix@ + decimal_text(address as nat) + ": "@ + fault@,
{
    let mut out: String = prefix.to_owned();
    append_decimal(&mut out, address as u128);
    out.append(": ");
    out.append(fault);
    out
}

/// `r` is the request to read `words` registers of a table from `address`.
pub open spec fn asks_to_read(
    framing: Framing,
    unit: u8,
    kind: RegKind,
    address: u16,
    words: u8,
    r: Result<Vec<u8>, Error>,
) -> bool {
    r matches Ok(frame) && frame@ == framed(
        framing,
        unit,
        two_words(Function::reading(kind), address, words as u16),
    )
}

/// `r` is the request to write `value` to `address`.
pub open spec fn asks_to_write(
    framing: Framing,
    unit: u8,
    address: u16,
    value: u16,
    r: Result<Vec<u8>, Error>,
) -> bool {
    r matches Ok(frame) && frame@ == framed(
        framing,
        unit,
        two_words(Function::WriteHolding, address, value),
    )
}

/// `r` is what `reply` says to a request to read.
pub open spec fn yields_words(
    framing: Framing,
    unit: u8,
    kind: RegKind,
    address: u16,
    words: u8,
    reply: Seq<u8>,
    r: Result<Vec<u16>, Error>,
) -> bool {
    match reply_fault(framing, unit, Function::reading(kind), reply) {
        None => r matches Ok(out) && out@ == data_words(reply_data(framing, reply), words as u16),
        Some(fault) => r matches Err(Error::Comm(e)) && e@ == "modbus read error at "@
            + decimal_text(address as nat) + ": "@ + fault,
    }
}

/// `r` is what `reply` says to a request to write.
pub open spec fn confirms_write(
    framing: Framing,
    unit: u8,
    address: u16,
    reply: Seq<u8>,
    r: Result<(), Error>,
) -> bool {
    match reply_fault(framing, unit, Function::WriteHolding, reply) {
        None => r is Ok,
        Some(fault) => r matches Err(Error::Comm(e)) && e@ == "modbus write error at "@
            + decimal_text(address as nat) + ": "@ + fault,
    }
}

/// The request frame to read `words` registers of a table from `address`.
pub fn read_request(framing: Framing, unit: u8, kind: RegKind, address: u16, words: u8) -> (r:
    Result<Vec<u8>, Error>)
    ensures
        asks_to_read(framing, unit, kind, address, words, r),
{
    let built: Result<Vec<u8>, String> = match kind {
        RegKind::Input => build_get_inputs(framing, unit, address, words as u16),
        RegKind::Holding => build_get_holdings(framing, unit, address, words as u16),
    };
    match built {
        Ok(frame) => Ok(frame),
        Err(e) => Err(Error::Comm("frame build failed: ".to_owned().concat(e.as_str()))),
    }
}

/// The request frame to write `value` to the holding register at `address`.
pub fn write_request(framing: Framing, unit: u8, address: u16, value: u16) -> (r: Result<
    Vec<u8>,
    Error,
>)
    ensures
        asks_to_write(framing, unit, address, value, r),
{
    match build_set_holding(framing, unit, address, value) {
        Ok(frame) => Ok(frame),
        Err(e) => Err(Error::Comm("frame build failed: ".to_owned().concat(e.as_str()))),
    }
}

/// The words of the reply to a [`read_request`].
///
/// A sound reply yields the words it carries, at most as many as were asked
/// for and possibly fewer: see [`crate::modbus::read_words`].
pub fn read_reply(
    framing: Framing,
    unit: u8,
    kind: RegKind,
    address: u16,
    words: u8,
    reply: &[u8],
) -> (r: Result<Vec<u16>, Error>)
    ensures
        yields_words(framing, unit, kind, address, words, reply@, r),
{
    let function: Function = match kind {
        RegKind::Input => Function::ReadInput,
        RegKind::Holding => Function::ReadHolding,
    };
    let shortest: usize = match framing {
        Framing::Rtu => 5,
        Framing::Tcp => 9,
    };
    match check_reply(framing, unit, function, reply) {
        Err(fault) => Err(Error::Comm(located("modbus read error at ", address, fault.as_str()))),
        Ok(()) => if reply.len() == shortest {
            assert(data_words(reply_data(framing, reply@), words as u16) =~= seq![]);
            Ok(Vec::new())
        } else {
            match parse_words(framing, unit, function, words as u16, reply) {
                Ok(out) => Ok(out),
                Err(fault) => Err(
                    Error::Comm(located("modbus read error at ", address, fault.as_str())),
                ),
            }
        },
    }
}

/// Whether the reply to a [`write_request`] acknowledges it.
pub fn write_reply(framing: Framing, unit: u8, address: u16, reply: &[u8]) -> (r: Result<(), Error>)
    ensures
        confirms_write(framing, unit, address, reply@, r),
{
    match check_reply(framing, unit, Function::WriteHolding, reply) {
        Ok(()) => Ok(()),
        Err(fault) => Err(Error::Comm(located("modbus write error at ", address, fault.as_str()))),
    }
}

/// What to do after a piece of a reply.
#[derive(Debug)]
pub enum Progress {
    /// The reply is complete: this is its frame.
    Complete(Vec<u8>),
    /// Read the next piece.
    Incomplete,
    /// Give up.
    Failed(Error),
}

/// A reply being put together from the pieces it arrives in.
#[derive(Debug)]
pub struct ReplyBuffer {
    /// How the reply is framed.
    pub framing: Framing,
    /// The bytes so far.
    pub bytes: Vec<u8>,
}

/// The frame at the front of `bytes`, once they hold all of it.
pub open spec fn whole_frame(framing: Framing, bytes: Seq<u8>) -> Option<Seq<u8>> {
    match frame_len(framing, bytes) {
        Some(n) => if n <= bytes.len() {
            Some(bytes.take(n as int))
        } else {
            None
        },
        None => None,
    }
}

impl ReplyBuffer {
    /// The next piece of a reply may take the buffer to `post` and lead to `r`.
    pub open spec fn takes(self, piece: Seq<u8>, expired: bool, post: Self, r: Progress) -> bool {
        if piece.len() == 0 {
            &&& post.bytes@ == self.bytes@
            &&& r matches Progress::Failed(Error::Comm(e))
            &&& e@ == "empty modbus response"@
        } else {
            match whole_frame(self.framing, self.bytes@ + piece) {
                Some(frame) => {
                    &&& post.bytes@ == Seq::<u8>::empty()
                    &&& r matches Progress::Complete(out)
                    &&& out@ == frame
                },
                None => {
                    &&& post.bytes@ == self.bytes@ + piece
                    &&& !expired ==> r is Incomplete
                    &&& expired ==> (r matches Progress::Failed(Error::Comm(e)) && e@
                        == "incomplete modbus response ("@ + decimal_text(
                        (self.bytes@ + piece).len(),
                    ) + " bytes) before deadline"@)
                },
            }
        }
    }

    /// An empty buffer.
    pub fn new(framing: Framing) -> (r: Self)
        ensures
            r.framing == framing,
            r.bytes@ == Seq::<u8>::empty(),
    {
        ReplyBuffer { framing, bytes: Vec::new() }
    }

    /// Take the next piece of the reply. `expired` says that the deadline for
    /// the whole reply has passed.
    ///
    /// An empty piece means that the stream ended. The reply is complete as
    /// soon as the bytes so far hold the frame that they announce; bytes past
    /// its end are dropped.
    pub fn accept(&mut self, piece: &[u8], expired: bool) -> (r: Progress)
        ensures
            final(self).framing == old(self).framing,
            piece@.len() == 0 ==> *final(self) == *old(self),
            old(self).takes(piece@, expired, *final(self), r),
    {
        if piece.len() == 0 {
            return Progress::Failed(Error::Comm("empty modbus response".to_owned()));
        }
        self.bytes.extend_from_slice(piece);
        let ghost all = self.bytes@;
        assert(all =~= old(self).bytes@ + piece@);
        match guess_frame_len(self.framing, self.bytes.as_slice()) {
            Some(n) => {
                let n: usize = n as usize;
                if self.bytes.len() >= n {
                    let mut frame: Vec<u8> = Vec::new();
                    std::mem::swap(&mut frame, &mut self.bytes);
                    frame.truncate(n);
                    assert(frame@ =~= all.take(n as int));
                    return Progress::Complete(frame);
                }
            },
            None => {},
        }
        if expired {
            let mut fault: String = "incomplete modbus response (".to_owned();
            append_decimal(&mut fault, self.bytes.len() as u128);
            fault.append(" bytes) before deadline");
            return Progress::Failed(Error::Comm(fault));
        }
        Progress::Incomplete
    }
}

/// How a reply is cut into pieces does not matter: once its frame is
/// complete, more bytes neither change nor extend it.
pub proof fn law_a_complete_frame_is_final(framing: Framing, bytes: Seq<u8>, more: Seq<u8>)
    ensures
        whole_frame(framing, bytes) matches Some(frame) ==> whole_frame(framing, bytes + more)
            == Some(frame),
{
    if frame_len(framing, bytes) is Some {
        let n = frame_len(framing, bytes)->Some_0;
        assert(frame_len(framing, bytes + more) == Some(n));
        if n <= bytes.len() {
            assert((bytes + more).take(n as int) =~= bytes.take(n as int));
        }
    }
}

/// The message of a reply that carries `words`.
pub open spec fn words_message(function: Function, words: Seq<u16>) -> Seq<u8> {
    seq![function.code(), (2 * words.len()) as u8] + word_bytes(words)
}

/// Words as bytes, high byte first.
pub open spec fn word_bytes(words: Seq<u16>) -> Seq<u8> {
    Seq::new(
        2 * words.len(),
        |i: int|
            if i % 2 == 0 {
                high(words[i / 2])
            } else {
                low(words[i / 2])
            },
    )
}

/// Words survive being written as bytes.
proof fn lemma_words_from_bytes(words: Seq<u16>)
    requires
        words.len() <= 0xffff,
    ensures
        data_words(word_bytes(words), words.len() as u16) == words,
{
    let data = word_bytes(words);
    assert forall|i: int| 0 <= i < words.len() implies (data[2 * i] * 256 + data[2 * i + 1]) as u16
        == #[trigger] words[i] by {
        assert((2 * i) / 2 == i && (2 * i) % 2 == 0);
        assert((2 * i + 1) / 2 == i && (2 * i + 1) % 2 == 1);
    }
    assert(data_words(data, words.len() as u16) =~= words);
}

/// [`law_a_read_reply_yields_its_words`] on a serial line.
proof fn lemma_rtu_reply(unit: u8, function: Function, words: Seq<u16>)
    requires
        function != Function::WriteHolding,
        1 <= words.len() <= 125,
    ensures
        ({
            let reply = framed(Framing::Rtu, unit, words_message(function, words));
            &&& whole_frame(Framing::Rtu, reply) == Some(reply)
            &&& reply_fault(Framing::Rtu, unit, function, reply) is None
            &&& reply_data(Framing::Rtu, reply) == word_bytes(words)
        }),
{
    let message = words_message(function, words);
    let body = seq![unit] + message;
    let reply = framed(Framing::Rtu, unit, message);
    let n = reply.len() as int;
    let data = word_bytes(words);
    assert(n == data.len() + 5);
    assert(reply[0] == unit);
    assert(reply[1] == function.code());
    assert(reply[2] == data.len());
    assert(reply.take(n - 2) =~= body);
    assert(reply[n - 2] == low(crc16(body)) && reply[n - 1] == high(crc16(body)));
    assert(reply_data(Framing::Rtu, reply) =~= data);
    assert(reply.take(n) =~= reply);
}

/// [`law_a_read_reply_yields_its_words`] on TCP.
proof fn lemma_tcp_reply(unit: u8, function: Function, words: Seq<u16>)
    requires
        function != Function::WriteHolding,
        1 <= words.len() <= 123,
    ensures
        ({
            let reply = framed(Framing::Tcp, unit, words_message(function, words));
            &&& whole_frame(Framing::Tcp, reply) == Some(reply)
            &&& reply_fault(Framing::Tcp, unit, function, reply) is None
            &&& reply_data(Framing::Tcp, reply) == word_bytes(words)
        }),
{
    let message = words_message(function, words);
    let reply = framed(Framing::Tcp, unit, message);
    let n = reply.len() as int;
    let data = word_bytes(words);
    assert(n == data.len() + 9);
    assert(reply[4] == 0 && reply[5] == data.len() + 3);
    assert(reply[6] == unit);
    assert(reply[7] == function.code());
    assert(reply[8] == data.len());
    assert(reply_data(Framing::Tcp, reply) =~= data);
    assert(reply.take(n) =~= reply);
}

/// A read gives back the words that the unit put in its reply: the reply is
/// taken as complete at its last byte, passes every check, and yields exactly
/// those words. (A frame is at most 255 bytes long, which leaves room for so
/// many words.)
pub proof fn law_a_read_reply_yields_its_words(
    framing: Framing,
    unit: u8,
    kind: RegKind,
    words: Seq<u16>,
)
    requires
        1 <= words.len() <= (match framing {
            Framing::Rtu => 125int,
            Framing::Tcp => 123int,
        }),
    ensures
        ({
            let function = Function::reading(kind);
            let reply = framed(framing, unit, words_message(function, words));
            &&& whole_frame(framing, reply) == Some(reply)
            &&& reply_fault(framing, unit, function, reply) is None
            &&& data_words(reply_data(framing, reply), words.len() as u16) == words
        }),
{
    match framing {
        Framing::Rtu => lemma_rtu_reply(unit, Function::reading(kind), words),
        Framing::Tcp => lemma_tcp_reply(unit, Function::reading(kind), words),
    }
    lemma_words_from_bytes(words);
}

/// A unit acknowledges a write by echoing the request: the echo is taken as
/// complete at its last byte and passes every check.
pub proof fn law_a_write_is_acknowledged_by_its_echo(
    framing: Framing,
    unit: u8,
    address: u16,
    value: u16,
)
    ensures
        ({
            let request = framed(framing, unit, two_words(Function::WriteHolding, address, value));
            &&& whole_frame(framing, request) == Some(request)
            &&& reply_fault(framing, unit, Function::WriteHolding, request) is None
        }),
{
    let message = two_words(Function::WriteHolding, address, value);
    let body = seq![unit] + message;
    let request = framed(framing, unit, message);
    match framing {
        Framing::Rtu => {
            assert(request.take(request.len() - 2) =~= body);
        },
        Framing::Tcp => {
            assert(request[4] == 0);
            assert(request[6] == unit);
            assert(request[7] == message[0]);
        },
    }
    assert(request.take(request.len() as int) =~= request);
}

/// A request names the unit, the function, the address and the count or value,
/// each word high byte first: function 4 reads the input table, 3 the holding
/// table, and 6 writes. On a serial line it ends with its checksum, and on TCP
/// it starts with transaction 1, protocol 0 and the length of the rest.
pub proof fn law_a_request_names_what_it_asks_for(
    framing: Framing,
    unit: u8,
    function: Function,
    first: u16,
    second: u16,
)
    ensures
        Function::reading(RegKind::Input).code() == 4,
        Function::reading(RegKind::Holding).code() == 3,
        Function::WriteHolding.code() == 6,
        ({
            let frame = framed(framing, unit, two_words(function, first, second));
            let start: int = match framing {
                Framing::Rtu => 0,
                Framing::Tcp => 6,
            };
            &&& frame[start] == unit
            &&& frame[start + 1] == function.code()
            &&& frame[start + 2] * 256 + frame[start + 3] == first
            &&& frame[start + 4] * 256 + frame[start + 5] == second
            &&& framing == Framing::Rtu ==> frame.len() == 8 && frame[6] + 256 * frame[7] == crc16(
                frame.take(6),
            )
            &&& framing == Framing::Tcp ==> frame.len() == 12 && frame[0] == 0 && frame[1] == 1
                && frame[2] == 0 && frame[3] == 0 && frame[4] * 256 + frame[5] == 6
        }),
{
    let message = two_words(function, first, second);
    let body = seq![unit] + message;
    let frame = framed(framing, unit, message);
    match framing {
        Framing::Rtu => {
            assert(frame.take(6) =~= body);
        },
        Framing::Tcp => {
            assert(body.len() == 6);
        },
    }
}

/// A reply is accepted only if its envelope is sound, it comes from the unit
/// asked, and it answers the function asked for: on a serial line it carries its
/// own checksum, and on TCP it answers transaction 1 of protocol 0.
pub proof fn law_a_foreign_reply_is_refused(
    framing: Framing,
    unit: u8,
    function: Function,
    reply: Seq<u8>,
)
    requires
        reply_fault(framing, unit, function, reply) is None,
    ensures
        framing == Framing::Rtu ==> {
            let n = reply.len() as int;
            &&& 5 <= n <= 257
            &&& reply[n - 2] + 256 * reply[n - 1] == crc16(reply.take(n - 2))
            &&& reply[0] == unit
            &&& reply[1] == function.code()
        },
        framing == Framing::Tcp ==> {
            &&& reply.len() >= 9
            &&& reply[0] == 0 && reply[1] == 1 && reply[2] == 0 && reply[3] == 0
            &&& reply[6] == unit
            &&& reply[7] == function.code()
        },
{
}

/// The words of a sound reply are the bytes of its data in pairs, high byte
/// first, as many as there are and no more than were asked for.
pub proof fn law_words_are_pairs_of_bytes(framing: Framing, reply: Seq<u8>, count: u16, i: int)
    requires
        framing == Framing::Rtu ==> reply.len() >= 5,
        framing == Framing::Tcp ==> reply.len() >= 9,
    ensures
        ({
            let words = data_words(reply_data(framing, reply), count);
            let (start, end): (int, int) = match framing {
                Framing::Rtu => (3, reply.len() - 2),
                Framing::Tcp => (9, reply.len() as int),
            };
            &&& words.len() == if (end - start) / 2 < count {
                (end - start) / 2
            } else {
                count as int
            }
            &&& 0 <= i < words.len() ==> words[i] == reply[start + 2 * i] * 256 + reply[start + 2 * i
                + 1]
        }),
{
    let data = reply_data(framing, reply);
    let words = data_words(data, count);
    if 0 <= i < words.len() {
        assert(2 * i + 1 < data.len());
        let start = body_start(framing) + 3;
        assert(data[2 * i] == reply[start + 2 * i]);
        assert(data[2 * i + 1] == reply[start + 2 * i + 1]);
    }
}

/// A frame is complete once the bytes are as many as it announces, and is then
/// the first so many of them: on a serial line five for an exception, five more
/// than the byte count of a read, and eight for a write; on TCP six more than
/// the length in the header.
pub proof fn law_a_frame_ends_where_it_says(framing: Framing, bytes: Seq<u8>)
    ensures
        whole_frame(framing, bytes) matches Some(frame) ==> frame.len() <= bytes.len() && frame
            == bytes.take(frame.len() as int),
        framing == Framing::Rtu && bytes.len() >= 3 ==> {
            &&& bytes[1] >= 0x80 ==> (whole_frame(framing, bytes) is Some <==> bytes.len() >= 5)
            &&& bytes[1] >= 0x80 ==> (whole_frame(framing, bytes) matches Some(frame) ==> frame.len()
                == 5)
            &&& 1 <= bytes[1] <= 4 && bytes[2] <= 250 ==> (whole_frame(framing, bytes) is Some
                <==> bytes.len() >= bytes[2] + 5)
            &&& 1 <= bytes[1] <= 4 && bytes[2] <= 250 ==> (whole_frame(
                framing,
                bytes,
            ) matches Some(frame) ==> frame.len() == bytes[2] + 5)
            &&& bytes[1] == 6 ==> (whole_frame(framing, bytes) is Some <==> bytes.len() >= 8)
            &&& bytes[1] == 6 ==> (whole_frame(framing, bytes) matches Some(frame) ==> frame.len()
                == 8)
        },
        framing == Framing::Rtu && bytes.len() < 3 ==> whole_frame(framing, bytes) is None,
        framing == Framing::Tcp && bytes.len() < 6 ==> whole_frame(framing, bytes) is None,
        framing == Framing::Tcp && bytes.len() >= 6 && bytes[2] == 0 && bytes[3] == 0 && bytes[4]
            == 0 && bytes[5] <= 249 ==> {
            &&& whole_frame(framing, bytes) is Some <==> bytes.len() >= bytes[5] + 6
            &&& whole_frame(framing, bytes) matches Some(frame) ==> frame.len() == bytes[5] + 6
        },
{
}

/// Asking to read names the unit, the table's function, the address and the
/// number of words, and cannot fail; asking to write names the unit, function 6,
/// the address and the value.
pub proof fn law_requests_ask_for_what_was_asked(
    framing: Framing,
    unit: u8,
    kind: RegKind,
    address: u16,
    words: u8,
    value: u16,
    r: Result<Vec<u8>, Error>,
)
    ensures
        ({
            let start: int = match framing {
                Framing::Rtu => 0,
                Framing::Tcp => 6,
            };
            &&& asks_to_read(framing, unit, kind, address, words, r) ==> {
                &&& r matches Ok(frame)
                &&& frame@[start] == unit
                &&& kind == RegKind::Input ==> frame@[start + 1] == 4
                &&& kind == RegKind::Holding ==> frame@[start + 1] == 3
                &&& frame@[start + 2] * 256 + frame@[start + 3] == address
                &&& frame@[start + 4] * 256 + frame@[start + 5] == words
            }
            &&& asks_to_write(framing, unit, address, value, r) ==> {
                &&& r matches Ok(frame)
                &&& frame@[start] == unit
                &&& frame@[start + 1] == 6
                &&& frame@[start + 2] * 256 + frame@[start + 3] == address
                &&& frame@[start + 4] * 256 + frame@[start + 5] == value
            }
        }),
{
    law_a_request_names_what_it_asks_for(
        framing,
        unit,
        Function::reading(kind),
        address,
        words as u16,
    );
    law_a_request_names_what_it_asks_for(framing, unit, Function::WriteHolding, address, value);
}

/// A reply yields words only if it is sound, comes from the unit and answers the
/// table's function; and those words are the bytes of its data in pairs.
pub proof fn law_only_the_units_words_are_taken(
    framing: Framing,
    unit: u8,
    kind: RegKind,
    address: u16,
    count: u8,
    reply: Seq<u8>,
    words: Vec<u16>,
    i: int,
)
    requires
        yields_words(framing, unit, kind, address, count, reply, Ok(words)),
        0 <= i < words@.len(),
    ensures
        words@.len() <= count,
        framing == Framing::Rtu ==> {
            let n = reply.len() as int;
            &&& reply[n - 2] + 256 * reply[n - 1] == crc16(reply.take(n - 2))
            &&& reply[0] == unit
            &&& kind == RegKind::Input ==> reply[1] == 4
            &&& kind == RegKind::Holding ==> reply[1] == 3
            &&& words@[i] == reply[3 + 2 * i] * 256 + reply[4 + 2 * i]
        },
        framing == Framing::Tcp ==> {
            &&& reply[0] == 0 && reply[1] == 1 && reply[2] == 0 && reply[3] == 0
            &&& reply[6] == unit
            &&& kind == RegKind::Input ==> reply[7] == 4
            &&& kind == RegKind::Holding ==> reply[7] == 3
            &&& words@[i] == reply[9 + 2 * i] * 256 + reply[10 + 2 * i]
        },
{
    law_a_foreign_reply_is_refused(framing, unit, Function::reading(kind), reply);
    law_words_are_pairs_of_bytes(framing, reply, count as u16, i);
}

/// A write counts as done only if the reply is sound, comes from the unit and
/// answers function 6.
pub proof fn law_only_the_units_acknowledgement_counts(
    framing: Framing,
    unit: u8,
    address: u16,
    reply: Seq<u8>,
    r: Result<(), Error>,
)
    requires
        confirms_write(framing, unit, address, reply, r),
        r is Ok,
    ensures
        framing == Framing::Rtu ==> {
            let n = reply.len() as int;
            &&& reply[n - 2] + 256 * reply[n - 1] == crc16(reply.take(n - 2))
            &&& reply[0] == unit
            &&& reply[1] == 6
        },
        framing == Framing::Tcp ==> reply[0] == 0 && reply[1] == 1 && reply[2] == 0 && reply[3] == 0
            && reply[6] == unit && reply[7] == 6,
{
    law_a_foreign_reply_is_refused(framing, unit, Function::WriteHolding, reply);
}

/// A unit's own reply is taken: a read reply that it framed yields the words in
/// it, and the echo of a write confirms it.
pub proof fn law_the_units_own_reply_is_taken(
    framing: Framing,
    unit: u8,
    kind: RegKind,
    address: u16,
    value: u16,
    words: Seq<u16>,
    r: Result<Vec<u16>, Error>,
    done: Result<(), Error>,
)
    requires
        1 <= words.len() <= (match framing {
            Framing::Rtu => 125int,
            Framing::Tcp => 123int,
        }),
    ensures
        yields_words(
            framing,
            unit,
            kind,
            address,
            words.len() as u8,
            framed(framing, unit, words_message(Function::reading(kind), words)),
            r,
        ) ==> (r matches Ok(out) && out@ == words),
        confirms_write(
            framing,
            unit,
            address,
            framed(framing, unit, two_words(Function::WriteHolding, address, value)),
            done,
        ) ==> done is Ok,
{
    law_a_read_reply_yields_its_words(framing, unit, kind, words);
    law_a_write_is_acknowledged_by_its_echo(framing, unit, address, value);
}

/// However a reply is cut into pieces, the buffer keeps them in order until they
/// hold the frame that they announce, and then gives exactly that frame; it gives
/// up only on an empty piece, or on a frame that is not complete in time.
pub proof fn law_pieces_are_put_together(
    buffer: ReplyBuffer,
    piece: Seq<u8>,
    expired: bool,
    post: ReplyBuffer,
    r: Progress,
)
    requires
        buffer.takes(piece, expired, post, r),
    ensures
        r matches Progress::Complete(frame) ==> piece.len() > 0 && frame@.len() <= buffer.bytes@.len()
            + piece.len() && frame@ == (buffer.bytes@ + piece).take(frame@.len() as int)
            && post.bytes@.len() == 0,
        r is Incomplete ==> piece.len() > 0 && !expired && post.bytes@ == buffer.bytes@ + piece
            && whole_frame(buffer.framing, buffer.bytes@ + piece) is None,
        r is Failed <==> piece.len() == 0 || expired && whole_frame(
            buffer.framing,
            buffer.bytes@ + piece,
        ) is None,
{
    law_a_frame_ends_where_it_says(buffer.framing, buffer.bytes@ + piece);
}

} // verus!
