//! A mock inverter whose current mode is shown on a Waveshare 4-channel relay.
use super::line::{exchanges_made, Exchange, RecordedLine};
use super::MockInverter;
pub use super::line::RelayTransport;
use crate::capabilities::Capabilities;
use crate::command::{Applied, Command};
use crate::crc::{
    crc16, crc16_modbus, law_a_frame_is_sealed_with_its_checksum, sealed, with_crc,
};
use crate::decimal::Decimal;
use crate::driver::Inverter;
use crate::error::Error;
use crate::mode::{DischargeTarget, Mode};
use crate::telemetry::Telemetry;
use crate::text::{
    append_byte_list, append_decimal, append_hex, byte_list_text, decimal_text, hex_text,
};
use crate::time::{duration_nanos, nanos_between, MAX_DURATION_NANOS};
use std::time::{Duration, Instant};
use vstd::prelude::*;

verus! {

/// Channel 1: passive.
pub const PASSIVE_MASK: u8 = 1;

/// Channel 2: force charge.
pub const CHARGE_MASK: u8 = 2;

/// Channel 3: house-only discharge.
pub const DISCHARGE_MASK: u8 = 4;

/// Channel 4: grid export.
pub const EXPORT_MASK: u8 = 8;

/// All four channels.
pub const ALL_CHANNELS_MASK: u8 = 15;

/// The function that writes coils.
pub const WRITE_COILS: u8 = 15;

/// The function that reads coils.
pub const READ_COILS: u8 = 1;

/// The channels that show a command. All off means hold.
pub open spec fn mask_of(command: Command) -> u8 {
    match (command.mode, command.target) {
        (Mode::Passive, _) => PASSIVE_MASK,
        (Mode::Hold, _) => 0,
        (Mode::ForceCharge, _) => CHARGE_MASK,
        (Mode::ForceDischarge, DischargeTarget::HouseOnly) => DISCHARGE_MASK,
        (Mode::ForceDischarge, DischargeTarget::GridExport) => EXPORT_MASK,
    }
}

/// The channels that show a command.
pub fn mask_for(command: Command) -> (r: u8)
    ensures
        r == mask_of(command),
        r <= ALL_CHANNELS_MASK,
{
    match (command.mode, command.target) {
        (Mode::Passive, _) => PASSIVE_MASK,
        (Mode::Hold, _) => 0,
        (Mode::ForceCharge, _) => CHARGE_MASK,
        (Mode::ForceDischarge, DischargeTarget::HouseOnly) => DISCHARGE_MASK,
        (Mode::ForceDischarge, DischargeTarget::GridExport) => EXPORT_MASK,
    }
}

/// Commands that differ in mode, or in where they discharge to, light
/// different channels; and never more than one.
pub proof fn law_the_indicator_tells_commands_apart(a: Command, b: Command)
    ensures
        mask_of(a) == mask_of(b) ==> a.mode == b.mode,
        mask_of(a) == mask_of(b) && a.mode == Mode::ForceDischarge ==> a.target == b.target,
        mask_of(a) == 0 <==> a.mode == Mode::Hold,
        mask_of(a) == 0 || mask_of(a) == 1 || mask_of(a) == 2 || mask_of(a) == 4 || mask_of(a) == 8,
{
}

/// The checksum that ends a frame, low byte first.
pub open spec fn trailing_crc(frame: Seq<u8>) -> u16 {
    (frame[frame.len() - 2] + 256 * frame[frame.len() - 1]) as u16
}

/// What is wrong with a response, if anything: its length, its checksum, who
/// sent it, or the function it answers, in that order.
pub open spec fn response_fault(
    frame: Seq<u8>,
    slave: u8,
    function: u8,
    expected_len: nat,
) -> Option<Seq<char>> {
    if frame.len() != expected_len {
        Some(
            "mock relay response has "@ + decimal_text(frame.len()) + " bytes, expected "@
                + decimal_text(expected_len),
        )
    } else if trailing_crc(frame) != crc16(frame.take(frame.len() - 2)) {
        Some(
            "mock relay response has CRC 0x"@ + hex_text(trailing_crc(frame) as nat, 4)
                + ", expected 0x"@ + hex_text(crc16(frame.take(frame.len() - 2)) as nat, 4),
        )
    } else if frame[0] != slave {
        Some(
            "mock relay response came from slave "@ + decimal_text(frame[0] as nat)
                + ", expected "@ + decimal_text(slave as nat),
        )
    } else if frame[1] == function | 0x80u8 {
        Some("mock relay returned Modbus exception 0x"@ + hex_text(frame[2] as nat, 2))
    } else if frame[1] != function {
        Some(
            "mock relay response used function 0x"@ + hex_text(frame[1] as nat, 2)
                + ", expected 0x"@ + hex_text(function as nat, 2),
        )
    } else {
        None
    }
}

/// Check a response's length, checksum, sender and function.
pub fn check_response(frame: &[u8], slave: u8, function: u8, expected_len: usize) -> (r: Result<
    (),
    Error,
>)
    requires
        expected_len < 2 ==> frame@.len() != expected_len,
        expected_len == 2 && frame@ == seq![0xffu8, 0xffu8] && slave == 0xff ==> function | 0x80u8
            != 0xff,
    ensures
        match response_fault(frame@, slave, function, expected_len as nat) {
            Some(text) => r matches Err(Error::Comm(fault)) && fault@ == text,
            None => r is Ok,
        },
{
    if frame.len() != expected_len {
        let mut fault: String = "mock relay response has ".to_owned();
        append_decimal(&mut fault, frame.len() as u128);
        fault.append(" bytes, expected ");
        append_decimal(&mut fault, expected_len as u128);
        return Err(Error::Comm(fault));
    }
    let data_len: usize = frame.len() - 2;
    let received_crc: u16 = frame[data_len] as u16 + 256 * frame[data_len + 1] as u16;
    let data: &[u8] = vstd::slice::slice_subrange(frame, 0, data_len);
    assert(data@ == frame@.take(frame@.len() - 2));
    let expected_crc: u16 = crc16_modbus(data);
    if received_crc != expected_crc {
        let mut fault: String = "mock relay response has CRC 0x".to_owned();
        append_hex(&mut fault, received_crc, 4);
        fault.append(", expected 0x");
        append_hex(&mut fault, expected_crc, 4);
        return Err(Error::Comm(fault));
    }
    if frame[0] != slave {
        let mut fault: String = "mock relay response came from slave ".to_owned();
        append_decimal(&mut fault, frame[0] as u128);
        fault.append(", expected ");
        append_decimal(&mut fault, slave as u128);
        return Err(Error::Comm(fault));
    }
    proof {
        if frame@.len() == 2 {
            assert(data@ == Seq::<u8>::empty());
            assert(crc16(data@) == 0xffff);
            assert(frame@ == seq![0xffu8, 0xffu8]);
        }
    }
    if frame[1] == function | 0x80u8 {
        let mut fault: String = "mock relay returned Modbus exception 0x".to_owned();
        append_hex(&mut fault, frame[2] as u16, 2);
        return Err(Error::Comm(fault));
    }
    if frame[1] != function {
        let mut fault: String = "mock relay response used function 0x".to_owned();
        append_hex(&mut fault, frame[1] as u16, 2);
        fault.append(", expected 0x");
        append_hex(&mut fault, function as u16, 2);
        return Err(Error::Comm(fault));
    }
    Ok(())
}

/// A frame that carries its own checksum, the right sender and the right
/// function passes, and one whose checksum was damaged does not.
pub proof fn law_a_sealed_response_passes(frame: Seq<u8>, slave: u8, function: u8)
    requires
        frame.len() >= 2,
        frame[0] == slave,
        frame[1] == function,
        function < 0x80,
    ensures
        response_fault(sealed(frame), slave, function, frame.len() + 2) is None,
        forall|other: Seq<u8>|
            other.len() == frame.len() + 2 && #[trigger] other.take(frame.len() as int) == frame
                && other != sealed(frame) ==> response_fault(
                other,
                slave,
                function,
                frame.len() + 2,
            ) is Some,
{
    let whole = sealed(frame);
    let n = frame.len() as int;
    assert(whole.take(n) == frame);
    assert(whole[0] == frame[0] && whole[1] == frame[1]);
    assert(function < 0x80u8 ==> function != function | 0x80u8) by (bit_vector);
    assert forall|other: Seq<u8>|
        other.len() == frame.len() + 2 && #[trigger] other.take(n) == frame && other != sealed(
            frame,
        ) implies response_fault(other, slave, function, frame.len() + 2) is Some by {
        if trailing_crc(other) == crc16(frame) {
            assert(other[n] == whole[n] && other[n + 1] == whole[n + 1]);
            assert forall|i: int| 0 <= i < other.len() implies other[i] == whole[i] by {
                if i < n {
                    assert(other.take(n)[i] == frame[i]);
                }
            }
            assert(other == whole);
        }
    }
}

/// The request that sets the four coils to `mask`.
pub open spec fn set_request(slave: u8, mask: u8) -> Seq<u8> {
    sealed(seq![slave, WRITE_COILS, 0, 0, 0, 4, 1, mask])
}

/// The answer to [`set_request`].
pub open spec fn set_answer(slave: u8) -> Seq<u8> {
    sealed(seq![slave, WRITE_COILS, 0, 0, 0, 4])
}

/// The request that reads the four coils.
pub open spec fn get_request(slave: u8) -> Seq<u8> {
    sealed(seq![slave, READ_COILS, 0, 0, 0, 4])
}

/// `r` is what `response` says to a request to set the coils.
pub open spec fn acknowledges(slave: u8, response: Seq<u8>, r: Result<(), Error>) -> bool {
    match response_fault(response, slave, WRITE_COILS, 8) {
        Some(text) => r matches Err(Error::Comm(fault)) && fault@ == text,
        None => if response == set_answer(slave) {
            r is Ok
        } else {
            r matches Err(Error::Readback(fault)) && fault@
                == "mock relay did not acknowledge coils 0..3"@
        },
    }
}

/// `r` is what `response` says of the coils.
pub open spec fn tells_mask(slave: u8, response: Seq<u8>, r: Result<u8, Error>) -> bool {
    match response_fault(response, slave, READ_COILS, 6) {
        Some(text) => r matches Err(Error::Comm(fault)) && fault@ == text,
        None => if response[2] != 1 || response[3] > ALL_CHANNELS_MASK {
            r matches Err(Error::Readback(fault)) && fault@
                == "invalid mock relay coil response: "@ + byte_list_text(response)
        } else {
            r == Ok::<u8, Error>(response[3])
        },
    }
}

/// `r` is what reading the coils back as `got` amounts to.
pub open spec fn confirms(mask: u8, got: Result<u8, Error>, r: Result<(), Error>) -> bool {
    match got {
        Ok(actual) => if actual == mask {
            r is Ok
        } else {
            r matches Err(Error::Readback(fault)) && fault@ == "mock relay mask is 0x"@ + hex_text(
                actual as nat,
                1,
            ) + ", expected 0x"@ + hex_text(mask as nat, 1)
        },
        Err(e) => r == Err::<(), Error>(e),
    }
}

/// Whether two runs of bytes are the same.
fn same_bytes(a: &[u8], b: &[u8]) -> (r: bool)
    ensures
        r == (a@ == b@),
{
    if a.len() != b.len() {
        return false;
    }
    let mut i: usize = 0;
    while i < a.len()
        invariant
            a.len() == b.len(),
            i <= a.len(),
            forall|j: int| 0 <= j < i ==> a@[j] == b@[j],
        decreases a.len() - i,
    {
        if a[i] != b[i] {
            return false;
        }
        i += 1;
    }
    assert(a@ == b@);
    true
}

/// Check the answer to a request to set the coils.
pub fn check_acknowledgement(slave: u8, response: &[u8]) -> (r: Result<(), Error>)
    ensures
        acknowledges(slave, response@, r),
{
    match check_response(response, slave, WRITE_COILS, 8) {
        Ok(()) => {},
        Err(e) => {
            return Err(e);
        },
    }
    let expected: Vec<u8> = with_crc(vec![slave, WRITE_COILS, 0, 0, 0, 4]);
    if !same_bytes(response, expected.as_slice()) {
        return Err(Error::Readback("mock relay did not acknowledge coils 0..3".to_owned()));
    }
    Ok(())
}

/// Check the answer to a request to read the coils, and pick the coils out.
pub fn coil_mask(slave: u8, response: &[u8]) -> (r: Result<u8, Error>)
    ensures
        tells_mask(slave, response@, r),
{
    match check_response(response, slave, READ_COILS, 6) {
        Ok(()) => {},
        Err(e) => {
            return Err(e);
        },
    }
    if response[2] != 1 || response[3] > ALL_CHANNELS_MASK {
        let mut fault: String = "invalid mock relay coil response: ".to_owned();
        append_byte_list(&mut fault, response);
        return Err(Error::Readback(fault));
    }
    Ok(response[3])
}

/// `exchange` asks the relay for its coils, and `r` is the answer.
pub open spec fn mask_read(slave: u8, exchange: Exchange, r: Result<u8, Error>) -> bool {
    &&& exchange.request == get_request(slave)
    &&& exchange.response_len == 6
    &&& match exchange.reply {
        Ok(response) => tells_mask(slave, response@, r),
        Err(e) => r == Err::<u8, Error>(e),
    }
}

/// `exchange` asks the relay to set its coils, and `r` is the answer.
pub open spec fn mask_written(
    slave: u8,
    mask: u8,
    exchange: Exchange,
    r: Result<(), Error>,
) -> bool {
    &&& exchange.request == set_request(slave, mask)
    &&& exchange.response_len == 8
    &&& match exchange.reply {
        Ok(response) => acknowledges(slave, response@, r),
        Err(e) => r == Err::<(), Error>(e),
    }
}

/// Setting the coils may make `exchanges` and return `r`: the relay is asked
/// to set them, and once it has acknowledged that it is asked what they are.
pub open spec fn mask_set(
    slave: u8,
    mask: u8,
    exchanges: Seq<Exchange>,
    r: Result<(), Error>,
) -> bool {
    if mask > ALL_CHANNELS_MASK {
        &&& exchanges.len() == 0
        &&& r matches Err(Error::Range(fault))
        &&& fault@ == "mock relay mask must fit four channels, got 0x"@ + hex_text(mask as nat, 2)
    } else {
        ||| exchanges.len() == 1 && r is Err && mask_written(slave, mask, exchanges[0], r)
        ||| exchanges.len() == 2 && mask_written(slave, mask, exchanges[0], Ok(()))
            && exists|got: Result<u8, Error>| #[trigger]
            mask_read(slave, exchanges[1], got) && confirms(mask, got, r)
    }
}

/// `r` is the verdict on a slave address.
pub open spec fn slave_checked(slave: u8, r: Result<(), Error>) -> bool {
    if slave == 0 {
        r matches Err(Error::Range(fault)) && fault@
            == "mock relay slave must be in the range 1..=255"@
    } else {
        r is Ok
    }
}

/// Refuse the broadcast address.
pub fn check_slave(slave: u8) -> (r: Result<(), Error>)
    ensures
        slave_checked(slave, r),
{
    if slave == 0 {
        return Err(Error::Range("mock relay slave must be in the range 1..=255".to_owned()));
    }
    Ok(())
}

/// Every address but the broadcast address is good.
pub proof fn law_only_broadcast_is_refused(slave: u8, r: Result<(), Error>)
    requires
        slave_checked(slave, r),
    ensures
        slave != 0 ==> r is Ok,
        slave == 0 ==> (r matches Err(Error::Range(_))),
{
}

/// A Waveshare Modbus RTU Relay 4CH.
pub struct WaveshareRelay<T: RelayTransport> {
    line: RecordedLine<T>,
    slave: u8,
}

impl<T: RelayTransport> WaveshareRelay<T> {
    /// The line to the relay, and its record.
    pub closed spec fn line(self) -> RecordedLine<T> {
        self.line
    }

    /// The relay's address on the line.
    pub closed spec fn slave(self) -> u8 {
        self.slave
    }

    /// The exchanges between `self` and `post`.
    pub open spec fn exchanges_until(self, post: Self) -> Seq<Exchange> {
        self.line().until(post.line())
    }

    /// `post` is the same relay, some exchanges later.
    pub open spec fn continues(self, post: Self) -> bool {
        &&& post.slave() == self.slave()
        &&& self.line().carried(self.exchanges_until(post), post.line())
    }

    /// Setting the channels to `mask` may take the relay to `post` and return `r`.
    pub open spec fn sets(self, mask: u8, post: Self, r: Result<(), Error>) -> bool {
        &&& self.continues(post)
        &&& mask_set(self.slave(), mask, self.exchanges_until(post), r)
    }

    /// Switching every channel off may take the relay to `post`, whether or not
    /// it answers.
    pub open spec fn switches_off(self, post: Self) -> bool {
        exists|shown: Result<(), Error>| #[trigger] self.sets(0, post, shown)
    }

    /// Use an open line to the relay at `slave`.
    pub fn open(transport: T, slave: u8) -> (r: Result<Self, Error>)
        ensures
            match r {
                Ok(relay) => {
                    &&& slave != 0
                    &&& relay.slave() == slave
                    &&& relay.line().faithful()
                    &&& relay.line().origin() == transport
                    &&& relay.line().log() == Seq::<Exchange>::empty()
                },
                Err(e) => slave == 0 && slave_checked(slave, Err(e)),
            },
    {
        match check_slave(slave) {
            Ok(()) => Ok(WaveshareRelay { line: RecordedLine::new(transport), slave }),
            Err(e) => Err(e),
        }
    }

    /// Use a line to a relay whose address is known to be good.
    pub fn with_transport(transport: T, slave: u8) -> (r: Self)
        ensures
            r.slave() == slave,
            r.line().faithful(),
            r.line().origin() == transport,
            r.line().log() == Seq::<Exchange>::empty(),
    {
        WaveshareRelay { line: RecordedLine::new(transport), slave }
    }

    /// Ask for the coils to be set, and check the answer.
    fn write_mask(&mut self, mask: u8) -> (r: Result<(), Error>)
        ensures
            old(self).continues(*final(self)),
            ({
                let exchanges = old(self).exchanges_until(*final(self));
                exchanges.len() == 1 && mask_written(old(self).slave(), mask, exchanges[0], r)
            }),
    {
        let request: Vec<u8> = with_crc(vec![self.slave, WRITE_COILS, 0, 0, 0, 4, 1, mask]);
        assert(request@ == set_request(self.slave, mask));
        let reply: Result<Vec<u8>, Error> = self.line.exchange(request.as_slice(), 8);
        proof {
            let made = Exchange { request: request@, response_len: 8, reply };
            assert(old(self).line().recorded(self.line(), made));
            assert(old(self).exchanges_until(*self) == seq![made]);
            assert(self.line().log() == old(self).line().log() + seq![made]);
        }
        match reply {
            Ok(response) => check_acknowledgement(self.slave, response.as_slice()),
            Err(e) => Err(e),
        }
    }

    /// Set the four channels, and verify by reading them back.
    pub fn set_mask(&mut self, mask: u8) -> (r: Result<(), Error>)
        ensures
            old(self).sets(mask, *final(self), r),
    {
        if mask > ALL_CHANNELS_MASK {
            let mut fault: String = "mock relay mask must fit four channels, got 0x".to_owned();
            append_hex(&mut fault, mask as u16, 2);
            proof {
                let none = Seq::<Exchange>::empty();
                assert(old(self).exchanges_until(*self) == none);
                assert(self.line().log() == old(self).line().log() + none);
            }
            return Err(Error::Range(fault));
        }
        match self.write_mask(mask) {
            Ok(done) => {
                assert(done == ());
            },
            Err(e) => {
                return Err(e);
            },
        }
        let ghost written: Self = *self;
        let got: Result<u8, Error> = self.read_mask();
        proof {
            let first = old(self).exchanges_until(written);
            let second = written.exchanges_until(*self);
            let both = old(self).exchanges_until(*self);
            assert(both == seq![first[0], second[0]]);
            assert(self.line().log() == old(self).line().log() + both);
            assert(mask_read(self.slave, both[1], got));
        }
        match got {
            Ok(actual) => if actual != mask {
                let mut fault: String = "mock relay mask is 0x".to_owned();
                append_hex(&mut fault, actual as u16, 1);
                fault.append(", expected 0x");
                append_hex(&mut fault, mask as u16, 1);
                Err(Error::Readback(fault))
            } else {
                Ok(())
            },
            Err(e) => Err(e),
        }
    }

    /// Read the four channels.
    pub fn read_mask(&mut self) -> (r: Result<u8, Error>)
        ensures
            old(self).continues(*final(self)),
            ({
                let exchanges = old(self).exchanges_until(*final(self));
                exchanges.len() == 1 && mask_read(old(self).slave(), exchanges[0], r)
            }),
    {
        let request: Vec<u8> = with_crc(vec![self.slave, READ_COILS, 0, 0, 0, 4]);
        assert(request@ == get_request(self.slave));
        let reply: Result<Vec<u8>, Error> = self.line.exchange(request.as_slice(), 6);
        proof {
            let made = Exchange { request: request@, response_len: 6, reply };
            assert(old(self).line().recorded(self.line(), made));
            assert(old(self).exchanges_until(*self) == seq![made]);
            assert(self.line().log() == old(self).line().log() + seq![made]);
        }
        match reply {
            Ok(response) => coil_mask(self.slave, response.as_slice()),
            Err(e) => Err(e),
        }
    }

    /// Show a command.
    pub fn show(&mut self, command: Command) -> (r: Result<(), Error>)
        ensures
            old(self).sets(mask_of(command), *final(self), r),
    {
        self.set_mask(mask_for(command))
    }
}

/// Channels that were set were acknowledged and then read back as set: the
/// last thing that the relay said is that its coils are `mask`.
pub proof fn law_set_channels_were_read_back(slave: u8, mask: u8, exchanges: Seq<Exchange>)
    requires
        mask_set(slave, mask, exchanges, Ok(())),
    ensures
        exchanges.len() == 2,
        exchanges[0].request == set_request(slave, mask),
        exchanges[1].request == get_request(slave),
        exchanges[1].reply matches Ok(response) && response@[3] == mask,
{
}

/// `mask` lights the channel of `command`: the first for passive, the second
/// for charging, the third for house-only discharge and the fourth for export;
/// none for hold.
pub open spec fn lights(command: Command, mask: u8) -> bool {
    &&& command.mode == Mode::Passive ==> mask == 1
    &&& command.mode == Mode::Hold ==> mask == 0
    &&& command.mode == Mode::ForceCharge ==> mask == 2
    &&& command.mode == Mode::ForceDischarge && command.target == DischargeTarget::HouseOnly
        ==> mask == 4
    &&& command.mode == Mode::ForceDischarge && command.target == DischargeTarget::GridExport
        ==> mask == 8
}

/// Every command lights its own channel.
pub proof fn law_each_command_has_its_channel(command: Command)
    ensures
        lights(command, mask_of(command)),
{
}

/// `frame` is `body` followed by its checksum, low byte first.
pub open spec fn carries_checksum(frame: Seq<u8>, body: Seq<u8>) -> bool {
    &&& frame.len() == body.len() + 2
    &&& frame.take(body.len() as int) == body
    &&& frame[body.len() as int] + 256 * frame[body.len() as int + 1] == crc16(body)
}

/// A response is accepted exactly when it has the length expected, carries its
/// own checksum, and comes from the slave and answers the function asked for.
pub proof fn law_a_response_is_accepted_on_its_merits(
    frame: Seq<u8>,
    slave: u8,
    function: u8,
    expected_len: nat,
)
    requires
        expected_len >= 4,
        function < 0x80,
    ensures
        response_fault(frame, slave, function, expected_len) is None <==> {
            &&& frame.len() == expected_len
            &&& carries_checksum(frame, frame.take(frame.len() - 2))
            &&& frame[0] == slave
            &&& frame[1] == function
        },
{
    assert(function < 0x80u8 ==> function != function | 0x80u8) by (bit_vector);
    if frame.len() >= 2 {
        let body = frame.take(frame.len() - 2);
        assert(frame.take(body.len() as int) == body);
    }
}

/// Setting the channels succeeds exactly when the relay answers both requests
/// as it should: four coils from the first are written with the mask, it
/// acknowledges that, and on being asked it says that they are the mask. A mask
/// of more than four channels is refused, and the relay left alone.
pub proof fn law_channels_are_set_and_verified(
    slave: u8,
    mask: u8,
    exchanges: Seq<Exchange>,
    r: Result<(), Error>,
)
    requires
        mask_set(slave, mask, exchanges, r),
    ensures
        mask > 15 ==> exchanges.len() == 0 && (r matches Err(Error::Range(_))),
        mask <= 15 ==> {
            &&& 1 <= exchanges.len() <= 2
            &&& carries_checksum(exchanges[0].request, seq![slave, 15u8, 0, 0, 0, 4, 1, mask])
            &&& exchanges[0].response_len == 8
            &&& exchanges.len() == 2 ==> carries_checksum(
                exchanges[1].request,
                seq![slave, 1u8, 0, 0, 0, 4],
            ) && exchanges[1].response_len == 6
            &&& exchanges.len() == 2 ==> answered(exchanges[0], seq![slave, 15u8, 0, 0, 0, 4])
            &&& r is Ok ==> exchanges.len() == 2 && answered(
                exchanges[1],
                seq![slave, 1u8, 1, mask],
            )
            &&& r is Err ==> !(exchanges.len() == 2 && answered(
                exchanges[1],
                seq![slave, 1u8, 1, mask],
            ))
            &&& exchanges.len() == 1 ==> r is Err && !answered(
                exchanges[0],
                seq![slave, 15u8, 0, 0, 0, 4],
            )
        },
{
    law_a_frame_is_sealed_with_its_checksum(seq![slave, 15u8, 0, 0, 0, 4, 1, mask]);
    law_a_frame_is_sealed_with_its_checksum(seq![slave, 1u8, 0, 0, 0, 4]);
    let echo = seq![slave, 15u8, 0, 0, 0, 4];
    let told = seq![slave, 1u8, 1, mask];
    law_a_frame_is_sealed_with_its_checksum(echo);
    if mask <= 15 {
        assert(exchanges[0].request == set_request(slave, mask));
        if let Ok(response) = exchanges[0].reply {
            lemma_answer_is_sealed(response@, echo);
            law_a_response_is_accepted_on_its_merits(response@, slave, 15, 8);
            if carries_checksum(response@, echo) {
                assert(response@.take(6) == echo);
                assert(response@[0] == echo[0] && response@[1] == echo[1]);
            }
        }
        if exchanges.len() == 2 {
            let got = choose|got: Result<u8, Error>| #[trigger]
                mask_read(slave, exchanges[1], got) && confirms(mask, got, r);
            if let Ok(response) = exchanges[1].reply {
                law_a_response_is_accepted_on_its_merits(response@, slave, 1, 6);
                if carries_checksum(response@, told) {
                    assert(response@.take(4) == told);
                    assert(response@[0] == told[0] && response@[1] == told[1] && response@[2]
                        == told[2] && response@[3] == told[3]);
                } else if r is Ok {
                    assert(response@.take(4) =~= told);
                }
            }
        }
    }
}

/// The relay answered `exchange` with `body` and its checksum.
pub open spec fn answered(exchange: Exchange, body: Seq<u8>) -> bool {
    exchange.reply matches Ok(response) && carries_checksum(response@, body)
}

/// A frame that carries the checksum of a body is the sealed body.
proof fn lemma_answer_is_sealed(frame: Seq<u8>, body: Seq<u8>)
    ensures
        carries_checksum(frame, body) <==> frame == sealed(body),
{
    law_a_frame_is_sealed_with_its_checksum(body);
    let whole = sealed(body);
    let n = body.len() as int;
    if carries_checksum(frame, body) {
        assert(frame[n] == whole[n] && frame[n + 1] == whole[n + 1]);
        assert forall|i: int| 0 <= i < frame.len() implies frame[i] == whole[i] by {
            if i < n {
                assert(frame.take(n)[i] == whole.take(n)[i]);
            }
        }
        assert(frame =~= whole);
    }
}

/// A [`MockInverter`] that displays its current command on a Waveshare
/// Modbus RTU Relay 4CH.
///
/// Channel 1 is passive, channel 2 force charge, channel 3 house-only
/// discharge, and channel 4 grid export. All channels off means hold. The
/// relay is an indicator only: all battery telemetry and command-expiry
/// behaviour still come from the mock.
pub struct RelayMockInverter<T: RelayTransport> {
    mock: MockInverter,
    relay: WaveshareRelay<T>,
}

/// Attaching the relay at `slave` on `transport` to `mock` may return `r`: the
/// passive channel is set and verified.
pub open spec fn attached<T: RelayTransport>(
    mock: MockInverter,
    transport: T,
    slave: u8,
    r: Result<RelayMockInverter<T>, Error>,
) -> bool {
    match r {
        Ok(inverter) => {
            &&& slave != 0
            &&& inverter.valid()
            &&& inverter.mock() == mock
            &&& inverter.relay().slave() == slave
            &&& inverter.relay().line().origin() == transport
            &&& mask_set(slave, PASSIVE_MASK, inverter.relay().line().log(), Ok(()))
        },
        Err(e) => if slave == 0 {
            slave_checked(slave, Err(e))
        } else {
            exists|exchanges: Seq<Exchange>, post: T|
                {
                    &&& #[trigger] exchanges_made(transport, exchanges, post)
                    &&& mask_set(slave, PASSIVE_MASK, exchanges, Err::<(), Error>(e))
                }
        },
    }
}

impl MockInverter {
    /// Attach a Waveshare Modbus RTU Relay 4CH mode indicator.
    ///
    /// Channel 1 is selected to show the mock's initial passive state. Each
    /// write is verified by reading all four coils back from the relay.
    pub fn with_waveshare_relay<T: RelayTransport>(self, transport: T, slave: u8) -> (r: Result<
        RelayMockInverter<T>,
        Error,
    >)
        requires
            self.valid(),
        ensures
            attached(self, transport, slave, r),
    {
        let mut relay: WaveshareRelay<T> = match WaveshareRelay::open(transport, slave) {
            Ok(relay) => relay,
            Err(e) => {
                return Err(e);
            },
        };
        let ghost fresh: WaveshareRelay<T> = relay;
        let shown: Result<(), Error> = relay.show(Command::passive());
        proof {
            let exchanges = fresh.exchanges_until(relay);
            assert(relay.line().log() == exchanges);
            assert(exchanges_made(transport, exchanges, relay.line().line()));
        }
        match shown {
            Ok(done) => {
                assert(done == ());
                Ok(RelayMockInverter { mock: self, relay })
            },
            Err(e) => Err(e),
        }
    }
}

impl<T: RelayTransport> RelayMockInverter<T> {
    /// The mock.
    pub closed spec fn mock(self) -> MockInverter {
        self.mock
    }

    /// The relay.
    pub closed spec fn relay(self) -> WaveshareRelay<T> {
        self.relay
    }

    /// Showing the command that the mock, as it is in `post`, has in force may
    /// take the relay to where it is in `post` and return `r`.
    pub open spec fn refreshes(self, post: Self, r: Result<(), Error>) -> bool {
        exists|now: Instant|
            self.relay().sets(
                mask_of(
                    post.mock().sim().command_after(
                        #[trigger] nanos_between(now, post.mock().synced_at()),
                    ),
                ),
                post.relay(),
                r,
            )
    }

    /// The relay changes nothing of what the mock advertises but the model.
    proof fn lemma_advertises_like_the_mock(self)
        ensures
            forall|caps: Capabilities| #[trigger]
                self.mock().advertises(caps) ==> self.advertises(
                    Capabilities { model: "mock + Waveshare relay", ..caps },
                ),
    {
    }

    /// Put a mock and the relay that shows it together.
    pub fn with_transport(mock: MockInverter, transport: T, slave: u8) -> (r: Self)
        requires
            mock.valid(),
        ensures
            r.valid(),
            r.mock() == mock,
            r.relay().slave() == slave,
            r.relay().line().origin() == transport,
            r.relay().line().log() == Seq::<Exchange>::empty(),
    {
        RelayMockInverter { mock, relay: WaveshareRelay::with_transport(transport, slave) }
    }

    /// Show the command in force.
    fn refresh_indicator(&mut self) -> (r: Result<(), Error>)
        requires
            old(self).valid(),
        ensures
            final(self).valid(),
            final(self).mock() == old(self).mock(),
            old(self).refreshes(*final(self), r),
    {
        let command: Command = self.mock.active_command();
        let r: Result<(), Error> = self.relay.show(command);
        proof {
            let now = choose|now: Instant|
                command == self.mock().sim().command_after(
                    #[trigger] nanos_between(now, self.mock().synced_at()),
                );
            assert(command == self.mock().sim().command_after(
                nanos_between(now, self.mock().synced_at()),
            ));
        }
        r
    }

    /// Advance simulated time and refresh the relay, without sleeping.
    pub fn advance(&mut self, elapsed: Duration) -> (r: Result<(), Error>)
        requires
            old(self).valid(),
        ensures
            final(self).valid(),
            old(self).mock().advanced(final(self).mock(), duration_nanos(elapsed)),
            old(self).refreshes(*final(self), r),
    {
        self.mock.advance(elapsed);
        let ghost mid: Self = *self;
        let r: Result<(), Error> = self.refresh_indicator();
        assert(mid.refreshes(*self, r));
        r
    }

    /// Return the mock command currently in force, including TTL expiry.
    #[must_use]
    pub fn active_command(&self) -> (r: Command)
        requires
            self.valid(),
        ensures
            self.mock().in_force(r),
            !self.mock().sim().overriding() ==> r == self.mock().sim().command,
    {
        self.mock.active_command()
    }
}

impl<T: RelayTransport> Inverter for RelayMockInverter<T> {
    open spec fn valid(&self) -> bool {
        &&& self.mock().valid()
        &&& self.relay().line().faithful()
    }

    open spec fn advertises(&self, caps: Capabilities) -> bool {
        &&& caps.model@ == "mock + Waveshare relay"@
        &&& caps.can_write
        &&& caps.modes@ == seq![Mode::Passive, Mode::Hold, Mode::ForceCharge, Mode::ForceDischarge]
        &&& caps.expiry.times_out_after(MAX_DURATION_NANOS as nat)
        &&& caps.reports_solar
        &&& caps.reports_mode
        &&& caps.write_blocked_reason is None
    }

    open spec fn reads(&self, post: &Self, r: Result<Telemetry, Error>) -> bool {
        exists|reading: Result<Telemetry, Error>, shown: Result<(), Error>|
            {
                &&& #[trigger] self.mock().reads(&post.mock(), reading)
                &&& #[trigger] self.refreshes(*post, shown)
                &&& match shown {
                    Ok(_) => r == reading,
                    Err(e) => r == Err::<Telemetry, Error>(e),
                }
            }
    }

    open spec fn applies(&self, post: &Self, command: Command, r: Result<Applied, Error>) -> bool {
        exists|applied: Result<Applied, Error>|
            {
                &&& #[trigger] self.mock().applies(&post.mock(), command, applied)
                &&& match applied {
                    Ok(_) => exists|shown: Result<(), Error>|
                        {
                            &&& #[trigger] self.relay().sets(mask_of(command), post.relay(), shown)
                            &&& match shown {
                                Ok(_) => r == applied,
                                Err(e) => r == Err::<Applied, Error>(e),
                            }
                        },
                    Err(_) => post.relay() == self.relay() && r == applied,
                }
            }
    }

    open spec fn reports(&self, post: &Self, r: Result<Mode, Error>) -> bool {
        exists|mode: Result<Mode, Error>, shown: Result<(), Error>|
            {
                &&& #[trigger] self.mock().reports(&post.mock(), mode)
                &&& #[trigger] self.refreshes(*post, shown)
                &&& match shown {
                    Ok(_) => r == mode,
                    Err(e) => r == Err::<Mode, Error>(e),
                }
            }
    }

    fn capabilities(&self) -> (r: Capabilities) {
        let mut capabilities: Capabilities = self.mock.capabilities();
        capabilities.model = "mock + Waveshare relay";
        capabilities
    }

    fn read_telemetry(&mut self) -> (r: Result<Telemetry, Error>) {
        let reading: Result<Telemetry, Error> = self.mock.read_telemetry();
        assert(old(self).mock().reads(&self.mock(), reading));
        let telemetry: Telemetry = match reading {
            Ok(telemetry) => telemetry,
            Err(e) => {
                return Err(e);
            },
        };
        let ghost mid: Self = *self;
        let shown: Result<(), Error> = self.refresh_indicator();
        assert(mid.refreshes(*self, shown));
        assert(old(self).refreshes(*self, shown));
        match shown {
            Ok(()) => Ok(telemetry),
            Err(e) => Err(e),
        }
    }

    fn apply(&mut self, command: Command) -> (r: Result<Applied, Error>) {
        let applied: Result<Applied, Error> = self.mock.apply(command);
        assert(old(self).mock().applies(&self.mock(), command, applied));
        proof {
            old(self).lemma_advertises_like_the_mock();
        }
        let accepted: Applied = match applied {
            Ok(accepted) => accepted,
            Err(e) => {
                return Err(e);
            },
        };
        let shown: Result<(), Error> = self.relay.show(command);
        assert(old(self).relay().sets(mask_of(command), self.relay(), shown));
        match shown {
            Ok(()) => Ok(accepted),
            Err(e) => Err(e),
        }
    }

    fn mode(&mut self) -> (r: Result<Mode, Error>) {
        let reported: Result<Mode, Error> = self.mock.mode();
        assert(old(self).mock().reports(&self.mock(), reported));
        proof {
            old(self).lemma_advertises_like_the_mock();
        }
        let mode: Mode = match reported {
            Ok(mode) => mode,
            Err(e) => {
                return Err(e);
            },
        };
        let ghost mid: Self = *self;
        let shown: Result<(), Error> = self.refresh_indicator();
        assert(mid.refreshes(*self, shown));
        assert(old(self).refreshes(*self, shown));
        match shown {
            Ok(()) => Ok(mode),
            Err(e) => Err(e),
        }
    }

    /// Switch every channel off. A relay that does not answer stays as it is.
    fn close(&mut self)
        ensures
            final(self).mock() == old(self).mock(),
            old(self).relay().switches_off(final(self).relay()),
    {
        let shown: Result<(), Error> = self.relay.set_mask(0);
        assert(old(self).relay().sets(0, self.relay(), shown));
        self.mock.close();
    }
}

/// A command that is accepted is in force in the mock and shown by the relay:
/// its channel was set, and read back as set.
pub proof fn law_an_accepted_command_is_shown<T: RelayTransport>(
    pre: RelayMockInverter<T>,
    post: RelayMockInverter<T>,
    command: Command,
    applied: Applied,
) -> (mask: u8)
    requires
        pre.applies(&post, command, Ok(applied)),
    ensures
        lights(command, mask),
        pre.mock().applies(&post.mock(), command, Ok(applied)),
        ({
            let slave = pre.relay().slave();
            let exchanges = pre.relay().exchanges_until(post.relay());
            &&& exchanges.len() == 2
            &&& carries_checksum(exchanges[0].request, seq![slave, 15u8, 0, 0, 0, 4, 1, mask])
            &&& carries_checksum(exchanges[1].request, seq![slave, 1u8, 0, 0, 0, 4])
            &&& answered(exchanges[1], seq![slave, 1u8, 1, mask])
        }),
{
    let r: Result<Applied, Error> = Ok(applied);
    let mask = mask_of(command);
    let done = choose|done: Result<Applied, Error>|
        {
            &&& #[trigger] pre.mock().applies(&post.mock(), command, done)
            &&& match done {
                Ok(_) => exists|shown: Result<(), Error>|
                    {
                        &&& #[trigger] pre.relay().sets(mask_of(command), post.relay(), shown)
                        &&& match shown {
                            Ok(_) => r == done,
                            Err(e) => r == Err::<Applied, Error>(e),
                        }
                    },
                Err(_) => post.relay() == pre.relay() && r == done,
            }
        };
    let shown = choose|shown: Result<(), Error>|
        {
            &&& #[trigger] pre.relay().sets(mask_of(command), post.relay(), shown)
            &&& match shown {
                Ok(_) => r == done,
                Err(e) => r == Err::<Applied, Error>(e),
            }
        };
    law_channels_are_set_and_verified(
        pre.relay().slave(),
        mask,
        pre.relay().exchanges_until(post.relay()),
        shown,
    );
    mask
}

/// A command that the mock refuses is refused, and the relay left alone.
pub proof fn law_a_refused_command_is_not_shown<T: RelayTransport>(
    pre: RelayMockInverter<T>,
    post: RelayMockInverter<T>,
    command: Command,
    r: Result<Applied, Error>,
)
    requires
        pre.applies(&post, command, r),
        (command.mode != Mode::Passive && !(command.ttl matches Some(ttl) && duration_nanos(ttl)
            > 0)) || ((command.mode == Mode::ForceCharge || command.mode == Mode::ForceDischarge)
            && !(command.power_kw matches Decimal::Finite(asked) && asked >= 0)),
    ensures
        r matches Err(Error::Range(_)),
        post.relay() == pre.relay(),
        post.mock() == pre.mock(),
{
}

/// The relay shows the command that `post` had in force at the clock reading
/// `now`: its channel was set, and read back as set.
pub open spec fn shown_at<T: RelayTransport>(
    pre: RelayMockInverter<T>,
    post: RelayMockInverter<T>,
    now: Instant,
    mask: u8,
) -> bool {
    let slave = pre.relay().slave();
    let exchanges = pre.relay().exchanges_until(post.relay());
    &&& lights(
        post.mock().sim().command_after(nanos_between(now, post.mock().synced_at())),
        mask,
    )
    &&& exchanges.len() == 2
    &&& carries_checksum(exchanges[0].request, seq![slave, 15u8, 0, 0, 0, 4, 1, mask])
    &&& carries_checksum(exchanges[1].request, seq![slave, 1u8, 0, 0, 0, 4])
    &&& answered(exchanges[1], seq![slave, 1u8, 1, mask])
}

/// A refresh that succeeds shows the command in force.
proof fn lemma_refresh_shows<T: RelayTransport>(
    pre: RelayMockInverter<T>,
    post: RelayMockInverter<T>,
    done: (),
) -> (shown: (Instant, u8))
    requires
        pre.refreshes(post, Ok(done)),
    ensures
        shown_at(pre, post, shown.0, shown.1),
{
    let ok: Result<(), Error> = Ok(done);
    let now = choose|now: Instant|
        pre.relay().sets(
            mask_of(
                post.mock().sim().command_after(
                    #[trigger] nanos_between(now, post.mock().synced_at()),
                ),
            ),
            post.relay(),
            ok,
        );
    let command = post.mock().sim().command_after(nanos_between(now, post.mock().synced_at()));
    law_each_command_has_its_channel(command);
    law_channels_are_set_and_verified(
        pre.relay().slave(),
        mask_of(command),
        pre.relay().exchanges_until(post.relay()),
        ok,
    );
    (now, mask_of(command))
}

/// A reading comes from the mock, and succeeds only once the relay shows the
/// command that is in force by then.
pub proof fn law_a_reading_refreshes_the_relay<T: RelayTransport>(
    pre: RelayMockInverter<T>,
    post: RelayMockInverter<T>,
    t: Telemetry,
) -> (shown: (Instant, u8))
    requires
        pre.reads(&post, Ok(t)),
    ensures
        pre.mock().reads(&post.mock(), Ok(t)),
        shown_at(pre, post, shown.0, shown.1),
{
    let r: Result<Telemetry, Error> = Ok(t);
    let (reading, shown) = choose|reading: Result<Telemetry, Error>, shown: Result<(), Error>|
        {
            &&& #[trigger] pre.mock().reads(&post.mock(), reading)
            &&& #[trigger] pre.refreshes(post, shown)
            &&& match shown {
                Ok(_) => r == reading,
                Err(e) => r == Err::<Telemetry, Error>(e),
            }
        };
    lemma_refresh_shows(pre, post, shown->Ok_0)
}

/// The mode comes from the mock, and is reported only once the relay shows the
/// command that is in force by then.
pub proof fn law_a_reported_mode_refreshes_the_relay<T: RelayTransport>(
    pre: RelayMockInverter<T>,
    post: RelayMockInverter<T>,
    mode: Mode,
) -> (shown: (Instant, u8))
    requires
        pre.reports(&post, Ok(mode)),
    ensures
        pre.mock().reports(&post.mock(), Ok(mode)),
        shown_at(pre, post, shown.0, shown.1),
{
    let r: Result<Mode, Error> = Ok(mode);
    let (told, shown) = choose|told: Result<Mode, Error>, shown: Result<(), Error>|
        {
            &&& #[trigger] pre.mock().reports(&post.mock(), told)
            &&& #[trigger] pre.refreshes(post, shown)
            &&& match shown {
                Ok(_) => r == told,
                Err(e) => r == Err::<Mode, Error>(e),
            }
        };
    lemma_refresh_shows(pre, post, shown->Ok_0)
}

/// A mock whose relay could be attached is the mock given, and its relay shows
/// passive: channel one was set, and read back as set. Only the broadcast
/// address, or a relay that does not answer as it should, keeps it from that.
pub proof fn law_an_attached_relay_shows_passive<T: RelayTransport>(
    mock: MockInverter,
    transport: T,
    slave: u8,
    r: Result<RelayMockInverter<T>, Error>,
)
    requires
        attached(mock, transport, slave, r),
    ensures
        slave == 0 ==> (r matches Err(Error::Range(_))),
        r matches Ok(inverter) ==> {
            let exchanges = inverter.relay().line().log();
            &&& inverter.mock() == mock
            &&& exchanges.len() == 2
            &&& carries_checksum(exchanges[0].request, seq![slave, 15u8, 0, 0, 0, 4, 1, 1])
            &&& carries_checksum(exchanges[1].request, seq![slave, 1u8, 0, 0, 0, 4])
            &&& answered(exchanges[1], seq![slave, 1u8, 1, 1])
        },
        slave != 0 && r is Err ==> exists|exchanges: Seq<Exchange>, post: T|
            #[trigger] exchanges_made(transport, exchanges, post) && 1 <= exchanges.len() <= 2 && !(
            exchanges.len() == 2 && answered(exchanges[1], seq![slave, 1u8, 1, 1])),
{
    match r {
        Ok(inverter) => {
            law_channels_are_set_and_verified(slave, 1, inverter.relay().line().log(), Ok(()));
        },
        Err(e) => if slave != 0 {
            let (exchanges, post) = choose|exchanges: Seq<Exchange>, post: T|
                {
                    &&& #[trigger] exchanges_made(transport, exchanges, post)
                    &&& mask_set(slave, PASSIVE_MASK, exchanges, Err::<(), Error>(e))
                };
            law_channels_are_set_and_verified(slave, 1, exchanges, Err(e));
        },
    }
}

/// Reading the channels asks for the four coils, and gives the mask that the
/// relay answers with, which has no more than four channels; any other answer is
/// an error.
pub proof fn law_channels_are_read(slave: u8, exchange: Exchange, mask: u8, r: Result<u8, Error>)
    requires
        mask_read(slave, exchange, r),
    ensures
        carries_checksum(exchange.request, seq![slave, 1u8, 0, 0, 0, 4]),
        exchange.response_len == 6,
        r == Ok::<u8, Error>(mask) <==> mask <= 15 && answered(
            exchange,
            seq![slave, 1u8, 1, mask],
        ),
{
    law_a_frame_is_sealed_with_its_checksum(seq![slave, 1u8, 0, 0, 0, 4]);
    if let Ok(response) = exchange.reply {
        law_a_response_is_accepted_on_its_merits(response@, slave, 1, 6);
        let told = seq![slave, 1u8, 1, mask];
        if carries_checksum(response@, told) {
            assert(response@.take(4) == told);
            assert(response@[0] == told[0] && response@[1] == told[1] && response@[2] == told[2]
                && response@[3] == told[3]);
        } else if r == Ok::<u8, Error>(mask) {
            assert(response@.take(4) =~= told);
        }
    }
}

/// Closing asks for every channel to be switched off.
pub proof fn law_closing_switches_the_channels_off<T: RelayTransport>(
    pre: WaveshareRelay<T>,
    post: WaveshareRelay<T>,
)
    requires
        pre.switches_off(post),
    ensures
        pre.exchanges_until(post).len() >= 1,
        carries_checksum(
            pre.exchanges_until(post)[0].request,
            seq![pre.slave(), 15u8, 0, 0, 0, 4, 1, 0],
        ),
{
    let shown = choose|shown: Result<(), Error>| #[trigger] pre.sets(0, post, shown);
    law_channels_are_set_and_verified(pre.slave(), 0, pre.exchanges_until(post), shown);
}

} // verus!
