//! The checks a Modbus client makes on what comes back from a device: finding the start of the
//! answer behind stray bytes, telling an answer from an exception, and checking the echo of a
//! write or the contents of a read.

use vstd::prelude::*;

use crate::trusted::{crc16_modbus, modbus_checksum};
use super::function::{checksum_matches, EXCEPTION_MASK};

verus! {

/// How sending a request to the device failed.
#[derive(Debug, Clone, Copy, PartialEq, Eq, Structural)]
pub enum SendFailure {
    /// Writing the request timed out
    Timeout,
    /// The UART failed while writing the request
    Uart,
}

/// How receiving a run of bytes failed.
#[derive(Debug, Clone, Copy, PartialEq, Eq, Structural)]
pub enum ReceiveFailure {
    /// Waiting for the bytes timed out. This is what a silent fan looks like
    Timeout,
    /// The UART failed while reading
    Uart,
    /// The line went silent partway through
    Incomplete,
}

/// The parts of a response that every function reads the same way.
#[derive(Debug, Clone, Copy, PartialEq, Eq, Structural)]
pub enum Part {
    /// The device address and the function code
    Header,
    /// The exception code and the checksum that follow an exception header
    Exception,
}

/// The exception codes the fan documents for write single register.
#[derive(Debug, Clone, Copy, PartialEq, Eq, Structural)]
pub enum WriteException {
    /// The register address is outside the D000 ... D614 range the fan accepts
    RegisterOutOfRange,
    /// The register could not be written
    WriteRefused,
    /// A code the specification does not list for this function
    Unexpected(u8),
}

impl WriteException {
    pub open spec fn spec_from(code: u8) -> Self {
        if code == 0x02 {
            WriteException::RegisterOutOfRange
        } else if code == 0x04 {
            WriteException::WriteRefused
        } else {
            WriteException::Unexpected(code)
        }
    }

    pub fn from(code: u8) -> (exception: Self)
        ensures
            exception == Self::spec_from(code),
    {
        match code {
            0x02 => Self::RegisterOutOfRange,
            0x04 => Self::WriteRefused,
            other => Self::Unexpected(other),
        }
    }
}

/// The exception codes the fan documents for read holding register.
#[derive(Debug, Clone, Copy, PartialEq, Eq, Structural)]
pub enum ReadException {
    /// The register address is outside the D000 ... D614 range the fan accepts
    RegisterOutOfRange,
    /// More than 37 or zero registers were asked for
    ResponseTooLong,
    /// The register could not be read because the electronics are defective
    ReadRefused,
    /// A code the specification does not list for this function
    Unexpected(u8),
}

impl ReadException {
    pub open spec fn spec_from(code: u8) -> Self {
        if code == 0x02 {
            ReadException::RegisterOutOfRange
        } else if code == 0x03 {
            ReadException::ResponseTooLong
        } else if code == 0x04 {
            ReadException::ReadRefused
        } else {
            ReadException::Unexpected(code)
        }
    }

    pub fn from(code: u8) -> (exception: Self)
        ensures
            exception == Self::spec_from(code),
    {
        match code {
            0x02 => Self::RegisterOutOfRange,
            0x03 => Self::ResponseTooLong,
            0x04 => Self::ReadRefused,
            other => Self::Unexpected(other),
        }
    }
}

/// The Modbus exception code each write exception stands for: 2 is an illegal data address, 4 a
/// server device failure.
pub open spec fn write_exception_code(exception: WriteException) -> u8 {
    match exception {
        WriteException::RegisterOutOfRange => 0x02,
        WriteException::WriteRefused => 0x04,
        WriteException::Unexpected(code) => code,
    }
}

/// The Modbus exception code each read exception stands for: 2 is an illegal data address, 3 an
/// illegal data value (a count of registers out of range), 4 a server device failure.
pub open spec fn read_exception_code(exception: ReadException) -> u8 {
    match exception {
        ReadException::RegisterOutOfRange => 0x02,
        ReadException::ResponseTooLong => 0x03,
        ReadException::ReadRefused => 0x04,
        ReadException::Unexpected(code) => code,
    }
}

/// Reading an exception keeps the code it was read from: every code reads as the exception that
/// stands for it, a documented one for the codes the fan documents and `Unexpected` of the code
/// itself for every other, so two different codes never read as the same exception.
pub proof fn lemma_exceptions_keep_their_code(code: u8, other: u8)
    ensures
        read_exception_code(ReadException::spec_from(code)) == code,
        write_exception_code(WriteException::spec_from(code)) == code,
        code != other ==> ReadException::spec_from(code) != ReadException::spec_from(other),
        code != other ==> WriteException::spec_from(code) != WriteException::spec_from(other),
        !(ReadException::spec_from(code) is Unexpected) <==> (code == 0x02 || code == 0x03 || code == 0x04),
        !(WriteException::spec_from(code) is Unexpected) <==> (code == 0x02 || code == 0x04),
{
}

/// What the device is answering with.
#[derive(Debug, Clone, Copy, PartialEq, Eq, Structural)]
pub enum Answer {
    /// The answer to the function that was requested. Its body follows the header
    Requested,
    /// The device refused, with this exception code
    Exception(u8),
}

/// A failure in the part of a transaction that is the same whatever function was used.
#[derive(Debug, Clone, Copy, PartialEq, Eq, Structural)]
pub enum ExchangeError {
    /// Sending the request failed
    Request(SendFailure),
    /// Receiving this part of the response failed
    Response(Part, ReceiveFailure),
    /// Another device answered. Holds the address it claims to come from
    DeviceAddress(u8),
    /// The answer was to a different function than the request. Holds its function code
    FunctionCode(u8),
    /// The checksum of the exception frame does not match its contents
    ExceptionChecksum,
}

/// Writing a holding register failed.
#[derive(Debug, Clone, Copy, PartialEq, Eq)]
pub enum WriteError {
    /// Failed before the echo was reached
    Exchange(ExchangeError),
    /// The fan refused the write with a modbus exception
    Exception(WriteException),
    /// Receiving the echoed register, value and checksum failed
    Echo(ReceiveFailure),
    /// The checksum of the echo does not match its contents
    EchoChecksum,
    /// The echo does not repeat the request. Holds the whole frame that arrived
    EchoMismatch([u8; 8]),
}

/// Reading registers failed.
#[derive(Debug, Clone, Copy, PartialEq, Eq, Structural)]
pub enum ReadError {
    /// Failed before the register contents were reached
    Exchange(ExchangeError),
    /// The fan refused the read with a modbus exception
    Exception(ReadException),
    /// Receiving the byte count, the register contents and the checksum failed
    Contents(ReceiveFailure),
    /// The checksum of the answer does not match its contents
    ContentsChecksum,
    /// The answer announced a different number of data bytes than were asked for
    ByteCount(u8),
}

impl From<ExchangeError> for WriteError {
    fn from(error: ExchangeError) -> (write_error: Self) {
        WriteError::Exchange(error)
    }
}

impl vstd::std_specs::convert::FromSpecImpl<ExchangeError> for WriteError {
    open spec fn obeys_from_spec() -> bool {
        true
    }

    open spec fn from_spec(error: ExchangeError) -> Self {
        WriteError::Exchange(error)
    }
}

impl From<ExchangeError> for ReadError {
    fn from(error: ExchangeError) -> (read_error: Self) {
        ReadError::Exchange(error)
    }
}

impl vstd::std_specs::convert::FromSpecImpl<ExchangeError> for ReadError {
    open spec fn obeys_from_spec() -> bool {
        true
    }

    open spec fn from_spec(error: ExchangeError) -> Self {
        ReadError::Exchange(error)
    }
}

/// The device address and the function code, which every response starts with.
pub const HEADER_LENGTH: usize = 2;
/// The fan ignores the four least significant bits of a set point.
pub const IGNORED_SET_POINT_BITS: u16 = 0x000F;
/// A successful write echoes the request back.
pub const WRITE_RESPONSE_LENGTH: usize = 8;
/// A successful read of one holding register: header, byte count, two data bytes, checksum.
pub const READ_RESPONSE_LENGTH: usize = 7;
/// How many data bytes the read of a single register has to announce.
pub const READ_BYTE_COUNT: u8 = 2;
/// What a read response carries around its data bytes: header, byte count and checksum.
pub const READ_OVERHEAD_LENGTH: usize = 5;
/// The longest answer to a read of input registers.
pub const MAX_INPUT_REGISTERS_RESPONSE_LENGTH: usize = 79;
/// An exception response: header, exception code, checksum.
pub const EXCEPTION_RESPONSE_LENGTH: usize = 5;
/// How many bytes that cannot begin the answer are stepped over before giving up. The fan's own
/// maximum telegram length, so a whole spurious frame or a greeting can be stepped over.
pub const MAX_STRAY_BYTES: usize = 80;

/// Which of the two fans a device address belongs to, for the log.
pub fn fan_identifier(device_address: u8) -> (identifier: &'static str)
    ensures
        device_address == 2 ==> identifier@ == "[Fan 1]"@,
        device_address == 3 ==> identifier@ == "[Fan 2]"@,
        device_address != 2 && device_address != 3 ==> identifier@ == "Unknown (oops)"@,
{
    match device_address {
        2 => "[Fan 1]",
        3 => "[Fan 2]",
        _other => "Unknown (oops)",
    }
}

/// Whether two bytes can begin the answer to a request: the device's address, and the function
/// code or its exception form.
pub open spec fn can_start_answer(first: u8, second: u8, device_address: u8, function_code: u8) -> bool {
    first == device_address && (second == function_code || second == function_code | EXCEPTION_MASK)
}

/// Whether this two byte window can begin the answer to the request that was sent.
pub fn starts_answer(window: &[u8], device_address: u8, function_code: u8) -> (starts: bool)
    requires
        window@.len() >= 2,
    ensures
        starts == can_start_answer(window@[0], window@[1], device_address, function_code),
{
    window[0] == device_address && (window[1] == function_code || window[1] == function_code
        | EXCEPTION_MASK)
}

/// What a header that never appeared is reported as: the address, if it was not the device's,
/// and otherwise the function code.
pub open spec fn spec_unexpected_header(seen: [u8; 2], device_address: u8) -> ExchangeError {
    if seen[0] != device_address {
        ExchangeError::DeviceAddress(seen[0])
    } else {
        ExchangeError::FunctionCode(seen[1])
    }
}

/// What to report about a header that never appeared: what the first two bytes said.
pub fn unexpected_header(
    seen: [u8; 2],
    device_address: u8,
    function_code: u8,
    fan_identifier: &str,
) -> (error: ExchangeError)
    ensures
        error == spec_unexpected_header(seen, device_address),
{
    if seen[0] != device_address {
        return ExchangeError::DeviceAddress(seen[0]);
    }
    ExchangeError::FunctionCode(seen[1])
}

/// Whether the last two bytes of `frame` are the CRC of the rest, least significant byte first.
pub fn is_checksum_valid(frame: &[u8]) -> (valid: bool)
    requires
        frame@.len() >= 2,
    ensures
        valid == checksum_matches(frame@),
{
    let (data, checksum) = frame.split_at(frame.len() - 2);
    let expected = modbus_checksum(data);
    checksum[0] == (expected % 256) as u8 && checksum[1] == (expected / 256) as u8
}

/// What the search for the start of an answer decides next.
#[derive(Debug, Clone, Copy, PartialEq, Eq, Structural)]
pub enum SearchStep {
    /// The window can begin the answer.
    Found,
    /// [`MAX_STRAY_BYTES`] were stepped over without finding it.
    GiveUp(ExchangeError),
    /// Receive one more byte, within a short wait, and shift it in.
    NeedByte,
}

/// Sliding a two byte window forward over what the line delivers until it can begin the answer.
/// A device may greet the line or noise may precede a frame, so the first two bytes are not always
/// the header. What they were is kept for the error, which names what arrived rather than where the
/// search stopped.
pub struct AnswerSearch {
    seen: [u8; 2],
    window: [u8; 2],
    stepped_over: usize,
}

impl AnswerSearch {
    /// The first two bytes that arrived.
    pub closed spec fn first_seen(&self) -> [u8; 2] {
        self.seen
    }

    /// The two bytes under consideration.
    pub closed spec fn current_window(&self) -> [u8; 2] {
        self.window
    }

    /// How many bytes have been stepped over.
    pub closed spec fn steps(&self) -> nat {
        self.stepped_over as nat
    }

    /// Starts with the first two bytes of the response as the window.
    pub fn new(header: [u8; 2]) -> (search: Self)
        ensures
            search.first_seen() == header,
            search.current_window() == header,
            search.steps() == 0,
    {
        AnswerSearch { seen: header, window: header, stepped_over: 0 }
    }

    /// Found once the window can begin the answer; gives up naming the first two bytes once
    /// [`MAX_STRAY_BYTES`] have been stepped over; otherwise asks for another byte.
    pub fn step(&self, device_address: u8, function_code: u8) -> (step: SearchStep)
        requires
            self.steps() <= MAX_STRAY_BYTES,
        ensures
            can_start_answer(self.current_window()[0], self.current_window()[1], device_address, function_code)
                ==> step == SearchStep::Found,
            !can_start_answer(self.current_window()[0], self.current_window()[1], device_address, function_code)
                && self.steps() == MAX_STRAY_BYTES ==> step == SearchStep::GiveUp(
                spec_unexpected_header(self.first_seen(), device_address),
            ),
            !can_start_answer(self.current_window()[0], self.current_window()[1], device_address, function_code)
                && self.steps() < MAX_STRAY_BYTES ==> step == SearchStep::NeedByte,
    {
        if starts_answer(self.window.as_slice(), device_address, function_code) {
            SearchStep::Found
        } else if self.stepped_over == MAX_STRAY_BYTES {
            SearchStep::GiveUp(unexpected_header(self.seen, device_address, function_code, ""))
        } else {
            SearchStep::NeedByte
        }
    }

    /// Drops the older byte of the window and takes `byte` in behind the newer one.
    pub fn shift_in(&mut self, byte: u8)
        requires
            old(self).steps() < MAX_STRAY_BYTES,
        ensures
            final(self).current_window() == [old(self).current_window()[1], byte],
            final(self).first_seen() == old(self).first_seen(),
            final(self).steps() == old(self).steps() + 1,
    {
        self.window = [self.window[1], byte];
        self.stepped_over = self.stepped_over + 1;
    }

    /// What to report when the line goes quiet before the answer was found.
    pub fn missing_byte(&self, device_address: u8) -> (error: ExchangeError)
        ensures
            error == spec_unexpected_header(self.first_seen(), device_address),
    {
        unexpected_header(self.seen, device_address, 0, "")
    }

    /// The bytes under consideration, which begin the answer once the search has found it.
    pub fn window(&self) -> (window: [u8; 2])
        ensures
            window == self.current_window(),
    {
        self.window
    }

    /// How many bytes were stepped over.
    pub fn stepped_over(&self) -> (count: usize)
        ensures
            count == self.steps(),
    {
        self.stepped_over
    }
}

/// Whether a found header is the exception form of the function code.
pub fn is_exception_header(header: [u8; 2], function_code: u8) -> (is_exception: bool)
    ensures
        is_exception == (header[1] == function_code | EXCEPTION_MASK),
{
    header[1] == function_code | EXCEPTION_MASK
}

/// Reads a whole exception frame: its code, when its checksum holds.
pub fn exception_answer(frame: &[u8]) -> (result: Result<Answer, ExchangeError>)
    requires
        frame@.len() == EXCEPTION_RESPONSE_LENGTH,
    ensures
        checksum_matches(frame@) ==> result == Ok::<Answer, ExchangeError>(Answer::Exception(frame@[2])),
        !checksum_matches(frame@) ==> result == Err::<Answer, ExchangeError>(
            ExchangeError::ExceptionChecksum,
        ),
{
    if !is_checksum_valid(frame) {
        return Err(ExchangeError::ExceptionChecksum);
    }
    Ok(Answer::Exception(frame[2]))
}

/// The 16 bit value of two bytes, most significant first.
pub open spec fn be_u16(high: u8, low: u8) -> int {
    high as int * 256 + low
}

/// What [`check_write_echo`] decides about an echo.
pub open spec fn write_echo_result(request: Seq<u8>, response: [u8; 8]) -> Result<(), WriteError> {
    let r = response@;
    if !checksum_matches(r) {
        Err(WriteError::EchoChecksum)
    } else if be_u16(r[2], r[3]) != be_u16(request[2], request[3]) || be_u16(r[4], r[5]) / 16
        != be_u16(request[4], request[5]) / 16 {
        Err(WriteError::EchoMismatch(response))
    } else {
        Ok(())
    }
}

/// Checks the echo of a write holding register request.
///
/// The register has to match exactly. The fan ignores the four least significant bits of a set
/// point and may echo either the value it received or the one it stored, so those bits are left
/// out of the comparison of the value; the checksum still catches a corrupted frame.
pub fn check_write_echo(request: &[u8], response: [u8; 8]) -> (result: Result<(), WriteError>)
    requires
        request@.len() == WRITE_RESPONSE_LENGTH,
    ensures
        result == write_echo_result(request@, response),
{
    if !is_checksum_valid(response.as_slice()) {
        return Err(WriteError::EchoChecksum);
    }
    let echoed_register = (response[2] as u16) * 256 + response[3] as u16;
    let requested_register = (request[2] as u16) * 256 + request[3] as u16;
    let echoed_value = (response[4] as u16) * 256 + response[5] as u16;
    let requested_value = (request[4] as u16) * 256 + request[5] as u16;
    assert(forall|a: u16, b: u16| (a & !IGNORED_SET_POINT_BITS == b & !IGNORED_SET_POINT_BITS) == (a
        / 16 == b / 16)) by (bit_vector);
    if echoed_register != requested_register || echoed_value & !IGNORED_SET_POINT_BITS
        != requested_value & !IGNORED_SET_POINT_BITS {
        return Err(WriteError::EchoMismatch(response));
    }
    Ok(())
}

/// What [`check_read_response`] decides about the answer to a read of one register.
pub open spec fn read_response_result(response: [u8; 7]) -> Result<u16, ReadError> {
    let r = response@;
    if r[2] != READ_BYTE_COUNT {
        Err(ReadError::ByteCount(r[2]))
    } else if !checksum_matches(r) {
        Err(ReadError::ContentsChecksum)
    } else {
        Ok(be_u16(r[3], r[4]) as u16)
    }
}

/// Checks the answer to a read of one holding register and takes its value. The byte count is
/// checked before the checksum, because a different count means a frame of a different length was
/// read, which the checksum would misreport.
pub fn check_read_response(response: [u8; 7]) -> (result: Result<u16, ReadError>)
    ensures
        result == read_response_result(response),
{
    if response[2] != READ_BYTE_COUNT {
        return Err(ReadError::ByteCount(response[2]));
    }
    if !is_checksum_valid(response.as_slice()) {
        return Err(ReadError::ContentsChecksum);
    }
    Ok((response[3] as u16) * 256 + response[4] as u16)
}

/// The registers carried by the answer to a read of `count` input registers.
pub open spec fn registers_of(response: Seq<u8>, count: nat) -> Seq<u16> {
    Seq::new(count, |index: int| be_u16(response[3 + 2 * index], response[4 + 2 * index]) as u16)
}

/// What [`check_input_registers_response`] decides about the answer to a read of `count` input
/// registers.
pub open spec fn input_registers_result(response: Seq<u8>, count: nat) -> Result<Seq<u16>, ReadError> {
    if response[2] != 2 * count {
        Err(ReadError::ByteCount(response[2]))
    } else if !checksum_matches(response) {
        Err(ReadError::ContentsChecksum)
    } else {
        Ok(registers_of(response, count))
    }
}

/// Checks the answer to a read of `count` input registers and takes the registers out of it, in
/// order. The byte count is checked before the checksum, as for a single register.
pub fn check_input_registers_response(response: &[u8], count: usize) -> (result: Result<Vec<u16>, ReadError>)
    requires
        1 <= count <= super::function::MAX_COUNT,
        response@.len() == READ_OVERHEAD_LENGTH + 2 * count,
    ensures
        match input_registers_result(response@, count as nat) {
            Ok(registers) => result matches Ok(found) && found@ == registers,
            Err(error) => result == Err::<Vec<u16>, ReadError>(error),
        },
{
    let expected_byte_count = (2 * count) as u8;
    if response[2] != expected_byte_count {
        return Err(ReadError::ByteCount(response[2]));
    }
    if !is_checksum_valid(response) {
        return Err(ReadError::ContentsChecksum);
    }
    let mut registers: Vec<u16> = Vec::new();
    let mut index: usize = 0;
    while index < count
        invariant
            index <= count,
            count <= 37,
            response@.len() == 5 + 2 * count,
            registers@ == registers_of(response@, count as nat).subrange(0, index as int),
        decreases count - index,
    {
        let offset = HEADER_LENGTH + 1 + 2 * index;
        registers.push((response[offset] as u16) * 256 + response[offset + 1] as u16);
        index = index + 1;
        assert(registers@ =~= registers_of(response@, count as nat).subrange(0, index as int));
    }
    assert(registers@ =~= registers_of(response@, count as nat));
    Ok(registers)
}

} // verus!
