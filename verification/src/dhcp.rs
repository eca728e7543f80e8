//! Reading DHCP messages: the fixed BOOTP header and the options the controller understands.

use vstd::prelude::*;
use vstd::slice::slice_subrange;
use vstd::string::StringSliceAdditionalSpecFns;
use vstd::utf8::valid_utf8;

use crate::trusted::str_from_utf8;

verus! {

/// The BOOTP operation.
#[derive(Debug, Clone, Copy, PartialEq, Eq, Structural)]
pub enum MessageType {
    Request,
    Reply,
}

/// The hardware address type. Only Ethernet is read.
#[derive(Debug, Clone, Copy, PartialEq, Eq, Structural)]
pub enum HardwareAddressType {
    Ethernet,
}

/// Whether the server is asked to answer by unicast or broadcast.
#[derive(Debug, Clone, Copy, PartialEq, Eq, Structural)]
pub enum ReplyType {
    Unicast,
    Broadcast,
}

/// The DHCP message type of option 53.
#[derive(Debug, Clone, Copy, PartialEq, Eq, Structural)]
pub enum DhcpMessageType {
    Discover,
    Offer,
    Request,
    Decline,
    Acknowledge,
    NotAcknowledge,
    Release,
    Inform,
    ForceRenew,
    LeaseQuery,
    LeaseUnassigned,
    LeaseUnknown,
    LeaseActive,
}

/// Why a DHCP message could not be read.
#[derive(Debug, Clone, Copy, PartialEq, Eq, Structural)]
pub enum DecodeError {
    UnkownMessageType(u8),
    UnkownHardwareAddressType(u8),
    UnkownFlag(u8),
    /// The hardware address length is not 6
    UnsupportedHardwareAddressLength(u8),
    UnsupportedOption(u8),
    UnknownDhcpMessageType(u8),
    InvalidOptionLength { option: u8, expected: usize, actual: usize },
}

/// The DHCP message type numbered `value`, if there is one.
pub open spec fn dhcp_message_type(value: u8) -> Option<DhcpMessageType> {
    match value {
        1 => Some(DhcpMessageType::Discover),
        2 => Some(DhcpMessageType::Offer),
        3 => Some(DhcpMessageType::Request),
        4 => Some(DhcpMessageType::Decline),
        5 => Some(DhcpMessageType::Acknowledge),
        6 => Some(DhcpMessageType::NotAcknowledge),
        7 => Some(DhcpMessageType::Release),
        8 => Some(DhcpMessageType::Inform),
        9 => Some(DhcpMessageType::ForceRenew),
        10 => Some(DhcpMessageType::LeaseQuery),
        11 => Some(DhcpMessageType::LeaseUnassigned),
        12 => Some(DhcpMessageType::LeaseUnknown),
        13 => Some(DhcpMessageType::LeaseActive),
        _ => None,
    }
}

/// The number RFC 2132 (section 9.6) and RFC 4388 give each DHCP message type.
pub open spec fn message_type_number(message_type: DhcpMessageType) -> u8 {
    match message_type {
        DhcpMessageType::Discover => 1,
        DhcpMessageType::Offer => 2,
        DhcpMessageType::Request => 3,
        DhcpMessageType::Decline => 4,
        DhcpMessageType::Acknowledge => 5,
        DhcpMessageType::NotAcknowledge => 6,
        DhcpMessageType::Release => 7,
        DhcpMessageType::Inform => 8,
        DhcpMessageType::ForceRenew => 9,
        DhcpMessageType::LeaseQuery => 10,
        DhcpMessageType::LeaseUnassigned => 11,
        DhcpMessageType::LeaseUnknown => 12,
        DhcpMessageType::LeaseActive => 13,
    }
}

/// A DHCP message type byte reads as the type with that number, and as nothing else: every type
/// is read from exactly its own number, and a byte outside 1 to 13 is no type.
pub proof fn lemma_message_types_read_by_number(value: u8, message_type: DhcpMessageType)
    ensures
        dhcp_message_type(message_type_number(message_type)) == Some(message_type),
        dhcp_message_type(value) == Some(message_type) <==> value == message_type_number(message_type),
        dhcp_message_type(value) is None <==> (value == 0 || value > 13),
{
}

impl DhcpMessageType {
    /// Reads a DHCP message type, which runs from 1 to 13.
    pub fn try_from(value: u8) -> (result: Result<Self, DecodeError>)
        ensures
            match dhcp_message_type(value) {
                Some(message_type) => result == Ok::<Self, DecodeError>(message_type),
                None => result == Err::<Self, DecodeError>(DecodeError::UnknownDhcpMessageType(value)),
            },
    {
        match value {
            1 => Ok(DhcpMessageType::Discover),
            2 => Ok(DhcpMessageType::Offer),
            3 => Ok(DhcpMessageType::Request),
            4 => Ok(DhcpMessageType::Decline),
            5 => Ok(DhcpMessageType::Acknowledge),
            6 => Ok(DhcpMessageType::NotAcknowledge),
            7 => Ok(DhcpMessageType::Release),
            8 => Ok(DhcpMessageType::Inform),
            9 => Ok(DhcpMessageType::ForceRenew),
            10 => Ok(DhcpMessageType::LeaseQuery),
            11 => Ok(DhcpMessageType::LeaseUnassigned),
            12 => Ok(DhcpMessageType::LeaseUnknown),
            13 => Ok(DhcpMessageType::LeaseActive),
            other => Err(DecodeError::UnknownDhcpMessageType(other)),
        }
    }
}

/// Text where the bytes are UTF-8, the bytes themselves where they are not.
pub enum MaybeString<'a> {
    String(&'a str),
    Bytes(&'a [u8]),
}

/// What a [`MaybeString`] holds: its bytes, and whether they were read as text.
pub ghost enum MaybeStringModel {
    Text(Seq<u8>),
    Bytes(Seq<u8>),
}

impl<'a> View for MaybeString<'a> {
    type V = MaybeStringModel;

    open spec fn view(&self) -> MaybeStringModel {
        match self {
            MaybeString::String(text) => MaybeStringModel::Text(text.spec_bytes()),
            MaybeString::Bytes(bytes) => MaybeStringModel::Bytes(bytes@),
        }
    }
}

/// How the options read `bytes`: as text when they are UTF-8.
pub open spec fn text_or_bytes(bytes: Seq<u8>) -> MaybeStringModel {
    if valid_utf8(bytes) {
        MaybeStringModel::Text(bytes)
    } else {
        MaybeStringModel::Bytes(bytes)
    }
}

/// The options of a DHCP message, as far as they are read.
pub struct Options<'a> {
    /// Option 1. Not read.
    pub subnet_mask: Option<[u8; 4]>,
    /// Option 3. Not read.
    pub router: Option<[u8; 4]>,
    /// Not read.
    pub address_time: Option<u32>,
    /// Option 12
    pub host_name: Option<MaybeString<'a>>,
    /// Option 53
    pub message_type: Option<DhcpMessageType>,
    /// Option 55
    pub parameter_request_list: Option<&'a [u8]>,
    /// Option 57
    pub maximum_dhcp_message_size: Option<u16>,
    /// Option 60
    pub vendor_class_identifier: Option<MaybeString<'a>>,
    /// Option 61
    pub client_identifier: Option<&'a [u8]>,
    /// Option 80
    pub rapid_commit: Option<()>,
    /// Option 51
    pub lease_seconds: Option<u32>,
}

/// What the options of a DHCP message say, as values.
pub ghost struct OptionsModel {
    pub host_name: Option<MaybeStringModel>,
    pub message_type: Option<DhcpMessageType>,
    pub parameter_request_list: Option<Seq<u8>>,
    pub maximum_dhcp_message_size: Option<u16>,
    pub vendor_class_identifier: Option<MaybeStringModel>,
    pub client_identifier: Option<Seq<u8>>,
    pub rapid_commit: bool,
    pub lease_seconds: Option<u32>,
}

impl<'a> View for Options<'a> {
    type V = OptionsModel;

    open spec fn view(&self) -> OptionsModel {
        OptionsModel {
            host_name: match self.host_name {
                Some(name) => Some(name@),
                None => None,
            },
            message_type: self.message_type,
            parameter_request_list: match self.parameter_request_list {
                Some(list) => Some(list@),
                None => None,
            },
            maximum_dhcp_message_size: self.maximum_dhcp_message_size,
            vendor_class_identifier: match self.vendor_class_identifier {
                Some(identifier) => Some(identifier@),
                None => None,
            },
            client_identifier: match self.client_identifier {
                Some(identifier) => Some(identifier@),
                None => None,
            },
            rapid_commit: self.rapid_commit is Some,
            lease_seconds: self.lease_seconds,
        }
    }
}

/// No option read yet.
pub open spec fn no_options() -> OptionsModel {
    OptionsModel {
        host_name: None,
        message_type: None,
        parameter_request_list: None,
        maximum_dhcp_message_size: None,
        vendor_class_identifier: None,
        client_identifier: None,
        rapid_commit: false,
        lease_seconds: None,
    }
}

/// The integer of `bytes` read most significant first.
pub open spec fn big_endian(bytes: Seq<u8>) -> int
    decreases bytes.len(),
{
    if bytes.len() == 0 {
        0
    } else {
        big_endian(bytes.drop_last()) * 256 + bytes.last()
    }
}

/// Reads the options from `offset` on into `model`, as [`Packet::try_decode`] does: each is a
/// code, a length and that many bytes, until the end marker 255 or the end of the buffer. A later
/// option of the same code replaces an earlier one. `None` where reading would run past the
/// buffer.
pub open spec fn read_options(buffer: Seq<u8>, offset: int, model: OptionsModel) -> Option<
    Result<OptionsModel, DecodeError>,
>
    decreases buffer.len() - offset,
{
    if offset >= buffer.len() || offset < 0 {
        Some(Ok(model))
    } else if offset + 1 >= buffer.len() {
        None
    } else {
        let option = buffer[offset];
        let length = buffer[offset + 1] as int;
        let start = offset + 2;
        let end = start + length;
        let content = buffer.subrange(start, end);
        if end > buffer.len() {
            None
        } else if option == 12 {
            read_options(buffer, end, OptionsModel { host_name: Some(text_or_bytes(content)), ..model })
        } else if option == 51 {
            if length != 4 {
                Some(Err(DecodeError::InvalidOptionLength { option, expected: 4, actual: length as usize }))
            } else {
                read_options(buffer, end, OptionsModel { lease_seconds: Some(big_endian(content) as u32), ..model })
            }
        } else if option == 53 {
            if start >= buffer.len() {
                None
            } else {
                match dhcp_message_type(buffer[start]) {
                    None => Some(Err(DecodeError::UnknownDhcpMessageType(buffer[start]))),
                    Some(message_type) => read_options(
                        buffer,
                        end,
                        OptionsModel { message_type: Some(message_type), ..model },
                    ),
                }
            }
        } else if option == 55 {
            read_options(buffer, end, OptionsModel { parameter_request_list: Some(content), ..model })
        } else if option == 57 {
            if length != 2 {
                Some(Err(DecodeError::InvalidOptionLength { option, expected: 2, actual: length as usize }))
            } else {
                read_options(
                    buffer,
                    end,
                    OptionsModel { maximum_dhcp_message_size: Some(big_endian(content) as u16), ..model },
                )
            }
        } else if option == 60 {
            read_options(buffer, end, OptionsModel { vendor_class_identifier: Some(text_or_bytes(content)), ..model })
        } else if option == 61 {
            read_options(buffer, end, OptionsModel { client_identifier: Some(content), ..model })
        } else if option == 80 {
            read_options(buffer, end, OptionsModel { rapid_commit: true, ..model })
        } else if option == 255 {
            Some(Ok(model))
        } else {
            Some(Err(DecodeError::UnsupportedOption(option)))
        }
    }
}

/// Whether an option of this code is read and followed by the next one.
spec fn is_read_option(option: u8) -> bool {
    option == 12 || option == 51 || option == 53 || option == 55 || option == 57 || option == 60
        || option == 61 || option == 80
}

/// Whether reading the options from `offset` on stays inside the buffer, which does not depend on
/// the options read before.
spec fn options_readable(buffer: Seq<u8>, offset: int) -> bool
    decreases buffer.len() - offset,
{
    if offset >= buffer.len() || offset < 0 {
        true
    } else if offset + 1 >= buffer.len() {
        false
    } else {
        let option = buffer[offset];
        let length = buffer[offset + 1] as int;
        let start = offset + 2;
        let end = start + length;
        if end > buffer.len() {
            false
        } else if option == 51 && length != 4 || option == 57 && length != 2 {
            true
        } else if option == 53 && start >= buffer.len() {
            false
        } else if option == 53 && dhcp_message_type(buffer[start]) is None {
            true
        } else if is_read_option(option) {
            options_readable(buffer, end)
        } else {
            true
        }
    }
}

proof fn lemma_options_readable(buffer: Seq<u8>, offset: int, model: OptionsModel)
    ensures
        (read_options(buffer, offset, model) is Some) == options_readable(buffer, offset),
    decreases buffer.len() - offset,
{
    if offset >= buffer.len() || offset < 0 || offset + 1 >= buffer.len() {
    } else {
        let option = buffer[offset];
        let length = buffer[offset + 1] as int;
        let start = offset + 2;
        let end = start + length;
        let content = buffer.subrange(start, end);
        if end > buffer.len() {
        } else if option == 12 {
            lemma_options_readable(buffer, end, OptionsModel { host_name: Some(text_or_bytes(content)), ..model });
        } else if option == 51 {
            lemma_options_readable(buffer, end, OptionsModel { lease_seconds: Some(big_endian(content) as u32), ..model });
        } else if option == 53 {
            if start < buffer.len() {
                if let Some(message_type) = dhcp_message_type(buffer[start]) {
                    lemma_options_readable(buffer, end, OptionsModel { message_type: Some(message_type), ..model });
                }
            }
        } else if option == 55 {
            lemma_options_readable(buffer, end, OptionsModel { parameter_request_list: Some(content), ..model });
        } else if option == 57 {
            lemma_options_readable(
                buffer,
                end,
                OptionsModel { maximum_dhcp_message_size: Some(big_endian(content) as u16), ..model },
            );
        } else if option == 60 {
            lemma_options_readable(buffer, end, OptionsModel { vendor_class_identifier: Some(text_or_bytes(content)), ..model });
        } else if option == 61 {
            lemma_options_readable(buffer, end, OptionsModel { client_identifier: Some(content), ..model });
        } else if option == 80 {
            lemma_options_readable(buffer, end, OptionsModel { rapid_commit: true, ..model });
        }
    }
}

/// Whether [`Packet::try_decode`] can read `buffer` without running off it: see
/// [`decode_result`]. A message refused for its contents counts as readable.
pub fn is_decodable(buffer: &[u8]) -> (decodable: bool)
    ensures
        decodable == (decode_result(buffer@) is Some),
{
    if buffer.len() < 1 {
        return false;
    }
    if buffer[0] != 1 && buffer[0] != 2 {
        return true;
    }
    if buffer.len() < 2 {
        return false;
    }
    if buffer[1] != 1 {
        return true;
    }
    if buffer.len() < 3 {
        return false;
    }
    if buffer[2] != 6 {
        return true;
    }
    if buffer.len() < 11 {
        return false;
    }
    if buffer[10] != 0 && buffer[10] != 0x80 {
        return true;
    }
    if buffer.len() < OPTIONS_START {
        return false;
    }
    proof {
        lemma_options_readable(buffer@, OPTIONS_START as int, no_options());
    }
    let mut offset: usize = OPTIONS_START;
    while offset < buffer.len()
        invariant
            offset <= buffer@.len(),
            (decode_result(buffer@) is Some) == options_readable(buffer@, offset as int),
        decreases buffer@.len() - offset,
    {
        if offset + 1 >= buffer.len() {
            return false;
        }
        let option: u8 = buffer[offset];
        let length: usize = buffer[offset + 1] as usize;
        let start: usize = offset + 2;
        if length > buffer.len() - start {
            return false;
        }
        let end: usize = start + length;
        if option == 51 && length != 4 || option == 57 && length != 2 {
            return true;
        }
        if option == 53 {
            if start >= buffer.len() {
                return false;
            }
            if DhcpMessageType::try_from(buffer[start]).is_err() {
                return true;
            }
        }
        if !(option == 12 || option == 51 || option == 53 || option == 55 || option == 57 || option == 60
            || option == 61 || option == 80) {
            return true;
        }
        offset = end;
    }
    true
}

/// Where the options start: behind the 236 byte BOOTP header and the four byte magic cookie.
pub const OPTIONS_START: usize = 240;

/// What [`Packet::try_decode`] makes of `buffer`: the options it reads, or why it refuses.
/// `None` where reading would run past the buffer. The header fields themselves are stated by
/// [`Packet::try_decode`].
pub open spec fn decode_result(buffer: Seq<u8>) -> Option<Result<OptionsModel, DecodeError>> {
    if buffer.len() < 1 {
        None
    } else if buffer[0] != 1 && buffer[0] != 2 {
        Some(Err(DecodeError::UnkownMessageType(buffer[0])))
    } else if buffer.len() < 2 {
        None
    } else if buffer[1] != 1 {
        Some(Err(DecodeError::UnkownHardwareAddressType(buffer[1])))
    } else if buffer.len() < 3 {
        None
    } else if buffer[2] != 6 {
        Some(Err(DecodeError::UnsupportedHardwareAddressLength(buffer[2])))
    } else if buffer.len() < 11 {
        None
    } else if buffer[10] != 0 && buffer[10] != 0x80 {
        Some(Err(DecodeError::UnkownFlag(buffer[10])))
    } else if buffer.len() < OPTIONS_START {
        None
    } else {
        read_options(buffer, OPTIONS_START as int, no_options())
    }
}

/// A DHCP message.
pub struct Packet<'a> {
    pub option: MessageType,
    pub address_type: HardwareAddressType,
    pub hardware_address_length: u8,
    pub hops_count: u8,
    pub transaction_id: u32,
    pub seconds_elapsed: u16,
    pub flags: ReplyType,
    pub client_address: [u8; 4],
    pub your_address: [u8; 4],
    pub server_address: [u8; 4],
    pub gateway_address: [u8; 4],
    pub client_hardware_address: [u8; 6],
    pub options: Options<'a>,
}

/// The four bytes from `start` on.
fn four_bytes(buffer: &[u8], start: usize) -> (bytes: [u8; 4])
    requires
        start + 4 <= buffer@.len(),
    ensures
        bytes@ == buffer@.subrange(start as int, start + 4),
{
    let bytes = [buffer[start], buffer[start + 1], buffer[start + 2], buffer[start + 3]];
    assert(bytes@ =~= buffer@.subrange(start as int, start + 4));
    bytes
}

/// The four bytes from `start` on as an integer, most significant first.
fn big_endian_u32(buffer: &[u8], start: usize) -> (value: u32)
    requires
        start + 4 <= buffer@.len(),
    ensures
        value == big_endian(buffer@.subrange(start as int, start + 4)),
{
    let value: u32 = (buffer[start] as u32) * 0x100_0000 + (buffer[start + 1] as u32) * 0x1_0000
        + (buffer[start + 2] as u32) * 0x100 + buffer[start + 3] as u32;
    proof {
        let bytes = buffer@.subrange(start as int, start + 4);
        assert(bytes.drop_last().drop_last().drop_last().drop_last() =~= Seq::<u8>::empty());
        reveal_with_fuel(big_endian, 5);
    }
    value
}

/// The two bytes from `start` on as an integer, most significant first.
fn big_endian_u16(buffer: &[u8], start: usize) -> (value: u16)
    requires
        start + 2 <= buffer@.len(),
    ensures
        value == big_endian(buffer@.subrange(start as int, start + 2)),
{
    let value: u16 = (buffer[start] as u16) * 0x100 + buffer[start + 1] as u16;
    proof {
        let bytes = buffer@.subrange(start as int, start + 2);
        assert(bytes.drop_last().drop_last() =~= Seq::<u8>::empty());
        reveal_with_fuel(big_endian, 3);
    }
    value
}

/// Reads bytes as text when they are UTF-8.
fn text_or_raw<'a>(bytes: &'a [u8]) -> (read: MaybeString<'a>)
    ensures
        read@ == text_or_bytes(bytes@),
{
    match str_from_utf8(bytes) {
        Ok(text) => MaybeString::String(text),
        Err(_) => MaybeString::Bytes(bytes),
    }
}

impl<'a> Packet<'a> {
    /// Reads a DHCP message: the operation, Ethernet as the hardware type with a six byte address,
    /// the flags, the four addresses and the client's hardware address from the fixed header, and
    /// then the options behind the magic cookie, which is not checked.
    pub fn try_decode(buffer: &'a [u8]) -> (result: Result<Self, DecodeError>)
        requires
            decode_result(buffer@) is Some,
        ensures
            match decode_result(buffer@) {
                Some(Err(error)) => result == Err::<Self, DecodeError>(error),
                Some(Ok(options)) => result matches Ok(packet) && {
                    &&& packet.option == (if buffer@[0] == 1 { MessageType::Request } else { MessageType::Reply })
                    &&& packet.address_type == HardwareAddressType::Ethernet
                    &&& packet.hardware_address_length == 6
                    &&& packet.hops_count == buffer@[3]
                    &&& packet.transaction_id == big_endian(buffer@.subrange(4, 8))
                    &&& packet.seconds_elapsed == big_endian(buffer@.subrange(8, 10))
                    &&& packet.flags == (if buffer@[10] == 0 { ReplyType::Unicast } else { ReplyType::Broadcast })
                    &&& packet.client_address@ == buffer@.subrange(12, 16)
                    &&& packet.your_address@ == buffer@.subrange(16, 20)
                    &&& packet.server_address@ == buffer@.subrange(20, 24)
                    &&& packet.gateway_address@ == buffer@.subrange(24, 28)
                    &&& packet.client_hardware_address@ == buffer@.subrange(28, 34)
                    &&& packet.options@ == options
                    &&& packet.options.subnet_mask is None
                    &&& packet.options.router is None
                    &&& packet.options.address_time is None
                },
                None => false,
            },
    {
        let option = match buffer[0] {
            0x01 => MessageType::Request,
            0x02 => MessageType::Reply,
            other => return Err(DecodeError::UnkownMessageType(other)),
        };
        let address_type = match buffer[1] {
            0x01 => HardwareAddressType::Ethernet,
            other => return Err(DecodeError::UnkownHardwareAddressType(other)),
        };
        let hardware_address_length = buffer[2];
        if hardware_address_length != 6 {
            return Err(DecodeError::UnsupportedHardwareAddressLength(hardware_address_length));
        }
        let hops_count = buffer[3];
        let transaction_id = big_endian_u32(buffer, 4);
        let seconds_elapsed = big_endian_u16(buffer, 8);
        let flags = match buffer[10] {
            0 => ReplyType::Unicast,
            0b1000_0000 => ReplyType::Broadcast,
            other => return Err(DecodeError::UnkownFlag(other)),
        };
        let client_address = four_bytes(buffer, 12);
        let your_address = four_bytes(buffer, 16);
        let server_address = four_bytes(buffer, 20);
        let gateway_address = four_bytes(buffer, 24);
        let client_hardware_address = [
            buffer[28],
            buffer[29],
            buffer[30],
            buffer[31],
            buffer[32],
            buffer[33],
        ];
        assert(client_hardware_address@ =~= buffer@.subrange(28, 34));
        let mut options = Options {
            subnet_mask: None,
            router: None,
            address_time: None,
            host_name: None,
            message_type: None,
            parameter_request_list: None,
            maximum_dhcp_message_size: None,
            vendor_class_identifier: None,
            client_identifier: None,
            rapid_commit: None,
            lease_seconds: None,
        };
        assert(options@ =~= no_options());
        let mut offset: usize = OPTIONS_START;
        while offset < buffer.len()
            invariant_except_break
                read_options(buffer@, offset as int, options@) == decode_result(buffer@),
                decode_result(buffer@) is Some,
            invariant
                offset <= buffer@.len(),
                options.subnet_mask is None,
                options.router is None,
                options.address_time is None,
            ensures
                Some(Ok::<OptionsModel, DecodeError>(options@)) == decode_result(buffer@),
            decreases buffer@.len() - offset,
        {
            let option: u8 = buffer[offset];
            offset = offset + 1;
            let length: usize = buffer[offset] as usize;
            offset = offset + 1;
            let content = slice_subrange(buffer, offset, offset + length);
            if option == 12 {
                options.host_name = Some(text_or_raw(content));
            } else if option == 51 {
                if length != 4 {
                    return Err(DecodeError::InvalidOptionLength { option, expected: 4, actual: length });
                }
                options.lease_seconds = Some(big_endian_u32(buffer, offset));
            } else if option == 53 {
                let message_type = DhcpMessageType::try_from(buffer[offset])?;
                options.message_type = Some(message_type);
            } else if option == 55 {
                options.parameter_request_list = Some(content);
            } else if option == 57 {
                if length != 2 {
                    return Err(DecodeError::InvalidOptionLength { option, expected: 2, actual: length });
                }
                options.maximum_dhcp_message_size = Some(big_endian_u16(buffer, offset));
            } else if option == 60 {
                options.vendor_class_identifier = Some(text_or_raw(content));
            } else if option == 61 {
                options.client_identifier = Some(content);
            } else if option == 80 {
                options.rapid_commit = Some(());
            } else if option == 255 {
                break;
            } else {
                return Err(DecodeError::UnsupportedOption(option));
            }
            offset = offset + length;
        }
        Ok(
            Packet {
                option,
                address_type,
                hardware_address_length,
                hops_count,
                transaction_id,
                seconds_elapsed,
                flags,
                client_address,
                your_address,
                server_address,
                gateway_address,
                client_hardware_address,
                options,
            },
        )
    }
}

} // verus!
