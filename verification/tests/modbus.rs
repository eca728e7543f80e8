use fan_controller::fan_client::{
    set_set_point_frames, temperature_of, temperature_request, Setting, BAUD_RATE,
};
use fan_controller::controller::command::Fan;
use fan_controller::modbus::device;
use fan_controller::modbus::exchange::{
    check_input_registers_response, check_read_response, check_write_echo, exception_answer,
    fan_identifier, is_checksum_valid, starts_answer, unexpected_header, Answer, ExchangeError,
    ReadError, ReadException, WriteError, WriteException,
};
use fan_controller::modbus::function::{
    ReadCoils, ReadHoldingRegister, ReadInputRegisters, WriteHoldingRegister, WriteSingleCoil,
};
use fan_controller::modbus::get_message_delay;
use fan_controller::modbus::register;

#[test]
fn the_checksum_is_crc_16_modbus() {
    // The standard check value of CRC-16/MODBUS over "123456789" is 0x4B37, least significant
    // byte first on the wire
    let mut frame = b"123456789".to_vec();
    frame.extend_from_slice(&[0x37, 0x4B]);
    assert!(is_checksum_valid(&frame));
    let mut wrong = b"123456789".to_vec();
    wrong.extend_from_slice(&[0x4B, 0x37]);
    assert!(!is_checksum_valid(&wrong));
}

#[test]
fn a_holding_register_read_frame() {
    let request = ReadHoldingRegister::new(device::Address::new(2), register::Address::new(0xD001));
    assert_eq!(request.as_ref(), &[0x02, 0x03, 0xD0, 0x01, 0x00, 0x01, 0xED, 0x39]);
    assert_eq!(request.device_address().get(), 2);
    let textbook = ReadHoldingRegister::new(device::Address::new(1), register::Address::new(0));
    assert_eq!(textbook.as_ref(), &[0x01, 0x03, 0x00, 0x00, 0x00, 0x01, 0x84, 0x0A]);
}

#[test]
fn a_set_point_write_frame() {
    let request = WriteHoldingRegister::new(
        device::Address::new(2),
        register::Address::new(0xD001),
        0x7D00,
    );
    assert_eq!(request.as_ref(), &[0x02, 0x06, 0xD0, 0x01, 0x7D, 0x00, 0xC1, 0xA9]);
}

#[test]
fn an_input_registers_read_frame() {
    let request =
        ReadInputRegisters::<8>::new(device::Address::new(3), register::Address::new(0xD010));
    assert_eq!(request.as_ref(), &[0x03, 0x04, 0xD0, 0x10, 0x00, 0x08, 0xC9, 0x2B]);
}

#[test]
fn the_relay_frames() {
    let read = ReadCoils::<8>::new(device::Address::new(0xFF), register::Address::new(0));
    assert_eq!(read.as_ref(), &[0xFF, 0x01, 0x00, 0x00, 0x00, 0x08, 0x28, 0x12]);
    let close = WriteSingleCoil::new(device::Address::new(0xFF), register::Address::new(0), true);
    assert_eq!(close.as_ref(), &[0xFF, 0x05, 0x00, 0x00, 0xFF, 0x00, 0x99, 0xE4]);
}

#[test]
fn the_delay_between_frames_is_rounded_up() {
    // 32 bits at 19 200 baud are 1666.67 microseconds
    assert_eq!(get_message_delay(19_200), 1_459);
    assert_eq!(get_message_delay(1_000_000), 28);
    // A whole division is not rounded up
    assert_eq!(get_message_delay(1_000), 28_000);
}

#[test]
fn an_echo_that_repeats_the_request_is_accepted() {
    let request = [0x02, 0x06, 0xD0, 0x01, 0x7D, 0x00, 0xC1, 0xA9];
    assert_eq!(check_write_echo(&request, request), Ok(()));
    // The fan ignores the four least significant bits of a set point
    let stored = [0x02, 0x06, 0xD0, 0x01, 0x7D, 0x0F, 0x81, 0xAD];
    assert_eq!(check_write_echo(&request, stored), Ok(()));
}

#[test]
fn an_echo_with_a_broken_checksum_is_refused() {
    let request = [0x02, 0x06, 0xD0, 0x01, 0x7D, 0x00, 0xC1, 0xA9];
    let broken = [0x02, 0x06, 0xD0, 0x01, 0x7D, 0x00, 0xC1, 0xAA];
    assert_eq!(check_write_echo(&request, broken), Err(WriteError::EchoChecksum));
}

#[test]
fn an_echo_of_another_value_is_a_mismatch() {
    let request = [0x02, 0x06, 0xD0, 0x01, 0x00, 0x00, 0xE0, 0xF9];
    let other = [0x02, 0x06, 0xD0, 0x01, 0x7D, 0x00, 0xC1, 0xA9];
    assert_eq!(check_write_echo(&request, other), Err(WriteError::EchoMismatch(other)));
}

#[test]
fn a_register_read_answer_gives_its_value() {
    assert_eq!(check_read_response([0x02, 0x03, 0x02, 0x7D, 0x00, 0xDD, 0x14]), Ok(0x7D00));
    assert_eq!(
        check_read_response([0x02, 0x03, 0x02, 0x7D, 0x00, 0xDD, 0x15]),
        Err(ReadError::ContentsChecksum)
    );
    assert_eq!(
        check_read_response([0x02, 0x03, 0x04, 0x7D, 0x00, 0xDD, 0x14]),
        Err(ReadError::ByteCount(4))
    );
}

#[test]
fn input_registers_come_out_in_order() {
    let answer = [0x03, 0x04, 0x04, 0x00, 0x01, 0x00, 0x02, 0x08, 0x45];
    assert_eq!(check_input_registers_response(&answer, 2), Ok(vec![1, 2]));
    let wrong_count = [0x03, 0x04, 0x06, 0x00, 0x01, 0x00, 0x02, 0x08, 0x45];
    assert_eq!(check_input_registers_response(&wrong_count, 2), Err(ReadError::ByteCount(6)));
}

#[test]
fn an_exception_frame_gives_its_code() {
    assert_eq!(exception_answer(&[0x02, 0x86, 0x02, 0x33, 0xA1]), Ok(Answer::Exception(2)));
    assert_eq!(
        exception_answer(&[0x02, 0x86, 0x02, 0x33, 0xA2]),
        Err(ExchangeError::ExceptionChecksum)
    );
    assert_eq!(WriteException::from(2), WriteException::RegisterOutOfRange);
    assert_eq!(ReadException::from(0x42), ReadException::Unexpected(0x42));
}

#[test]
fn the_start_of_an_answer_is_recognised() {
    assert!(starts_answer(&[0x02, 0x06], 0x02, 0x06));
    assert!(starts_answer(&[0x02, 0x86], 0x02, 0x06));
    assert!(!starts_answer(&[0x03, 0x06], 0x02, 0x06));
    assert_eq!(unexpected_header([0x03, 0x06], 0x02, 0x06, "[Fan 1]"), ExchangeError::DeviceAddress(3));
    assert_eq!(unexpected_header([0x02, 0x05], 0x02, 0x06, "[Fan 1]"), ExchangeError::FunctionCode(5));
    assert_eq!(fan_identifier(2), "[Fan 1]");
    assert_eq!(fan_identifier(3), "[Fan 2]");
    assert_eq!(fan_identifier(9), "Unknown (oops)");
}

#[test]
fn the_first_client_writes_both_fans() {
    let setting = Setting::new(0x7D00).unwrap();
    let (first, second) = set_set_point_frames(&setting);
    assert_eq!(first, [0x02, 0x06, 0xD0, 0x01, 0x7D, 0x00, 0xC1, 0xA9]);
    assert_eq!(second, [0x03, 0x06, 0xD0, 0x01, 0x7D, 0x00, 0xC0, 0x78]);
    assert_eq!(temperature_request(Fan::One), [0x02, 0x04, 0xD0, 0x2E, 0x00, 0x01, 0x69, 0x30]);
    assert_eq!(temperature_of(&[0x02, 0x04, 0x02, 0x00, 0xEA, 0x00, 0x00, 0x00]), 234);
    assert!(Setting::new(64_001).is_err());
    assert_eq!(BAUD_RATE, 19_200);
}
