use thermal_camera::bus::{read_request, read_value, write_request};
use thermal_camera::error::{AcquisitionError, BusError, BusFailure, CalibrationError};

#[test]
fn write_request_sends_address_then_data() {
    assert_eq!(write_request(0x800D, 0x1901), [0x80, 0x0D, 0x19, 0x01]);
    assert_eq!(write_request(0x0000, 0xFFFF), [0x00, 0x00, 0xFF, 0xFF]);
    assert_eq!(write_request(0x1234, 0xABCD), 0x1234ABCDu32.to_be_bytes());
}

#[test]
fn read_request_sends_the_address() {
    assert_eq!(read_request(0x2410), [0x24, 0x10]);
    assert_eq!(read_request(0x8000), 0x8000u16.to_be_bytes());
}

#[test]
fn read_value_puts_the_high_byte_first() {
    assert_eq!(read_value(Ok([0x12, 0x34])), Ok(0x1234));
    assert_eq!(read_value(Ok([0xFF, 0x00])), Ok(0xFF00));
    assert_eq!(read_value(Ok([0x00, 0x01])), Ok(1));
}

#[test]
fn read_value_hands_a_failure_on() {
    let error = BusError { failure: BusFailure::Read, detail: "timed out".to_string() };
    assert_eq!(read_value(Err(error.clone())), Err(error));
}

#[test]
fn bus_error_message_names_the_failure() {
    let peripheral = BusError { failure: BusFailure::Peripheral, detail: "no bus".to_string() };
    let write = BusError { failure: BusFailure::Write, detail: "nack".to_string() };
    let read = BusError { failure: BusFailure::Read, detail: "".to_string() };
    assert_eq!(peripheral.message(), "I2C Peripheral failure\nno bus");
    assert_eq!(write.message(), "I2C Write failure\nnack");
    assert_eq!(read.message(), "I2C Read failure\n");
}

#[test]
fn other_errors_have_messages_too() {
    let read = BusError { failure: BusFailure::Read, detail: "nack".to_string() };
    assert_eq!(AcquisitionError::Bus(read.clone()).message(), "I2C Read failure\nnack");
    assert_eq!(AcquisitionError::Timeout.message(), "No new data from the sensor");
    assert_eq!(CalibrationError::Bus(read).message(), "I2C Read failure\nnack");
    assert_eq!(CalibrationError::TooManyBadPixels.message(), "More than four defective pixels");
}
