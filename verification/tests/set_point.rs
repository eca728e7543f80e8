use fan_controller::configuration::parse_u16;
use fan_controller::fan_client::Setting;
use fan_controller::set_point::{ParseSetPointError, SetPoint, SetPointOutOfBoundsError, MAX};
use fan_controller::string_buffer::StringBuffer;
use fan_controller::user_setting;

#[test]
fn setting_does_not_exceed_max_set_point() {
    assert_eq!(MAX, 64_000);
    assert_eq!(SetPoint::new(64_000).map(|set_point| set_point.get()), Ok(64_000));
    assert_eq!(SetPoint::new(64_000 + 1), Err(SetPointOutOfBoundsError));
    assert_eq!(SetPoint::new(u16::MAX), Err(SetPointOutOfBoundsError));
}

#[test]
fn fits_into_string() -> Result<(), SetPointOutOfBoundsError> {
    let set_point = SetPoint::new(12_345)?;
    assert_eq!(set_point.to_string().len(), 5);

    let set_point = SetPoint::new(MAX)?;
    assert_eq!(set_point.get(), 64_000);
    assert_eq!(set_point.to_string(), "64000");

    Ok(())
}

#[test]
fn a_set_point_is_read_from_its_text() {
    assert_eq!(SetPoint::from_str("32000").map(|set_point| set_point.get()), Ok(32_000));
    assert_eq!(SetPoint::from_str("+7").map(|set_point| set_point.get()), Ok(7));
    assert_eq!(SetPoint::from_str("0").map(|set_point| set_point.get()), Ok(0));
    assert_eq!(SetPoint::from_str(""), Err(ParseSetPointError::ParseInt));
    assert_eq!(SetPoint::from_str("+"), Err(ParseSetPointError::ParseInt));
    assert_eq!(SetPoint::from_str("-1"), Err(ParseSetPointError::ParseInt));
    assert_eq!(SetPoint::from_str("12a"), Err(ParseSetPointError::ParseInt));
    assert_eq!(SetPoint::from_str("65536"), Err(ParseSetPointError::ParseInt));
    assert_eq!(
        SetPoint::from_str("64001"),
        Err(ParseSetPointError::SettingOutOfBounds(SetPointOutOfBoundsError))
    );
}

#[test]
fn a_set_point_reads_back_from_its_text() {
    for value in [0, 1, 9, 10, 99, 100, 10_666, 32_000, 63_999, 64_000] {
        let set_point = SetPoint::new(value).unwrap();
        let text = set_point.to_string();
        assert_eq!(SetPoint::from_str(text.as_str()), Ok(set_point));
    }
}

#[test]
fn the_user_settings_are_thirds_of_half_the_range() {
    assert_eq!(user_setting::LOW, 10_666);
    assert_eq!(user_setting::MEDIUM, 21_333);
    assert_eq!(user_setting::HIGH, 32_000);
    assert_eq!(user_setting::low().get(), 10_666);
    assert_eq!(user_setting::medium().get(), 21_333);
    assert_eq!(user_setting::high().get(), 32_000);
    assert_eq!(SetPoint::zero().get(), 0);
}

#[test]
fn a_string_buffer_holds_the_digits_at_its_end() {
    assert_eq!(StringBuffer::from(Setting(64_000)).as_bytes(), b"64000");
    assert_eq!(StringBuffer::from(Setting(7)).as_bytes(), b"7");
    assert_eq!(StringBuffer::from(Setting(0)).as_bytes(), b"0");
    assert_eq!(StringBuffer::from(Setting(u16::MAX)).as_bytes(), b"65535");
}

#[test]
fn the_port_is_read_as_a_number() {
    assert_eq!(parse_u16("1883"), 1_883);
    assert_eq!(parse_u16("65535"), 65_535);
    assert_eq!(parse_u16(""), 0);
}
