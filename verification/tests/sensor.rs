use bosminer_antminer::sensor::{
    interpret_local_register, interpret_registers, make_temp, Celsius, Measurement, SensorKind,
    Temperature, STATUS_OPEN_CIRCUIT,
};

fn quarters(whole: i32, sixteenths: i32) -> Celsius {
    Celsius::from_raw(whole * 256 + sixteenths * 16)
}

#[test]
fn test_make_temp() {
    // 23.1875 degrees
    assert_eq!(make_temp(0x57, 0x30), quarters(23, 3));
    assert_eq!(make_temp(0x57, 0x30).raw, 5936);
    // 41.25 degrees
    assert_eq!(make_temp(0x69, 0x40), quarters(41, 4));
    assert_eq!(make_temp(0x40, 0), Celsius::from_degrees(0));
    assert_eq!(make_temp(0, 0), Celsius::from_degrees(-64));
    assert_eq!(make_temp(255, 255), Celsius::from_raw(191 * 256 + 255));
}

#[test]
fn test_sensor_registers() {
    // working conditions, with fractions
    assert_eq!(
        SensorKind::TMP451.read_temperature(0x00, 0x57, 0x30, 0x69, 0x40),
        Temperature {
            local: Measurement::Measured(quarters(23, 3)),
            remote: Measurement::Measured(quarters(41, 4)),
        }
    );
    // and without
    assert_eq!(
        SensorKind::ADT7461.read_temperature(0x00, 0x57, 0x30, 0x69, 0x40),
        Temperature {
            local: Measurement::Measured(Celsius::from_degrees(23)),
            remote: Measurement::Measured(Celsius::from_degrees(41)),
        }
    );
    // only the local channel
    assert_eq!(
        SensorKind::NCT218.read_temperature(0x00, 0x57, 0x30, 0x69, 0x40),
        Temperature {
            local: Measurement::Measured(Celsius::from_degrees(23)),
            remote: Measurement::NotPresent,
        }
    );
    assert_eq!(
        interpret_local_register(0x57),
        Temperature {
            local: Measurement::Measured(Celsius::from_degrees(23)),
            remote: Measurement::NotPresent,
        }
    );
}

#[test]
fn test_sensor_open_circuit() {
    assert_eq!(
        SensorKind::TMP451.read_temperature(STATUS_OPEN_CIRCUIT, 0x57, 0x30, 0x69, 0x40),
        Temperature {
            local: Measurement::Measured(quarters(23, 3)),
            remote: Measurement::OpenCircuit,
        }
    );
    assert_eq!(
        SensorKind::ADT7461.read_temperature(STATUS_OPEN_CIRCUIT, 0x57, 0x30, 0x69, 0x40),
        Temperature {
            local: Measurement::Measured(Celsius::from_degrees(23)),
            remote: Measurement::OpenCircuit,
        }
    );
    // other bits of the status do not matter
    assert_eq!(
        interpret_registers(0xfb, 0x57, 0, 0x69, 0).remote,
        Measurement::Measured(Celsius::from_degrees(41))
    );
    // an open circuit counts before a short one
    assert_eq!(
        interpret_registers(0x04, 0x57, 0, 0x00, 0).remote,
        Measurement::OpenCircuit
    );
}

#[test]
fn test_sensor_short_circuit() {
    assert_eq!(
        SensorKind::TMP451.read_temperature(0, 0x57, 0x30, 0x00, 0x00),
        Temperature {
            local: Measurement::Measured(quarters(23, 3)),
            remote: Measurement::ShortCircuit,
        }
    );
    assert_eq!(
        SensorKind::ADT7461.read_temperature(0, 0x57, 0x30, 0x00, 0x00),
        Temperature {
            local: Measurement::Measured(Celsius::from_degrees(23)),
            remote: Measurement::ShortCircuit,
        }
    );
}

#[test]
fn test_sensor_kinds() {
    assert!(SensorKind::TMP451.uses_fractions());
    assert!(!SensorKind::ADT7461.uses_fractions());
    assert!(!SensorKind::NCT218.uses_fractions());
    assert!(SensorKind::TMP451.has_remote());
    assert!(SensorKind::ADT7461.has_remote());
    assert!(!SensorKind::NCT218.has_remote());
}

#[test]
fn test_celsius() {
    assert_eq!(Celsius::from_degrees(25).raw, 6400);
    assert_eq!(Celsius::from_degrees(-1).raw, -256);
    assert_eq!(
        Celsius::from_degrees(10).max(Celsius::from_degrees(22)),
        Celsius::from_degrees(22)
    );
    assert_eq!(
        Celsius::from_degrees(22).max(Celsius::from_degrees(10)),
        Celsius::from_degrees(22)
    );
    assert_eq!(
        Celsius::from_degrees(10).plus_degrees(15),
        Celsius::from_degrees(25)
    );
    assert_eq!(
        Celsius::from_raw(i32::MAX - 1).plus_degrees(1),
        Celsius::from_raw(i32::MAX)
    );
    assert_eq!(
        Celsius::from_raw(i32::MIN + 1).plus_degrees(-1),
        Celsius::from_raw(i32::MIN)
    );
    assert!(Celsius::from_degrees(80).at_least(Celsius::from_degrees(80)));
    assert!(!Celsius::from_raw(80 * 256 - 1).at_least(Celsius::from_degrees(80)));
}

#[test]
fn test_celsius_text() {
    assert_eq!(Celsius::from_degrees(101).to_string(), "101°C");
    assert_eq!(Celsius::from_degrees(0).to_string(), "0°C");
    assert_eq!(Celsius::from_degrees(-12).to_string(), "-12°C");
    // rounded to the nearest degree, a half to the even one
    assert_eq!(Celsius::from_raw(23 * 256 + 48).to_string(), "23°C");
    assert_eq!(Celsius::from_raw(23 * 256 + 129).to_string(), "24°C");
    assert_eq!(Celsius::from_raw(23 * 256 + 128).to_string(), "24°C");
    assert_eq!(Celsius::from_raw(22 * 256 + 128).to_string(), "22°C");
    assert_eq!(Celsius::from_raw(-(22 * 256 + 128)).to_string(), "-22°C");
    assert_eq!(Celsius::from_raw(-100).to_string(), "-0°C");
    assert_eq!(Celsius::from_raw(i32::MIN).to_string(), "-8388608°C");
    assert_eq!(Celsius::from_raw(i32::MAX).to_string(), "8388608°C");
    // as the formatting of floating point numbers has it
    for raw in [5936, 32, 128, 384, 640, -129, 25000, -7777].iter() {
        let value = *raw as f32 / 256.0;
        assert_eq!(Celsius::from_raw(*raw).to_string(), format!("{:.0}°C", value));
    }
}
