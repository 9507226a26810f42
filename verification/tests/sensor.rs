use mpu6050_async_driver::decode::i16_from_be;
use mpu6050_async_driver::mpu6050::{
    accel_read, axes_from_bytes, dlpf_write, gyro_read, identity_read, is_expected_device_id,
    motion_from_bytes, motion_read, sample_rate_write, temperature_from_bytes, temperature_read,
    wake_write, AccelRange, Address, Dlpf, GyroRange, I2cBus, ReadRequest, RegisterWrite,
    SampleRateDivider, SensorScale, SetupAction, SetupStage, EXPECTED_DEVICE_ID,
    REG_ACCEL_CONFIG, REG_GYRO_CONFIG,
};

#[test]
fn decoding_matches_std_for_every_byte_pair() {
    for hi in 0..=255u8 {
        for lo in 0..=255u8 {
            assert_eq!(i16_from_be(hi, lo), i16::from_be_bytes([hi, lo]));
        }
    }
}

#[test]
fn decoding_round_trips_through_std_encoding() {
    for v in [i16::MIN, -1, 0, 1, 255, 256, -256, 12345, i16::MAX] {
        let [hi, lo] = v.to_be_bytes();
        assert_eq!(i16_from_be(hi, lo), v);
    }
}

#[test]
fn axes_decode_in_order() {
    let buf = [0x01, 0x02, 0xFF, 0xFE, 0x80, 0x00];
    assert_eq!(axes_from_bytes(&buf), (0x0102, -2, i16::MIN));
}

#[test]
fn temperature_decodes() {
    assert_eq!(temperature_from_bytes(&[0xF2, 0x00]), -3584);
    assert_eq!(temperature_from_bytes(&[0x00, 0x00]), 0);
}

#[test]
fn motion_burst_layout() {
    let buf = [
        0x10, 0x00, 0x00, 0x20, 0xFF, 0xFF, // accel
        0x01, 0x54, // temperature
        0x00, 0x83, 0xFF, 0x7D, 0x7F, 0xFF, // gyro
    ];
    let m = motion_from_bytes(&buf);
    assert_eq!(m.accel, (4096, 32, -1));
    assert_eq!(m.temperature, 340);
    assert_eq!(m.gyro, (131, -131, 32767));
    let mut accel = [0u8; 6];
    accel.copy_from_slice(&buf[0..6]);
    let mut gyro = [0u8; 6];
    gyro.copy_from_slice(&buf[8..14]);
    assert_eq!(axes_from_bytes(&accel), m.accel);
    assert_eq!(axes_from_bytes(&gyro), m.gyro);
}

#[test]
fn range_register_values() {
    assert_eq!(AccelRange::G2.as_u8(), 0x00);
    assert_eq!(AccelRange::G4.as_u8(), 0x08);
    assert_eq!(AccelRange::G8.as_u8(), 0x10);
    assert_eq!(AccelRange::G16.as_u8(), 0x18);
    assert_eq!(GyroRange::Dps250.as_u8(), 0x00);
    assert_eq!(GyroRange::Dps500.as_u8(), 0x08);
    assert_eq!(GyroRange::Dps1000.as_u8(), 0x10);
    assert_eq!(GyroRange::Dps2000.as_u8(), 0x18);
    assert_eq!(SampleRateDivider::Rate1kHz.as_u8(), 0x00);
    assert_eq!(SampleRateDivider::Rate500Hz.as_u8(), 0x01);
    assert_eq!(SampleRateDivider::Rate250Hz.as_u8(), 0x03);
    assert_eq!(SampleRateDivider::Rate125Hz.as_u8(), 0x07);
    assert_eq!(Dlpf::Hz260.as_u8(), 0);
    assert_eq!(Dlpf::Hz44.as_u8(), 3);
    assert_eq!(Dlpf::Hz5.as_u8(), 6);
}

#[test]
fn sensitivities() {
    assert_eq!(AccelRange::G2.sensitivity(), 16384);
    assert_eq!(AccelRange::G4.sensitivity(), 8192);
    assert_eq!(AccelRange::G8.sensitivity(), 4096);
    assert_eq!(AccelRange::G16.sensitivity(), 2048);
    assert_eq!(GyroRange::Dps250.sensitivity_tenths(), 1310);
    assert_eq!(GyroRange::Dps500.sensitivity_tenths(), 655);
    assert_eq!(GyroRange::Dps1000.sensitivity_tenths(), 328);
    assert_eq!(GyroRange::Dps2000.sensitivity_tenths(), 164);
}

#[test]
fn setters_return_their_write() {
    let mut scale = SensorScale::new();
    assert_eq!(scale, SensorScale { accel: AccelRange::G4, gyro: GyroRange::Dps250 });
    let w = scale.set_accel_range(AccelRange::G16);
    assert_eq!(w, RegisterWrite { reg: REG_ACCEL_CONFIG, value: 0x18 });
    assert_eq!(scale.accel, AccelRange::G16);
    assert_eq!(scale.gyro, GyroRange::Dps250);
    let w = scale.set_gyro_range(GyroRange::Dps1000);
    assert_eq!(w, RegisterWrite { reg: REG_GYRO_CONFIG, value: 0x10 });
    assert_eq!(scale.gyro, GyroRange::Dps1000);
    assert_eq!(dlpf_write(Dlpf::Hz94), RegisterWrite { reg: 0x1A, value: 0x02 });
    assert_eq!(sample_rate_write(SampleRateDivider::Rate250Hz), RegisterWrite { reg: 0x19, value: 0x03 });
    assert_eq!(wake_write(), RegisterWrite { reg: 0x6B, value: 0x00 });
}

/// Drives the root setup against canned write outcomes.
fn drive_setup(
    scale: &mut SensorScale,
    outcomes: &[Result<(), &'static str>],
) -> (Vec<(u8, u8)>, Result<(), &'static str>) {
    let mut stage = SetupStage::Wake;
    let mut previous = Ok(());
    let mut writes = Vec::new();
    loop {
        let (next, action) = scale.setup_step(stage, previous);
        match action {
            SetupAction::Write(w) => {
                previous = outcomes[writes.len()];
                writes.push((w.reg, w.value));
            }
            SetupAction::Finish(result) => return (writes, result),
        }
        stage = next;
    }
}

#[test]
fn setup_sequence_and_scale() {
    let mut scale = SensorScale { accel: AccelRange::G16, gyro: GyroRange::Dps2000 };
    let (writes, result) = drive_setup(&mut scale, &[Ok(()); 5]);
    assert_eq!(result, Ok(()));
    assert_eq!(writes, vec![(0x6B, 0x00), (0x19, 0x07), (0x1A, 0x03), (0x1C, 0x08), (0x1B, 0x00)]);
    assert_eq!(scale, SensorScale { accel: AccelRange::G4, gyro: GyroRange::Dps250 });
}

#[test]
fn root_setup_stops_at_first_failed_write() {
    let mut scale = SensorScale { accel: AccelRange::G16, gyro: GyroRange::Dps2000 };
    let (writes, result) =
        drive_setup(&mut scale, &[Ok(()), Ok(()), Ok(()), Err("nack"), Ok(())]);
    assert_eq!(result, Err("nack"));
    assert_eq!(writes, vec![(0x6B, 0x00), (0x19, 0x07), (0x1A, 0x03), (0x1C, 0x08)]);
    assert_eq!(scale, SensorScale { accel: AccelRange::G4, gyro: GyroRange::Dps2000 });

    let mut scale = SensorScale { accel: AccelRange::G8, gyro: GyroRange::Dps500 };
    let (writes, result) = drive_setup(&mut scale, &[Err("bus"), Ok(()), Ok(()), Ok(()), Ok(())]);
    assert_eq!(result, Err("bus"));
    assert_eq!(writes, vec![(0x6B, 0x00)]);
    assert_eq!(scale, SensorScale { accel: AccelRange::G8, gyro: GyroRange::Dps500 });
}

#[test]
fn read_requests() {
    assert_eq!(identity_read(), 0x75);
    assert_eq!(accel_read(), ReadRequest { reg: 0x3B, len: 6 });
    assert_eq!(gyro_read(), ReadRequest { reg: 0x43, len: 6 });
    assert_eq!(temperature_read(), ReadRequest { reg: 0x41, len: 2 });
    assert_eq!(motion_read(), ReadRequest { reg: 0x3B, len: 14 });
}

#[test]
fn device_id_check() {
    assert!(is_expected_device_id(0x68));
    assert!(is_expected_device_id(EXPECTED_DEVICE_ID));
    assert!(!is_expected_device_id(0x69));
    assert!(!is_expected_device_id(0x00));
}

#[test]
fn i2c_bus_address() {
    assert_eq!(Address::PRIMARY.as_u8(), 0x68);
    assert_eq!(Address::SECONDARY.as_u8(), 0x69);
    let bus = I2cBus::new(7u32, None);
    assert_eq!(bus.address(), 0x68);
    let mut bus = I2cBus::new(7u32, Some(Address::SECONDARY));
    assert_eq!(bus.address(), 0x69);
    *bus.i2c_mut() += 1;
    assert_eq!(*bus.i2c_mut(), 8);
    assert_eq!(I2cBus::new((), Some(Address::PRIMARY)).address(), 0x68);
}
