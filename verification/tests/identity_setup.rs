use mpu6050_async_driver::mpu6050_driver::{
    accel_from_bytes, accel_read, config_entry, identity_read, setup_step, Address, BusAction, BusEvent, I2cBus, MpuError,
    SetupStage, CONFIG_LEN, EXPECTED_DEVICE_ID,
};

type Action = BusAction<&'static str>;

/// Drives setup against canned transfer outcomes and records the actions.
fn run(id: Result<u8, &'static str>, writes: &[Result<(), &'static str>]) -> Vec<Action> {
    let mut actions = Vec::new();
    let mut stage = SetupStage::Start;
    let mut event = BusEvent::Begin;
    let mut next_write = 0;
    loop {
        let (next, action) = setup_step(stage, event);
        stage = next;
        event = match &action {
            BusAction::ReadReg(_) => BusEvent::ReadDone(id),
            BusAction::WriteReg(_, _) => {
                next_write += 1;
                BusEvent::WriteDone(writes[next_write - 1])
            }
            BusAction::Finish(_) => {
                actions.push(action);
                assert_eq!(stage, SetupStage::Finished);
                return actions;
            }
        };
        actions.push(action);
    }
}

fn config_writes(n: usize) -> Vec<Action> {
    (0..n)
        .map(|i| {
            let (reg, value) = config_entry(i);
            BusAction::WriteReg(reg, value)
        })
        .collect()
}

#[test]
fn config_sequence_values() {
    let seq: Vec<(u8, u8)> = (0..CONFIG_LEN).map(config_entry).collect();
    assert_eq!(seq, vec![(0x6B, 0x00), (0x19, 0x07), (0x1A, 0x03), (0x1B, 0x00), (0x1C, 0x08)]);
}

#[test]
fn setup_succeeds_with_right_id() {
    let actions = run(Ok(EXPECTED_DEVICE_ID), &[Ok(()); 5]);
    let mut expected = vec![BusAction::ReadReg(0x75)];
    expected.extend(config_writes(5));
    expected.push(BusAction::Finish(Ok(())));
    assert_eq!(actions, expected);
}

#[test]
fn setup_rejects_foreign_chip_without_writing() {
    let actions = run(Ok(0x70), &[Ok(()); 5]);
    assert_eq!(
        actions,
        vec![BusAction::ReadReg(0x75), BusAction::Finish(Err(MpuError::InvalidDeviceId(0x70)))]
    );
}

#[test]
fn setup_reports_failed_id_read() {
    let actions = run(Err("nack"), &[Ok(()); 5]);
    assert_eq!(actions, vec![BusAction::ReadReg(0x75), BusAction::Finish(Err(MpuError::Bus("nack")))]);
}

#[test]
fn setup_stops_at_first_failed_write() {
    let actions = run(Ok(0x68), &[Ok(()), Ok(()), Err("timeout"), Ok(()), Ok(())]);
    let mut expected = vec![BusAction::ReadReg(0x75)];
    expected.extend(config_writes(3));
    expected.push(BusAction::Finish(Err(MpuError::Bus("timeout"))));
    assert_eq!(actions, expected);
}

#[test]
fn setup_last_write_failure() {
    let actions = run(Ok(0x68), &[Ok(()), Ok(()), Ok(()), Ok(()), Err("bus")]);
    assert_eq!(actions.len(), 7);
    assert_eq!(actions[6], BusAction::Finish(Err(MpuError::Bus("bus"))));
}

#[test]
fn compact_address_and_bus() {
    assert_eq!(Address::Primary.as_u8(), 0x68);
    assert_eq!(Address::Secondary.as_u8(), 0x69);
    let mut bus = I2cBus::new(String::from("i2c"), Address::Secondary);
    assert_eq!(bus.address(), 0x69);
    bus.i2c_mut().push('0');
    assert_eq!(bus.i2c_mut().as_str(), "i2c0");
    assert_eq!(I2cBus::new(0u8, Address::Primary).address(), 0x68);
}

#[test]
fn compact_accel_decode() {
    assert_eq!(accel_from_bytes(&[0x20, 0x00, 0xE0, 0x00, 0x00, 0x01]), (8192, -8192, 1));
}

#[test]
fn compact_read_requests() {
    let r = accel_read();
    assert_eq!((r.reg, r.len), (0x3B, 6));
    assert_eq!(identity_read(), 0x75);
}
