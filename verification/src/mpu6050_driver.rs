//! A smaller MPU-6050 driver that checks the device identity before it
//! configures the chip with a fixed sequence (wake, 125 Hz, 44 Hz filter,
//! ±250 dps, ±4 g) and reads the raw accelerometer.
//!
//! Setup alternates bus transfers and decisions; `setup_step` takes the
//! outcome of the last transfer and says which transfer comes next, or how
//! setup ends.
use vstd::prelude::*;

use crate::decode::{axes_from_be, axes_value};
use crate::mpu6050::{
    ReadRequest, REG_ACCEL_CONFIG, REG_ACCEL_XOUT_H, REG_CONFIG, REG_GYRO_CONFIG, REG_PWR_MGMT_1,
    REG_SMPLRT_DIV, REG_WHO_AM_I,
};

verus! {

/// Raw accelerometer axes X, Y, Z.
pub type AccelRaw = (i16, i16, i16);

/// What `WHO_AM_I` reads on an MPU-6050.
pub const EXPECTED_DEVICE_ID: u8 = 0x68;

/// `PWR_MGMT_1` value that wakes the chip.
pub const PWR_MGMT_1_WAKE: u8 = 0x00;

/// `SMPLRT_DIV` value for 125 Hz.
pub const SMPLRT_DIV_125HZ: u8 = 0x07;

/// `CONFIG` value for the 44 Hz low-pass filter.
pub const CONFIG_DLPF_44HZ: u8 = 0x03;

/// `GYRO_CONFIG` value for ±250 dps.
pub const GYRO_CONFIG_250DPS: u8 = 0x00;

/// `ACCEL_CONFIG` value for ±4 g.
pub const ACCEL_CONFIG_4G: u8 = 0x08;

/// Raw accelerometer units per g at ±4 g.
pub const ACCEL_SCALE_4G: u32 = 8192;

/// Number of register writes in the configuration sequence.
pub const CONFIG_LEN: usize = 5;

/// The configuration sequence, as (register, value) writes in order.
pub open spec fn config_sequence() -> Seq<(u8, u8)> {
    seq![
        (REG_PWR_MGMT_1, PWR_MGMT_1_WAKE),
        (REG_SMPLRT_DIV, SMPLRT_DIV_125HZ),
        (REG_CONFIG, CONFIG_DLPF_44HZ),
        (REG_GYRO_CONFIG, GYRO_CONFIG_250DPS),
        (REG_ACCEL_CONFIG, ACCEL_CONFIG_4G),
    ]
}

/// The `i`-th write of the configuration sequence.
pub fn config_entry(i: usize) -> (r: (u8, u8))
    requires
        i < CONFIG_LEN,
    ensures
        r == config_sequence()[i as int],
{
    if i == 0 {
        (REG_PWR_MGMT_1, PWR_MGMT_1_WAKE)
    } else if i == 1 {
        (REG_SMPLRT_DIV, SMPLRT_DIV_125HZ)
    } else if i == 2 {
        (REG_CONFIG, CONFIG_DLPF_44HZ)
    } else if i == 3 {
        (REG_GYRO_CONFIG, GYRO_CONFIG_250DPS)
    } else {
        (REG_ACCEL_CONFIG, ACCEL_CONFIG_4G)
    }
}

/// The I2C address, chosen by the AD0 pin.
#[derive(Copy, Clone, Debug, Eq, PartialEq, Structural)]
pub enum Address {
    Primary,
    Secondary,
}

impl Address {
    /// The 7-bit bus address.
    #[verifier::allow_in_spec]
    pub fn as_u8(self) -> u8
        returns
            match self {
                Address::Primary => 0x68u8,
                Address::Secondary => 0x69u8,
            },
    {
        match self {
            Address::Primary => 0x68,
            Address::Secondary => 0x69,
        }
    }
}

/// Why setup failed: the bus failed, or the chip is not an MPU-6050.
#[derive(Copy, Clone, Debug, Eq, PartialEq)]
pub enum MpuError<E> {
    Bus(E),
    InvalidDeviceId(u8),
}

/// The I2C bus of one sensor: the bus handle and the sensor's address.
pub struct I2cBus<I2C> {
    i2c: I2C,
    address: u8,
}

impl<I2C> I2cBus<I2C> {
    /// The bus handle.
    pub closed spec fn handle(&self) -> I2C {
        self.i2c
    }

    /// The sensor's address on the bus.
    pub closed spec fn device_address(&self) -> u8 {
        self.address
    }

    /// Binds a bus handle to the sensor at `address`.
    pub fn new(i2c: I2C, address: Address) -> (r: Self)
        ensures
            r.handle() == i2c,
            r.device_address() == address.as_u8(),
    {
        I2cBus { i2c, address: address.as_u8() }
    }

    /// The sensor's address on the bus.
    pub fn address(&self) -> (r: u8)
        ensures
            r == self.device_address(),
    {
        self.address
    }

    /// The bus handle, to perform a transfer with.
    pub fn i2c_mut(&mut self) -> (r: &mut I2C)
        ensures
            *r == old(self).handle(),
            final(self).handle() == *final(r),
            final(self).device_address() == old(self).device_address(),
    {
        &mut self.i2c
    }
}

/// Where setup stands.
#[derive(Copy, Clone, Debug, Eq, PartialEq, Structural)]
pub enum SetupStage {
    /// Nothing done yet.
    Start,
    /// The identity register has been requested.
    AwaitId,
    /// Write number `k` of the configuration sequence has been requested.
    AwaitWrite(usize),
    /// Setup has ended.
    Finished,
}

/// The outcome of the last transfer.
#[derive(Debug, Eq, PartialEq)]
pub enum BusEvent<E> {
    /// No transfer yet: setup begins.
    Begin,
    /// A register read ended.
    ReadDone(Result<u8, E>),
    /// A register write ended.
    WriteDone(Result<(), E>),
}

/// What setup asks for next.
#[derive(Debug, Eq, PartialEq)]
pub enum BusAction<E> {
    /// Read one register.
    ReadReg(u8),
    /// Write one register.
    WriteReg(u8, u8),
    /// Setup ends with this result.
    Finish(Result<(), MpuError<E>>),
}

/// The event answers the transfer that `stage` awaits.
pub open spec fn event_fits<E>(stage: SetupStage, event: BusEvent<E>) -> bool {
    match stage {
        SetupStage::Start => event is Begin,
        SetupStage::AwaitId => event is ReadDone,
        SetupStage::AwaitWrite(k) => k < CONFIG_LEN && event is WriteDone,
        SetupStage::Finished => false,
    }
}

/// The action that requests configuration write `k`, or ends setup
/// successfully after the last one.
pub open spec fn write_or_finish<E>(k: int) -> (SetupStage, BusAction<E>) {
    if k < CONFIG_LEN {
        (
            SetupStage::AwaitWrite(k as usize),
            BusAction::WriteReg(config_sequence()[k].0, config_sequence()[k].1),
        )
    } else {
        (SetupStage::Finished, BusAction::Finish(Ok(())))
    }
}

/// One decision of setup: read the identity, refuse a foreign chip, then
/// write the configuration sequence in order; the first bus error ends
/// setup with that error.
pub open spec fn setup_transition<E>(stage: SetupStage, event: BusEvent<E>) -> (SetupStage, BusAction<E>) {
    match stage {
        SetupStage::Start => (SetupStage::AwaitId, BusAction::ReadReg(REG_WHO_AM_I)),
        SetupStage::AwaitId => match event {
            BusEvent::ReadDone(Err(e)) => (SetupStage::Finished, BusAction::Finish(Err(MpuError::Bus(e)))),
            BusEvent::ReadDone(Ok(id)) => if id != EXPECTED_DEVICE_ID {
                (SetupStage::Finished, BusAction::Finish(Err(MpuError::InvalidDeviceId(id))))
            } else {
                write_or_finish(0)
            },
            _ => (SetupStage::Finished, BusAction::Finish(Ok(()))),
        },
        SetupStage::AwaitWrite(k) => match event {
            BusEvent::WriteDone(Err(e)) => (SetupStage::Finished, BusAction::Finish(Err(MpuError::Bus(e)))),
            _ => write_or_finish(k + 1),
        },
        SetupStage::Finished => (SetupStage::Finished, BusAction::Finish(Ok(()))),
    }
}

/// The next request for configuration write `k`, or success after the last.
fn write_or_finish_exec<E>(k: usize) -> (r: (SetupStage, BusAction<E>))
    requires
        k <= CONFIG_LEN,
    ensures
        r == write_or_finish::<E>(k as int),
{
    if k < CONFIG_LEN {
        let (reg, value) = config_entry(k);
        (SetupStage::AwaitWrite(k), BusAction::WriteReg(reg, value))
    } else {
        (SetupStage::Finished, BusAction::Finish(Ok(())))
    }
}

/// Decides the next step of setup from the outcome of the last transfer.
pub fn setup_step<E>(stage: SetupStage, event: BusEvent<E>) -> (r: (SetupStage, BusAction<E>))
    requires
        event_fits(stage, event),
    ensures
        r == setup_transition(stage, event),
{
    match stage {
        SetupStage::Start => (SetupStage::AwaitId, BusAction::ReadReg(REG_WHO_AM_I)),
        SetupStage::AwaitId => match event {
            BusEvent::ReadDone(Err(e)) => (SetupStage::Finished, BusAction::Finish(Err(MpuError::Bus(e)))),
            BusEvent::ReadDone(Ok(id)) => {
                if id != EXPECTED_DEVICE_ID {
                    (SetupStage::Finished, BusAction::Finish(Err(MpuError::InvalidDeviceId(id))))
                } else {
                    write_or_finish_exec(0)
                }
            },
            _ => (SetupStage::Finished, BusAction::Finish(Ok(()))),
        },
        SetupStage::AwaitWrite(k) => match event {
            BusEvent::WriteDone(Err(e)) => (SetupStage::Finished, BusAction::Finish(Err(MpuError::Bus(e)))),
            _ => write_or_finish_exec(k + 1),
        },
        SetupStage::Finished => (SetupStage::Finished, BusAction::Finish(Ok(()))),
    }
}


/// The actions setup asks for when, from `stage`, each event answers the
/// last request; it stops at the first `Finish`.
pub open spec fn drive<E>(stage: SetupStage, events: Seq<BusEvent<E>>) -> Seq<BusAction<E>>
    decreases events.len(),
{
    if events.len() == 0 || stage is Finished {
        Seq::empty()
    } else {
        let (next, action) = setup_transition(stage, events[0]);
        seq![action] + drive(next, events.drop_first())
    }
}

/// The events a bus answers setup with: the start, the identity read, and
/// the outcome of each configuration write in order.
pub open spec fn setup_events<E>(id: Result<u8, E>, writes: Seq<Result<(), E>>) -> Seq<BusEvent<E>> {
    seq![BusEvent::Begin, BusEvent::ReadDone(id)] + Seq::new(
        writes.len(),
        |i: int| BusEvent::WriteDone(writes[i]),
    )
}

/// The first failed write from `k` on, as a setup error.
pub open spec fn first_write_error<E>(writes: Seq<Result<(), E>>, k: int) -> Result<(), MpuError<E>>
    decreases writes.len() - k,
{
    if k < 0 || k >= writes.len() {
        Ok(())
    } else {
        match writes[k] {
            Err(e) => Err(MpuError::Bus(e)),
            Ok(()) => first_write_error(writes, k + 1),
        }
    }
}

/// How setup ends: a failed identity read, a foreign chip, or the first
/// failed write; success otherwise.
pub open spec fn setup_result<E>(id: Result<u8, E>, writes: Seq<Result<(), E>>) -> Result<(), MpuError<E>> {
    match id {
        Err(e) => Err(MpuError::Bus(e)),
        Ok(v) => if v != EXPECTED_DEVICE_ID {
            Err(MpuError::InvalidDeviceId(v))
        } else {
            first_write_error(writes, 0)
        },
    }
}

/// From write `k` on, setup asks for the remaining configuration writes in
/// order and stops at the first failure.
proof fn lemma_drive_writes<E>(writes: Seq<Result<(), E>>, k: int)
    requires
        writes.len() == CONFIG_LEN,
        0 <= k < CONFIG_LEN,
    ensures
        ({
            let events = Seq::new(writes.len(), |i: int| BusEvent::WriteDone(writes[i])).subrange(
                k,
                writes.len() as int,
            );
            let acts = drive(SetupStage::AwaitWrite(k as usize), events);
            &&& acts.len() >= 1
            &&& acts.len() <= CONFIG_LEN - k
            &&& acts.last() == BusAction::<E>::Finish(first_write_error(writes, k))
            &&& forall|j: int|
                0 <= j < acts.len() - 1 ==> #[trigger] acts[j] == BusAction::<E>::WriteReg(
                    config_sequence()[k + 1 + j].0,
                    config_sequence()[k + 1 + j].1,
                )
        }),
    decreases CONFIG_LEN - k,
{
    let all = Seq::new(writes.len(), |i: int| BusEvent::WriteDone(writes[i]));
    let events = all.subrange(k, writes.len() as int);
    let (next, action) = setup_transition(SetupStage::AwaitWrite(k as usize), events[0]);
    let rest_events = events.drop_first();
    assert(events[0] == BusEvent::WriteDone(writes[k]));
    let acts = drive(SetupStage::AwaitWrite(k as usize), events);
    assert(acts == seq![action] + drive(next, rest_events));
    match writes[k] {
        Err(e) => {
            assert(next is Finished);
            assert(drive(next, rest_events) =~= Seq::<BusAction<E>>::empty());
            assert(acts =~= seq![action]);
        },
        Ok(()) => {
            if k + 1 < CONFIG_LEN {
                assert(rest_events =~= all.subrange(k + 1, writes.len() as int));
                lemma_drive_writes(writes, k + 1);
                let tail = drive(next, rest_events);
                assert(acts =~= seq![action] + tail);
                assert forall|j: int| 0 <= j < acts.len() - 1 implies #[trigger] acts[j]
                    == BusAction::<E>::WriteReg(
                    config_sequence()[k + 1 + j].0,
                    config_sequence()[k + 1 + j].1,
                ) by {
                    if j > 0 {
                        assert(acts[j] == tail[j - 1]);
                    }
                }
            } else {
                assert(next is Finished);
                assert(drive(next, rest_events) =~= Seq::<BusAction<E>>::empty());
                assert(acts =~= seq![action]);
            }
        },
    }
}

/// Setup, driven by the outcomes of its transfers, first reads `WHO_AM_I`,
/// then asks only for configuration writes, in the order of the sequence,
/// and ends with `setup_result`: a failed read or write ends it with that
/// bus error, a foreign identity ends it before any write, and it succeeds
/// exactly when the identity is 0x68 and all five writes succeed.
pub proof fn law_setup_runs_the_sequence<E>(id: Result<u8, E>, writes: Seq<Result<(), E>>)
    requires
        writes.len() == CONFIG_LEN,
    ensures
        ({
            let acts = drive(SetupStage::Start, setup_events(id, writes));
            &&& acts.len() >= 2
            &&& acts[0] == BusAction::<E>::ReadReg(REG_WHO_AM_I)
            &&& acts.last() == BusAction::<E>::Finish(setup_result(id, writes))
            &&& forall|j: int|
                1 <= j < acts.len() - 1 ==> #[trigger] acts[j] == BusAction::<E>::WriteReg(
                    config_sequence()[j - 1].0,
                    config_sequence()[j - 1].1,
                )
            &&& (id != Ok::<u8, E>(EXPECTED_DEVICE_ID) ==> acts.len() == 2)
        }),
{
    let events = setup_events(id, writes);
    let all = Seq::new(writes.len(), |i: int| BusEvent::WriteDone(writes[i]));
    let acts = drive(SetupStage::Start, events);
    let e1 = events.drop_first();
    assert(acts == seq![BusAction::<E>::ReadReg(REG_WHO_AM_I)] + drive(SetupStage::AwaitId, e1));
    assert(e1[0] == BusEvent::<E>::ReadDone(id));
    let e2 = e1.drop_first();
    assert(e2 =~= all);
    let (next, action) = setup_transition(SetupStage::AwaitId, e1[0]);
    let tail = drive(SetupStage::AwaitId, e1);
    assert(tail == seq![action] + drive(next, e2));
    if next is Finished {
        assert(drive(next, e2) =~= Seq::<BusAction<E>>::empty());
        assert(acts =~= seq![BusAction::<E>::ReadReg(REG_WHO_AM_I), action]);
    } else {
        assert(id == Ok::<u8, E>(EXPECTED_DEVICE_ID));
        assert(all.subrange(0, writes.len() as int) =~= all);
        lemma_drive_writes(writes, 0);
        let w = drive(next, e2);
        assert(acts =~= seq![BusAction::<E>::ReadReg(REG_WHO_AM_I), action] + w);
        assert forall|j: int| 1 <= j < acts.len() - 1 implies #[trigger] acts[j]
            == BusAction::<E>::WriteReg(config_sequence()[j - 1].0, config_sequence()[j - 1].1) by {
            if j > 1 {
                assert(acts[j] == w[j - 2]);
            }
        }
        assert(acts.last() == w.last());
    }
}

/// The accelerometer read: six bytes from `ACCEL_XOUT_H`.
pub fn accel_read() -> (r: ReadRequest)
    ensures
        r == (ReadRequest { reg: REG_ACCEL_XOUT_H, len: 6 }),
{
    ReadRequest { reg: REG_ACCEL_XOUT_H, len: 6 }
}

/// The identity read: `WHO_AM_I`, one byte.
pub fn identity_read() -> (r: u8)
    ensures
        r == REG_WHO_AM_I,
{
    REG_WHO_AM_I
}

/// Decodes the six bytes read from `ACCEL_XOUT_H`: X, Y, Z, each high byte
/// first.
pub fn accel_from_bytes(buffer: &[u8; 6]) -> (r: AccelRaw)
    ensures
        (r.0 as int, r.1 as int, r.2 as int) == axes_value(buffer@, 0),
{
    axes_from_be(buffer.as_slice(), 0)
}

} // verus!
