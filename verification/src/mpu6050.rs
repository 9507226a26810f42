//! The MPU-6050 register map and the bus-independent part of the driver:
//! which register each setting writes, how the sensitivity follows the
//! configured ranges, how samples are decoded, and the setup sequence.
//!
//! The driver reads and writes registers over a bus it does not own; each
//! operation here returns the register access to perform, and the caller
//! performs it.
use vstd::prelude::*;

use crate::decode::{axes_from_be, axes_value, be_i16_value, i16_from_be};

verus! {

/// Sample rate divider register.
pub const REG_SMPLRT_DIV: u8 = 0x19;

/// Configuration register (digital low-pass filter).
pub const REG_CONFIG: u8 = 0x1A;

/// Gyroscope configuration register (full-scale range).
pub const REG_GYRO_CONFIG: u8 = 0x1B;

/// Accelerometer configuration register (full-scale range).
pub const REG_ACCEL_CONFIG: u8 = 0x1C;

/// First accelerometer output register; the 14-byte motion burst starts here.
pub const REG_ACCEL_XOUT_H: u8 = 0x3B;

/// First temperature output register.
pub const REG_TEMP_OUT_H: u8 = 0x41;

/// First gyroscope output register.
pub const REG_GYRO_XOUT_H: u8 = 0x43;

/// Power management register.
pub const REG_PWR_MGMT_1: u8 = 0x6B;

/// Device identity register.
pub const REG_WHO_AM_I: u8 = 0x75;

/// What `WHO_AM_I` reads on an MPU-6050.
pub const EXPECTED_DEVICE_ID: u8 = 0x68;

/// The I2C address, chosen by the AD0 pin.
#[allow(non_camel_case_types)]
#[derive(Copy, Clone, Debug, PartialEq, Eq, Structural)]
pub enum Address {
    PRIMARY,
    SECONDARY,
}

impl Address {
    /// The 7-bit bus address.
    #[verifier::allow_in_spec]
    pub fn as_u8(self) -> u8
        returns
            match self {
                Address::PRIMARY => 0x68u8,
                Address::SECONDARY => 0x69u8,
            },
    {
        match self {
            Address::PRIMARY => 0x68,
            Address::SECONDARY => 0x69,
        }
    }
}

/// Accelerometer full-scale range.
#[derive(Copy, Clone, Debug, PartialEq, Eq, Structural)]
pub enum AccelRange {
    G2,
    G4,
    G8,
    G16,
}

impl AccelRange {
    /// The `ACCEL_CONFIG` value that selects this range.
    #[verifier::allow_in_spec]
    pub fn as_u8(self) -> u8
        returns
            match self {
                AccelRange::G2 => 0x00u8,
                AccelRange::G4 => 0x08u8,
                AccelRange::G8 => 0x10u8,
                AccelRange::G16 => 0x18u8,
            },
    {
        match self {
            AccelRange::G2 => 0x00,
            AccelRange::G4 => 0x08,
            AccelRange::G8 => 0x10,
            AccelRange::G16 => 0x18,
        }
    }

    /// Sensitivity in LSB per g: a raw sample divided by this is the
    /// acceleration in g.
    #[verifier::allow_in_spec]
    pub fn sensitivity(self) -> u32
        returns
            match self {
                AccelRange::G2 => 16384u32,
                AccelRange::G4 => 8192u32,
                AccelRange::G8 => 4096u32,
                AccelRange::G16 => 2048u32,
            },
    {
        match self {
            AccelRange::G2 => 16384,
            AccelRange::G4 => 8192,
            AccelRange::G8 => 4096,
            AccelRange::G16 => 2048,
        }
    }
}

/// Gyroscope full-scale range.
#[derive(Copy, Clone, Debug, PartialEq, Eq, Structural)]
pub enum GyroRange {
    Dps250,
    Dps500,
    Dps1000,
    Dps2000,
}

impl GyroRange {
    /// The `GYRO_CONFIG` value that selects this range.
    #[verifier::allow_in_spec]
    pub fn as_u8(self) -> u8
        returns
            match self {
                GyroRange::Dps250 => 0x00u8,
                GyroRange::Dps500 => 0x08u8,
                GyroRange::Dps1000 => 0x10u8,
                GyroRange::Dps2000 => 0x18u8,
            },
    {
        match self {
            GyroRange::Dps250 => 0x00,
            GyroRange::Dps500 => 0x08,
            GyroRange::Dps1000 => 0x10,
            GyroRange::Dps2000 => 0x18,
        }
    }

    /// Sensitivity in tenths of an LSB per degree per second (131, 65.5,
    /// 32.8 and 16.4 LSB/dps): ten raw units divided by this is the rate in
    /// dps.
    #[verifier::allow_in_spec]
    pub fn sensitivity_tenths(self) -> u32
        returns
            match self {
                GyroRange::Dps250 => 1310u32,
                GyroRange::Dps500 => 655u32,
                GyroRange::Dps1000 => 328u32,
                GyroRange::Dps2000 => 164u32,
            },
    {
        match self {
            GyroRange::Dps250 => 1310,
            GyroRange::Dps500 => 655,
            GyroRange::Dps1000 => 328,
            GyroRange::Dps2000 => 164,
        }
    }
}

/// Sample rate divider (1 kHz internal rate).
#[derive(Copy, Clone, Debug, PartialEq, Eq, Structural)]
pub enum SampleRateDivider {
    Rate1kHz,
    Rate500Hz,
    Rate250Hz,
    Rate125Hz,
}

impl SampleRateDivider {
    /// The `SMPLRT_DIV` value for this rate.
    #[verifier::allow_in_spec]
    pub fn as_u8(self) -> u8
        returns
            match self {
                SampleRateDivider::Rate1kHz => 0x00u8,
                SampleRateDivider::Rate500Hz => 0x01u8,
                SampleRateDivider::Rate250Hz => 0x03u8,
                SampleRateDivider::Rate125Hz => 0x07u8,
            },
    {
        match self {
            SampleRateDivider::Rate1kHz => 0x00,
            SampleRateDivider::Rate500Hz => 0x01,
            SampleRateDivider::Rate250Hz => 0x03,
            SampleRateDivider::Rate125Hz => 0x07,
        }
    }
}

/// Digital low-pass filter bandwidth.
#[derive(Copy, Clone, Debug, PartialEq, Eq, Structural)]
pub enum Dlpf {
    Hz260,
    Hz184,
    Hz94,
    Hz44,
    Hz21,
    Hz10,
    Hz5,
}

impl Dlpf {
    /// The `CONFIG` value for this bandwidth.
    #[verifier::allow_in_spec]
    pub fn as_u8(self) -> u8
        returns
            match self {
                Dlpf::Hz260 => 0x00u8,
                Dlpf::Hz184 => 0x01u8,
                Dlpf::Hz94 => 0x02u8,
                Dlpf::Hz44 => 0x03u8,
                Dlpf::Hz21 => 0x04u8,
                Dlpf::Hz10 => 0x05u8,
                Dlpf::Hz5 => 0x06u8,
            },
    {
        match self {
            Dlpf::Hz260 => 0x00,
            Dlpf::Hz184 => 0x01,
            Dlpf::Hz94 => 0x02,
            Dlpf::Hz44 => 0x03,
            Dlpf::Hz21 => 0x04,
            Dlpf::Hz10 => 0x05,
            Dlpf::Hz5 => 0x06,
        }
    }
}

/// Raw accelerometer axes X, Y, Z.
pub type AccelRaw = (i16, i16, i16);

/// Raw gyroscope axes X, Y, Z.
pub type GyroRaw = (i16, i16, i16);

/// One raw 14-byte motion burst, decoded.
#[derive(Copy, Clone, Debug, PartialEq, Eq)]
pub struct MotionRaw {
    pub accel: AccelRaw,
    pub temperature: i16,
    pub gyro: GyroRaw,
}

/// A single register write.
#[derive(Copy, Clone, Debug, PartialEq, Eq, Structural)]
pub struct RegisterWrite {
    pub reg: u8,
    pub value: u8,
}

/// The ranges the driver converts samples with. A new driver assumes ±4 g
/// and ±250 dps.
#[derive(Copy, Clone, Debug, PartialEq, Eq, Structural)]
pub struct SensorScale {
    pub accel: AccelRange,
    pub gyro: GyroRange,
}

/// Where the setup sequence stands.
#[derive(Copy, Clone, Debug, PartialEq, Eq, Structural)]
pub enum SetupStage {
    Wake,
    SampleRate,
    Filter,
    Accel,
    Gyro,
    Done,
}

/// What setup asks for next.
#[derive(Debug, PartialEq, Eq)]
pub enum SetupAction<E> {
    /// Perform this register write and report its outcome.
    Write(RegisterWrite),
    /// Setup ends with this result.
    Finish(Result<(), E>),
}

/// The writes of a full setup, in order: wake, 125 Hz divider, 44 Hz
/// filter, ±4 g, ±250 dps.
pub open spec fn setup_writes() -> Seq<RegisterWrite> {
    seq![
        RegisterWrite { reg: REG_PWR_MGMT_1, value: 0x00 },
        RegisterWrite { reg: REG_SMPLRT_DIV, value: SampleRateDivider::Rate125Hz.as_u8() },
        RegisterWrite { reg: REG_CONFIG, value: Dlpf::Hz44.as_u8() },
        RegisterWrite { reg: REG_ACCEL_CONFIG, value: AccelRange::G4.as_u8() },
        RegisterWrite { reg: REG_GYRO_CONFIG, value: GyroRange::Dps250.as_u8() },
    ]
}

/// One step of setup at `stage`, given the outcome of the previous write
/// (`Ok(())` at the first stage): the scale after it, the next stage, and
/// the action. A failed write ends setup with its error; otherwise setup
/// wakes the chip, then sets 125 Hz, the 44 Hz filter, ±4 g and ±250 dps,
/// and succeeds. A range is recorded in the scale before its register is
/// written.
pub open spec fn setup_transition<E>(scale: SensorScale, stage: SetupStage, previous: Result<(), E>) -> (
    SensorScale,
    SetupStage,
    SetupAction<E>,
) {
    match previous {
        Err(e) => (scale, SetupStage::Done, SetupAction::Finish(Err(e))),
        Ok(()) => match stage {
            SetupStage::Wake => (scale, SetupStage::SampleRate, SetupAction::Write(setup_writes()[0])),
            SetupStage::SampleRate => (scale, SetupStage::Filter, SetupAction::Write(setup_writes()[1])),
            SetupStage::Filter => (scale, SetupStage::Accel, SetupAction::Write(setup_writes()[2])),
            SetupStage::Accel => (
                SensorScale { accel: AccelRange::G4, gyro: scale.gyro },
                SetupStage::Gyro,
                SetupAction::Write(setup_writes()[3]),
            ),
            SetupStage::Gyro => (
                SensorScale { accel: scale.accel, gyro: GyroRange::Dps250 },
                SetupStage::Done,
                SetupAction::Write(setup_writes()[4]),
            ),
            SetupStage::Done => (scale, SetupStage::Done, SetupAction::Finish(Ok(()))),
        },
    }
}

/// Setup driven from `stage`: each write is answered by the next outcome in
/// `outcomes`; it stops at the first `Finish` (or when no outcome is left).
/// The final scale and the actions, in order.
pub open spec fn setup_drive<E>(
    scale: SensorScale,
    stage: SetupStage,
    previous: Result<(), E>,
    outcomes: Seq<Result<(), E>>,
) -> (SensorScale, Seq<SetupAction<E>>)
    decreases outcomes.len(),
{
    let (next_scale, next, action) = setup_transition(scale, stage, previous);
    if action is Finish || outcomes.len() == 0 {
        (next_scale, seq![action])
    } else {
        let (last, rest) = setup_drive(next_scale, next, outcomes[0], outcomes.drop_first());
        (last, seq![action] + rest)
    }
}

/// The first failed outcome from `k` on, if any.
pub open spec fn first_failure<E>(outcomes: Seq<Result<(), E>>, k: int) -> Result<(), E>
    decreases outcomes.len() - k,
{
    if k < 0 || k >= outcomes.len() {
        Ok(())
    } else {
        match outcomes[k] {
            Err(e) => Err(e),
            Ok(()) => first_failure(outcomes, k + 1),
        }
    }
}

/// Whatever the scale before, setup driven by the outcomes of its five
/// writes asks for the writes of `setup_writes` in order, asks for no write
/// after a failed one, and ends with the first failure, or with success when
/// all five succeed. The accelerometer scale becomes ±4 g once its write is
/// asked for, the gyroscope scale ±250 dps once its write is; with all
/// writes successful the driver ends at ±4 g and ±250 dps.
pub proof fn law_setup_runs_defaults<E>(scale: SensorScale, outcomes: Seq<Result<(), E>>)
    requires
        outcomes.len() == 5,
    ensures
        ({
            let (last, acts) = setup_drive(scale, SetupStage::Wake, Ok::<(), E>(()), outcomes);
            &&& 2 <= acts.len() <= 6
            &&& acts.last() == SetupAction::<E>::Finish(first_failure(outcomes, 0))
            &&& forall|j: int| 0 <= j < acts.len() - 1 ==> #[trigger] acts[j] == SetupAction::<E>::Write(setup_writes()[j])
            &&& forall|j: int| 0 <= j < acts.len() - 2 ==> #[trigger] outcomes[j] is Ok
            &&& (acts.len() == 6 || outcomes[acts.len() - 2] is Err)
            &&& last.accel == (if acts.len() >= 5 { AccelRange::G4 } else { scale.accel })
            &&& last.gyro == (if acts.len() >= 6 { GyroRange::Dps250 } else { scale.gyro })
            &&& ((forall|j: int| 0 <= j < 5 ==> #[trigger] outcomes[j] is Ok) ==> acts.len() == 6
                && last == SensorScale { accel: AccelRange::G4, gyro: GyroRange::Dps250 })
        }),
{
    let o = outcomes;
    let o1 = o.drop_first();
    let o2 = o1.drop_first();
    let o3 = o2.drop_first();
    let o4 = o3.drop_first();
    let o5 = o4.drop_first();
    assert(o5.len() == 0);
    let sa = SensorScale { accel: AccelRange::G4, gyro: scale.gyro };
    let sg = SensorScale { accel: AccelRange::G4, gyro: GyroRange::Dps250 };
    let d5 = setup_drive(sg, SetupStage::Done, o[4], o5);
    let d4 = setup_drive(sa, SetupStage::Gyro, o[3], o4);
    let d3 = setup_drive(scale, SetupStage::Accel, o[2], o3);
    let d2 = setup_drive(scale, SetupStage::Filter, o[1], o2);
    let d1 = setup_drive(scale, SetupStage::SampleRate, o[0], o1);
    let d0 = setup_drive(scale, SetupStage::Wake, Ok::<(), E>(()), o);
    assert(o1[0] == o[1] && o2[0] == o[2] && o3[0] == o[3] && o4[0] == o[4]);
    assert(d0 == (d1.0, seq![SetupAction::<E>::Write(setup_writes()[0])] + d1.1));
    if o[0] is Err {
        assert(d1.1 =~= seq![SetupAction::<E>::Finish(first_failure(o, 0))]);
    } else {
        assert(first_failure(o, 0) == first_failure(o, 1));
        assert(d1 == (d2.0, seq![SetupAction::<E>::Write(setup_writes()[1])] + d2.1));
        if o[1] is Err {
            assert(d2.1 =~= seq![SetupAction::<E>::Finish(first_failure(o, 0))]);
        } else {
            assert(first_failure(o, 0) == first_failure(o, 2));
            assert(d2 == (d3.0, seq![SetupAction::<E>::Write(setup_writes()[2])] + d3.1));
            if o[2] is Err {
                assert(d3.1 =~= seq![SetupAction::<E>::Finish(first_failure(o, 0))]);
            } else {
                assert(first_failure(o, 0) == first_failure(o, 3));
                assert(d3 == (d4.0, seq![SetupAction::<E>::Write(setup_writes()[3])] + d4.1));
                if o[3] is Err {
                    assert(d4.1 =~= seq![SetupAction::<E>::Finish(first_failure(o, 0))]);
                } else {
                    assert(first_failure(o, 0) == first_failure(o, 4));
                    assert(d4 == (d5.0, seq![SetupAction::<E>::Write(setup_writes()[4])] + d5.1));
                    assert(first_failure(o, 5) == Ok::<(), E>(()));
                    assert(d5.1 =~= seq![SetupAction::<E>::Finish(first_failure(o, 0))]);
                }
            }
        }
    }
}

/// Each range is selected by a distinct register value, its FS_SEL field
/// (bits 4:3), and at full scale a raw sample of 32768 is the range's bound:
/// 2, 4, 8 or 16 g.
pub proof fn law_accel_range_encoding(a: AccelRange, b: AccelRange)
    ensures
        a.as_u8() == b.as_u8() ==> a == b,
        a.as_u8() % 8 == 0 && a.as_u8() / 8 < 4,
        32768 == a.sensitivity() * match a {
            AccelRange::G2 => 2int,
            AccelRange::G4 => 4int,
            AccelRange::G8 => 8int,
            AccelRange::G16 => 16int,
        },
{
}

/// Each gyroscope range is selected by a distinct register value, its
/// FS_SEL field (bits 4:3), and doubling the range halves the sensitivity
/// (to the datasheet's rounding).
pub proof fn law_gyro_range_encoding(a: GyroRange, b: GyroRange)
    ensures
        a.as_u8() == b.as_u8() ==> a == b,
        a.as_u8() % 8 == 0 && a.as_u8() / 8 < 4,
        GyroRange::Dps250.sensitivity_tenths() == 2 * GyroRange::Dps500.sensitivity_tenths(),
        GyroRange::Dps1000.sensitivity_tenths() == 2 * GyroRange::Dps2000.sensitivity_tenths(),
{
}

/// The 14-byte burst from `ACCEL_XOUT_H` covers the temperature registers at
/// offset 6 and the gyroscope registers at offset 8, so its fields are what
/// the separate reads from `TEMP_OUT_H` and `GYRO_XOUT_H` decode.
pub proof fn law_burst_layout(buf: Seq<u8>)
    requires
        buf.len() == 14,
    ensures
        REG_TEMP_OUT_H == REG_ACCEL_XOUT_H + 6,
        REG_GYRO_XOUT_H == REG_ACCEL_XOUT_H + 8,
        axes_value(buf, 8) == axes_value(buf.subrange(8, 14), 0),
        be_i16_value(buf[6], buf[7]) == be_i16_value(buf.subrange(6, 8)[0], buf.subrange(6, 8)[1]),
        axes_value(buf, 0) == axes_value(buf.subrange(0, 6), 0),
{
}

/// Decoding inverts the sensor's encoding: every 16-bit sample, stored high
/// byte first in two's complement, decodes to itself, and distinct byte
/// pairs decode to distinct samples.
pub proof fn law_sample_round_trip(v: i16, hi: u8, lo: u8, hi2: u8, lo2: u8)
    ensures
        ({
            let u = if v < 0 { v as int + 65536 } else { v as int };
            be_i16_value((u / 256) as u8, (u % 256) as u8) == v as int
        }),
        be_i16_value(hi, lo) == be_i16_value(hi2, lo2) ==> hi == hi2 && lo == lo2,
        -32768 <= be_i16_value(hi, lo) <= 32767,
{
}

impl SensorScale {
    /// The scale of a new driver: ±4 g and ±250 dps.
    pub fn new() -> (r: Self)
        ensures
            r.accel == AccelRange::G4,
            r.gyro == GyroRange::Dps250,
    {
        SensorScale { accel: AccelRange::G4, gyro: GyroRange::Dps250 }
    }

    /// Records the accelerometer range and returns the write that selects it.
    pub fn set_accel_range(&mut self, range: AccelRange) -> (w: RegisterWrite)
        ensures
            final(self).accel == range,
            final(self).gyro == old(self).gyro,
            w == (RegisterWrite { reg: REG_ACCEL_CONFIG, value: range.as_u8() }),
    {
        self.accel = range;
        RegisterWrite { reg: REG_ACCEL_CONFIG, value: range.as_u8() }
    }

    /// Records the gyroscope range and returns the write that selects it.
    pub fn set_gyro_range(&mut self, range: GyroRange) -> (w: RegisterWrite)
        ensures
            final(self).gyro == range,
            final(self).accel == old(self).accel,
            w == (RegisterWrite { reg: REG_GYRO_CONFIG, value: range.as_u8() }),
    {
        self.gyro = range;
        RegisterWrite { reg: REG_GYRO_CONFIG, value: range.as_u8() }
    }

    /// Performs one setup step at `stage`, given the outcome of the previous
    /// write (`Ok(())` at the first stage); see `setup_transition`.
    pub fn setup_step<E>(&mut self, stage: SetupStage, previous: Result<(), E>) -> (r: (
        SetupStage,
        SetupAction<E>,
    ))
        ensures
            (*final(self), r.0, r.1) == setup_transition(*old(self), stage, previous),
    {
        if let Err(e) = previous {
            return (SetupStage::Done, SetupAction::Finish(Err(e)));
        }
        match stage {
            SetupStage::Wake => (SetupStage::SampleRate, SetupAction::Write(wake_write())),
            SetupStage::SampleRate => (
                SetupStage::Filter,
                SetupAction::Write(sample_rate_write(SampleRateDivider::Rate125Hz)),
            ),
            SetupStage::Filter => (SetupStage::Accel, SetupAction::Write(dlpf_write(Dlpf::Hz44))),
            SetupStage::Accel => (
                SetupStage::Gyro,
                SetupAction::Write(self.set_accel_range(AccelRange::G4)),
            ),
            SetupStage::Gyro => (
                SetupStage::Done,
                SetupAction::Write(self.set_gyro_range(GyroRange::Dps250)),
            ),
            SetupStage::Done => (SetupStage::Done, SetupAction::Finish(Ok(()))),
        }
    }
}

/// The write that wakes the chip from sleep (clears `PWR_MGMT_1`).
pub fn wake_write() -> (w: RegisterWrite)
    ensures
        w == (RegisterWrite { reg: REG_PWR_MGMT_1, value: 0x00 }),
{
    RegisterWrite { reg: REG_PWR_MGMT_1, value: 0x00 }
}

/// The write that selects the low-pass filter.
pub fn dlpf_write(dlpf: Dlpf) -> (w: RegisterWrite)
    ensures
        w == (RegisterWrite { reg: REG_CONFIG, value: dlpf.as_u8() }),
{
    RegisterWrite { reg: REG_CONFIG, value: dlpf.as_u8() }
}

/// The write that selects the sample rate divider.
pub fn sample_rate_write(divider: SampleRateDivider) -> (w: RegisterWrite)
    ensures
        w == (RegisterWrite { reg: REG_SMPLRT_DIV, value: divider.as_u8() }),
{
    RegisterWrite { reg: REG_SMPLRT_DIV, value: divider.as_u8() }
}

/// Whether a `WHO_AM_I` reading identifies an MPU-6050.
pub fn is_expected_device_id(id: u8) -> (r: bool)
    ensures
        r == (id == EXPECTED_DEVICE_ID),
{
    id == EXPECTED_DEVICE_ID
}

/// A burst read: `len` bytes starting at register `reg`.
#[derive(Copy, Clone, Debug, PartialEq, Eq, Structural)]
pub struct ReadRequest {
    pub reg: u8,
    pub len: usize,
}

/// The register that identifies the chip (`WHO_AM_I`), read as one byte.
pub fn identity_read() -> (r: u8)
    ensures
        r == REG_WHO_AM_I,
{
    REG_WHO_AM_I
}

/// The accelerometer read: six bytes from `ACCEL_XOUT_H`.
pub fn accel_read() -> (r: ReadRequest)
    ensures
        r == (ReadRequest { reg: REG_ACCEL_XOUT_H, len: 6 }),
{
    ReadRequest { reg: REG_ACCEL_XOUT_H, len: 6 }
}

/// The gyroscope read: six bytes from `GYRO_XOUT_H`.
pub fn gyro_read() -> (r: ReadRequest)
    ensures
        r == (ReadRequest { reg: REG_GYRO_XOUT_H, len: 6 }),
{
    ReadRequest { reg: REG_GYRO_XOUT_H, len: 6 }
}

/// The temperature read: two bytes from `TEMP_OUT_H`.
pub fn temperature_read() -> (r: ReadRequest)
    ensures
        r == (ReadRequest { reg: REG_TEMP_OUT_H, len: 2 }),
{
    ReadRequest { reg: REG_TEMP_OUT_H, len: 2 }
}

/// The motion burst: fourteen bytes from `ACCEL_XOUT_H` (accelerometer,
/// temperature, gyroscope).
pub fn motion_read() -> (r: ReadRequest)
    ensures
        r == (ReadRequest { reg: REG_ACCEL_XOUT_H, len: 14 }),
{
    ReadRequest { reg: REG_ACCEL_XOUT_H, len: 14 }
}

/// Decodes the six bytes read from `ACCEL_XOUT_H` (or `GYRO_XOUT_H`):
/// X, Y, Z, each high byte first.
pub fn axes_from_bytes(buf: &[u8; 6]) -> (r: (i16, i16, i16))
    ensures
        (r.0 as int, r.1 as int, r.2 as int) == axes_value(buf@, 0),
{
    axes_from_be(buf.as_slice(), 0)
}

/// Decodes the two bytes read from `TEMP_OUT_H`.
pub fn temperature_from_bytes(buf: &[u8; 2]) -> (r: i16)
    ensures
        r as int == be_i16_value(buf@[0], buf@[1]),
{
    i16_from_be(buf[0], buf[1])
}

/// Decodes the 14-byte burst read from `ACCEL_XOUT_H`: accelerometer X, Y,
/// Z, then temperature, then gyroscope X, Y, Z, each high byte first.
pub fn motion_from_bytes(buf: &[u8; 14]) -> (r: MotionRaw)
    ensures
        (r.accel.0 as int, r.accel.1 as int, r.accel.2 as int) == axes_value(buf@, 0),
        r.temperature as int == be_i16_value(buf@[6], buf@[7]),
        (r.gyro.0 as int, r.gyro.1 as int, r.gyro.2 as int) == axes_value(buf@, 8),
{
    let b = buf.as_slice();
    MotionRaw {
        accel: axes_from_be(b, 0),
        temperature: i16_from_be(b[6], b[7]),
        gyro: axes_from_be(b, 8),
    }
}

/// The I2C bus of one sensor: the bus handle and the sensor's address.
pub struct I2cBus<I2C> {
    i2c: I2C,
    address: u8,
}

impl<I2C> I2cBus<I2C> {
    /// The bus handle.
    pub closed spec fn handle(&self) -> I2C {
        self.i2c
    }

    /// The sensor's address on the bus.
    pub closed spec fn device_address(&self) -> u8 {
        self.address
    }

    /// Binds a bus handle to the sensor at `addr`, by default the primary
    /// address 0x68.
    pub fn new(i2c: I2C, addr: Option<Address>) -> (r: Self)
        ensures
            r.handle() == i2c,
            r.device_address() == match addr {
                Some(a) => a.as_u8(),
                None => Address::PRIMARY.as_u8(),
            },
    {
        let address = match addr {
            Some(a) => a.as_u8(),
            None => Address::PRIMARY.as_u8(),
        };
        I2cBus { i2c, address }
    }

    /// The sensor's address on the bus.
    pub fn address(&self) -> (r: u8)
        ensures
            r == self.device_address(),
    {
        self.address
    }

    /// The bus handle, to perform a transfer with.
    pub fn i2c_mut(&mut self) -> (r: &mut I2C)
        ensures
            *r == old(self).handle(),
            final(self).handle() == *final(r),
            final(self).device_address() == old(self).device_address(),
    {
        &mut self.i2c
    }
}

} // verus!
