use vstd::prelude::*;

verus! {

/// 7-bit, unshifted I2C address.
pub type I2CAddress = u8;

/// I2C address of the DAC with its ADR pin tied to ground: 0b01100xxy with
/// the two pin bits 00.
pub const DAC_I2C_ADDRESS: I2CAddress = 0b0110000;

/// Control byte sent after the register address: bit 0 enables
/// auto-increment of the register address.
pub const CONTROL_AUTO_INCREMENT: u8 = 0x01;

#[derive(Debug, Clone, Copy, PartialEq, Eq, Structural)]
pub enum InterfaceError {
    ResetPinError,
    InterruptPinError,
    CommunicationError,
}

/// Register addresses are 24 bits wide and go on the bus most significant
/// byte first; the top byte of the `u32` is not sent.
pub open spec fn register_address_seq(address: u32) -> Seq<u8> {
    seq![
        ((address as int / 0x1_0000) % 0x100) as u8,
        ((address as int / 0x100) % 0x100) as u8,
        (address as int % 0x100) as u8,
    ]
}

pub fn register_address_bytes(address: u32) -> (bytes: [u8; 3])
    ensures
        bytes@ == register_address_seq(address),
        bytes[0] * 0x1_0000 + bytes[1] * 0x100 + bytes[2] == address as int % 0x100_0000,
{
    let high: u8 = (address >> 16u32) as u8;
    let middle: u8 = (address >> 8u32) as u8;
    let low: u8 = address as u8;
    assert(high as int == (address as int / 0x1_0000) % 0x100
        && middle as int == (address as int / 0x100) % 0x100
        && low as int == address as int % 0x100
        && high * 0x1_0000 + middle * 0x100 + low == address as int % 0x100_0000) by (bit_vector)
        requires
            high == (address >> 16u32) as u8,
            middle == (address >> 8u32) as u8,
            low == address as u8;
    let bytes: [u8; 3] = [high, middle, low];
    assert(bytes@ =~= register_address_seq(address));
    bytes
}

/// How an operation on the bus, a pin or a timer went.
#[derive(Debug, Clone, Copy, PartialEq, Eq, Structural)]
pub enum Outcome {
    Success,
    Failure,
}

/// How long the reset line is held low, in microseconds.
pub const RESET_LOW_US: u32 = 200;

/// How long the chip is given after reset is released, in milliseconds.
pub const RESET_SETTLE_MS: u32 = 2;

/// What the reset sequence asks of the hardware next.
#[derive(Debug, Clone, Copy, PartialEq, Eq)]
pub enum ResetAction {
    DriveResetLow,
    WaitMicros(u32),
    DriveResetHigh,
    WaitMillis(u32),
    ReadInterruptPin,
    Finish(Result<(), InterfaceError>),
}

/// Where the reset sequence stands: the operation it waits on, or its result.
#[derive(Debug, Clone, Copy, PartialEq, Eq)]
pub enum ResetState {
    DrivingLow,
    HoldingLow,
    DrivingHigh,
    Settling,
    SamplingInterrupt,
    Done(Result<(), InterfaceError>),
}

/// One step of the reset sequence: given the outcome of the operation that the
/// state waits on, the next state and the next action. A failure to drive the
/// reset pin ends the sequence with `ResetPinError`, a failure to read the
/// interrupt pin with `InterruptPinError`; a wait completes whatever is
/// reported; the level read from the interrupt pin does not matter.
pub open spec fn reset_next(state: ResetState, outcome: Outcome) -> (ResetState, ResetAction) {
    match state {
        ResetState::DrivingLow => if outcome == Outcome::Success {
            (ResetState::HoldingLow, ResetAction::WaitMicros(RESET_LOW_US))
        } else {
            (ResetState::Done(Err(InterfaceError::ResetPinError)),
             ResetAction::Finish(Err(InterfaceError::ResetPinError)))
        },
        ResetState::HoldingLow => (ResetState::DrivingHigh, ResetAction::DriveResetHigh),
        ResetState::DrivingHigh => if outcome == Outcome::Success {
            (ResetState::Settling, ResetAction::WaitMillis(RESET_SETTLE_MS))
        } else {
            (ResetState::Done(Err(InterfaceError::ResetPinError)),
             ResetAction::Finish(Err(InterfaceError::ResetPinError)))
        },
        ResetState::Settling => (ResetState::SamplingInterrupt, ResetAction::ReadInterruptPin),
        ResetState::SamplingInterrupt => if outcome == Outcome::Success {
            (ResetState::Done(Ok(())), ResetAction::Finish(Ok(())))
        } else {
            (ResetState::Done(Err(InterfaceError::InterruptPinError)),
             ResetAction::Finish(Err(InterfaceError::InterruptPinError)))
        },
        ResetState::Done(r) => (ResetState::Done(r), ResetAction::Finish(r)),
    }
}

/// The state after the outcomes `outcomes`, in order.
pub open spec fn reset_run(state: ResetState, outcomes: Seq<Outcome>) -> ResetState
    decreases outcomes.len(),
{
    if outcomes.len() == 0 {
        state
    } else {
        reset_run(reset_next(state, outcomes[0]).0, outcomes.drop_first())
    }
}

/// The result of a reset whose three fallible operations (driving the pin
/// low, driving it high, reading the interrupt pin) had the given outcomes.
pub open spec fn reset_result(drive_low: Outcome, drive_high: Outcome, read_interrupt: Outcome) -> Result<(), InterfaceError> {
    if drive_low == Outcome::Failure || drive_high == Outcome::Failure {
        Err(InterfaceError::ResetPinError)
    } else if read_interrupt == Outcome::Failure {
        Err(InterfaceError::InterruptPinError)
    } else {
        Ok(())
    }
}

/// The decisions of the DAC's hardware reset: pulse the reset line low, let
/// the chip settle, then sample the interrupt line.
pub struct ResetSequence {
    state: ResetState,
}

impl ResetSequence {
    pub closed spec fn state(&self) -> ResetState {
        self.state
    }

    /// A new sequence, and its first action: drive the reset line low.
    pub fn begin() -> (started: (ResetSequence, ResetAction))
        ensures
            started.0.state() == ResetState::DrivingLow,
            started.1 == ResetAction::DriveResetLow,
    {
        (ResetSequence { state: ResetState::DrivingLow }, ResetAction::DriveResetLow)
    }

    /// Reports the outcome of the last action and returns the next one.
    pub fn step(&mut self, outcome: Outcome) -> (action: ResetAction)
        ensures
            (final(self).state(), action) == reset_next(old(self).state(), outcome),
    {
        let ok = match outcome {
            Outcome::Success => true,
            Outcome::Failure => false,
        };
        let (next, action) = match self.state {
            ResetState::DrivingLow => if ok {
                (ResetState::HoldingLow, ResetAction::WaitMicros(RESET_LOW_US))
            } else {
                (ResetState::Done(Err(InterfaceError::ResetPinError)),
                 ResetAction::Finish(Err(InterfaceError::ResetPinError)))
            },
            ResetState::HoldingLow => (ResetState::DrivingHigh, ResetAction::DriveResetHigh),
            ResetState::DrivingHigh => if ok {
                (ResetState::Settling, ResetAction::WaitMillis(RESET_SETTLE_MS))
            } else {
                (ResetState::Done(Err(InterfaceError::ResetPinError)),
                 ResetAction::Finish(Err(InterfaceError::ResetPinError)))
            },
            ResetState::Settling => (ResetState::SamplingInterrupt, ResetAction::ReadInterruptPin),
            ResetState::SamplingInterrupt => if ok {
                (ResetState::Done(Ok(())), ResetAction::Finish(Ok(())))
            } else {
                (ResetState::Done(Err(InterfaceError::InterruptPinError)),
                 ResetAction::Finish(Err(InterfaceError::InterruptPinError)))
            },
            ResetState::Done(r) => (ResetState::Done(r), ResetAction::Finish(r)),
        };
        self.state = next;
        action
    }
}

/// Once finished, a reset sequence stays finished with the same result.
pub proof fn lemma_reset_done_is_final(r: Result<(), InterfaceError>, outcomes: Seq<Outcome>)
    ensures
        reset_run(ResetState::Done(r), outcomes) == ResetState::Done(r),
    decreases outcomes.len(),
{
    if outcomes.len() > 0 {
        lemma_reset_done_is_final(r, outcomes.drop_first());
    }
}

/// A reset is over after at most five reported outcomes, whatever they are,
/// and its result is `Ok` exactly when both drives of the reset pin and the
/// read of the interrupt pin succeeded; the outcomes of the waits do not count.
pub proof fn lemma_reset_result(outcomes: Seq<Outcome>)
    requires
        outcomes.len() >= 5,
    ensures
        reset_run(ResetState::DrivingLow, outcomes)
            == ResetState::Done(reset_result(outcomes[0], outcomes[2], outcomes[4])),
{
    let o = outcomes;
    let s1 = reset_next(ResetState::DrivingLow, o[0]).0;
    let s2 = reset_next(s1, o[1]).0;
    let s3 = reset_next(s2, o[2]).0;
    let s4 = reset_next(s3, o[3]).0;
    let s5 = reset_next(s4, o[4]).0;
    assert(o.drop_first()[0] == o[1]);
    assert(o.drop_first().drop_first()[0] == o[2]);
    assert(o.drop_first().drop_first().drop_first()[0] == o[3]);
    assert(o.drop_first().drop_first().drop_first().drop_first()[0] == o[4]);
    let rest = o.drop_first().drop_first().drop_first().drop_first().drop_first();
    assert(s5 == ResetState::Done(reset_result(o[0], o[2], o[4])));
    lemma_reset_done_is_final(reset_result(o[0], o[2], o[4]), rest);
    assert(reset_run(s4, o.drop_first().drop_first().drop_first().drop_first()) == reset_run(s5, rest));
    assert(reset_run(s3, o.drop_first().drop_first().drop_first()) == reset_run(s5, rest));
    assert(reset_run(s2, o.drop_first().drop_first()) == reset_run(s5, rest));
    assert(reset_run(s1, o.drop_first()) == reset_run(s5, rest));
}

/// Direction of a register access.
#[derive(Debug, Clone, Copy, PartialEq, Eq, Structural)]
pub enum RegisterOp {
    Write,
    Read,
}

/// What a register access asks of the I2C bus next.
#[derive(Debug, Clone, Copy, PartialEq, Eq)]
pub enum BusAction {
    /// One transaction to `device` that writes the register address bytes,
    /// the control byte and then the data, with no STOP in between.
    WriteRegister { device: I2CAddress, register: [u8; 3], control: u8 },
    /// One transaction to `device` that writes the register address bytes and
    /// the control byte.
    SelectRegister { device: I2CAddress, register: [u8; 3], control: u8 },
    /// One transaction that reads the data from `device`, starting at the
    /// register selected before.
    ReadData { device: I2CAddress },
    /// The access is over, with this result.
    Finish(Result<(), InterfaceError>),
}

/// Where a register access stands.
#[derive(Debug, Clone, Copy, PartialEq, Eq)]
pub enum AccessState {
    SendingHeader,
    ReadingData,
    Done(Result<(), InterfaceError>),
}

/// The first bus action of an access.
pub open spec fn access_first(op: RegisterOp, device: I2CAddress, address: u32) -> BusAction {
    let register = register_address_seq(address);
    match op {
        RegisterOp::Write => BusAction::WriteRegister {
            device,
            register: [register[0], register[1], register[2]],
            control: CONTROL_AUTO_INCREMENT,
        },
        RegisterOp::Read => BusAction::SelectRegister {
            device,
            register: [register[0], register[1], register[2]],
            control: CONTROL_AUTO_INCREMENT,
        },
    }
}

/// One step of a register access. A write is one transaction; a read is a
/// transaction that selects the register and, after a STOP, one that reads
/// it. Any failed transaction ends the access with `CommunicationError`.
pub open spec fn access_next(op: RegisterOp, device: I2CAddress, state: AccessState, outcome: Outcome) -> (AccessState, BusAction) {
    match state {
        AccessState::SendingHeader => if outcome == Outcome::Failure {
            (AccessState::Done(Err(InterfaceError::CommunicationError)),
             BusAction::Finish(Err(InterfaceError::CommunicationError)))
        } else if op == RegisterOp::Write {
            (AccessState::Done(Ok(())), BusAction::Finish(Ok(())))
        } else {
            (AccessState::ReadingData, BusAction::ReadData { device })
        },
        AccessState::ReadingData => if outcome == Outcome::Failure {
            (AccessState::Done(Err(InterfaceError::CommunicationError)),
             BusAction::Finish(Err(InterfaceError::CommunicationError)))
        } else {
            (AccessState::Done(Ok(())), BusAction::Finish(Ok(())))
        },
        AccessState::Done(r) => (AccessState::Done(r), BusAction::Finish(r)),
    }
}

/// The state of an access after the outcomes `outcomes`, in order.
pub open spec fn access_run(op: RegisterOp, device: I2CAddress, state: AccessState, outcomes: Seq<Outcome>) -> AccessState
    decreases outcomes.len(),
{
    if outcomes.len() == 0 {
        state
    } else {
        access_run(op, device, access_next(op, device, state, outcomes[0]).0, outcomes.drop_first())
    }
}

/// The decisions of one read or write of a DAC register over I2C.
pub struct RegisterAccess {
    op: RegisterOp,
    device: I2CAddress,
    state: AccessState,
}

impl RegisterAccess {
    pub closed spec fn op(&self) -> RegisterOp {
        self.op
    }

    pub closed spec fn device(&self) -> I2CAddress {
        self.device
    }

    pub closed spec fn state(&self) -> AccessState {
        self.state
    }

    /// A new access of register `address` on `device`, and its first action.
    pub fn begin(op: RegisterOp, device: I2CAddress, address: u32) -> (started: (RegisterAccess, BusAction))
        ensures
            started.0.op() == op,
            started.0.device() == device,
            started.0.state() == AccessState::SendingHeader,
            started.1 == access_first(op, device, address),
            addresses_register(started.1, op, device, address),
    {
        let register = register_address_bytes(address);
        let action = match op {
            RegisterOp::Write => BusAction::WriteRegister {
                device,
                register,
                control: CONTROL_AUTO_INCREMENT,
            },
            RegisterOp::Read => BusAction::SelectRegister {
                device,
                register,
                control: CONTROL_AUTO_INCREMENT,
            },
        };
        proof {
            assert(register =~= [register@[0], register@[1], register@[2]]);
            lemma_access_first_addresses(op, device, address);
        }
        (RegisterAccess { op, device, state: AccessState::SendingHeader }, action)
    }

    /// Reports the outcome of the last transaction and returns the next action.
    pub fn step(&mut self, outcome: Outcome) -> (action: BusAction)
        ensures
            final(self).op() == old(self).op(),
            final(self).device() == old(self).device(),
            (final(self).state(), action)
                == access_next(old(self).op(), old(self).device(), old(self).state(), outcome),
    {
        let failed = match outcome {
            Outcome::Success => false,
            Outcome::Failure => true,
        };
        let is_write = match self.op {
            RegisterOp::Write => true,
            RegisterOp::Read => false,
        };
        let (next, action) = match self.state {
            AccessState::SendingHeader => if failed {
                (AccessState::Done(Err(InterfaceError::CommunicationError)),
                 BusAction::Finish(Err(InterfaceError::CommunicationError)))
            } else if is_write {
                (AccessState::Done(Ok(())), BusAction::Finish(Ok(())))
            } else {
                (AccessState::ReadingData, BusAction::ReadData { device: self.device })
            },
            AccessState::ReadingData => if failed {
                (AccessState::Done(Err(InterfaceError::CommunicationError)),
                 BusAction::Finish(Err(InterfaceError::CommunicationError)))
            } else {
                (AccessState::Done(Ok(())), BusAction::Finish(Ok(())))
            },
            AccessState::Done(r) => (AccessState::Done(r), BusAction::Finish(r)),
        };
        self.state = next;
        action
    }
}

/// Once finished, a register access stays finished with the same result.
pub proof fn lemma_access_done_is_final(op: RegisterOp, device: I2CAddress, r: Result<(), InterfaceError>, outcomes: Seq<Outcome>)
    ensures
        access_run(op, device, AccessState::Done(r), outcomes) == AccessState::Done(r),
    decreases outcomes.len(),
{
    if outcomes.len() > 0 {
        lemma_access_done_is_final(op, device, r, outcomes.drop_first());
    }
}

/// A register write is over after one transaction and a read after at most
/// two; the access succeeds exactly when each of its transactions succeeded,
/// and otherwise fails with `CommunicationError`.
pub proof fn lemma_access_result(op: RegisterOp, device: I2CAddress, outcomes: Seq<Outcome>)
    requires
        outcomes.len() >= 2,
    ensures
        op == RegisterOp::Write ==> access_run(op, device, AccessState::SendingHeader, outcomes)
            == AccessState::Done(if outcomes[0] == Outcome::Success { Ok(()) } else { Err(InterfaceError::CommunicationError) }),
        op == RegisterOp::Read ==> access_run(op, device, AccessState::SendingHeader, outcomes)
            == AccessState::Done(if outcomes[0] == Outcome::Success && outcomes[1] == Outcome::Success { Ok(()) } else { Err(InterfaceError::CommunicationError) }),
{
    let o = outcomes;
    let s1 = access_next(op, device, AccessState::SendingHeader, o[0]).0;
    let s2 = access_next(op, device, s1, o[1]).0;
    let tail = o.drop_first();
    let rest = tail.drop_first();
    assert(tail[0] == o[1]);
    assert(access_run(op, device, AccessState::SendingHeader, o) == access_run(op, device, s1, tail));
    assert(access_run(op, device, s1, tail) == access_run(op, device, s2, rest));
    if s1 is Done {
        assert(s2 == s1);
        lemma_access_done_is_final(op, device, s1->Done_0, rest);
    } else {
        assert(s2 is Done);
        lemma_access_done_is_final(op, device, s2->Done_0, rest);
    }
}

/// The DAC's I2C interface: the bus, the reset and interrupt pins and a delay
/// source, and the bus address of the chip.
pub struct DACInterface<I2C, R, I, D> {
    pub i2c: I2C,
    /// 7-bit unshifted address.
    pub i2c_address: I2CAddress,
    pub reset_pin: R,
    pub interrupt_pin: I,
    pub delay: D,
}

impl<I2C, R, I, D> DACInterface<I2C, R, I, D> {
    pub fn new(i2c: I2C, reset_pin: R, interrupt_pin: I, delay: D) -> (iface: Self)
        ensures
            iface.i2c_address == DAC_I2C_ADDRESS,
            iface.i2c == i2c,
            iface.reset_pin == reset_pin,
            iface.interrupt_pin == interrupt_pin,
            iface.delay == delay,
    {
        DACInterface { i2c, i2c_address: DAC_I2C_ADDRESS, reset_pin, interrupt_pin, delay }
    }

    /// Starts a write of register `address` of this interface's chip.
    pub fn begin_write_register(&self, address: u32) -> (started: (RegisterAccess, BusAction))
        ensures
            started.0.op() == RegisterOp::Write,
            started.0.device() == self.i2c_address,
            started.0.state() == AccessState::SendingHeader,
            started.1 == access_first(RegisterOp::Write, self.i2c_address, address),
            addresses_register(started.1, RegisterOp::Write, self.i2c_address, address),
    {
        RegisterAccess::begin(RegisterOp::Write, self.i2c_address, address)
    }

    /// Starts a read of register `address` of this interface's chip.
    pub fn begin_read_register(&self, address: u32) -> (started: (RegisterAccess, BusAction))
        ensures
            started.0.op() == RegisterOp::Read,
            started.0.device() == self.i2c_address,
            started.0.state() == AccessState::SendingHeader,
            started.1 == access_first(RegisterOp::Read, self.i2c_address, address),
            addresses_register(started.1, RegisterOp::Read, self.i2c_address, address),
    {
        RegisterAccess::begin(RegisterOp::Read, self.i2c_address, address)
    }
}

/// Address of the Power Down Control register.
pub const POWER_DOWN_CONTROL: u32 = 0x2_0000;

/// The Power Down Control register: one power-down bit per block of the chip,
/// from bit 7 down to bit 1; bit 0 is reserved and written as 0.
#[derive(Debug, Clone, Copy, PartialEq, Eq, Structural)]
pub struct PowerDownControl {
    pub pdn_xsp: bool,
    pub pdn_asp: bool,
    pub pdn_dsdif: bool,
    pub pdn_hp: bool,
    pub pdn_xtal: bool,
    pub pdn_pll: bool,
    pub pdn_clkout: bool,
}

pub open spec fn flag(set: bool, mask: int) -> int {
    if set { mask } else { 0 }
}

/// Whether bit `mask` is set in `byte`.
pub open spec fn has_bit(byte: u8, mask: u8) -> bool {
    byte & mask != 0
}

/// The fields that a register byte holds.
pub open spec fn power_down_from_byte(byte: u8) -> PowerDownControl {
    PowerDownControl {
        pdn_xsp: has_bit(byte, 0x80),
        pdn_asp: has_bit(byte, 0x40),
        pdn_dsdif: has_bit(byte, 0x20),
        pdn_hp: has_bit(byte, 0x10),
        pdn_xtal: has_bit(byte, 0x08),
        pdn_pll: has_bit(byte, 0x04),
        pdn_clkout: has_bit(byte, 0x02),
    }
}

impl PowerDownControl {
    /// The register byte that holds these fields.
    pub open spec fn byte(self) -> int {
        flag(self.pdn_xsp, 0x80) + flag(self.pdn_asp, 0x40) + flag(self.pdn_dsdif, 0x20)
            + flag(self.pdn_hp, 0x10) + flag(self.pdn_xtal, 0x08) + flag(self.pdn_pll, 0x04)
            + flag(self.pdn_clkout, 0x02)
    }

    /// Everything powered down but the PLL, as the bring-up writes it first.
    pub fn pll_only() -> (fields: Self)
        ensures
            fields == (PowerDownControl {
                pdn_xsp: true,
                pdn_asp: true,
                pdn_dsdif: true,
                pdn_hp: true,
                pdn_xtal: true,
                pdn_pll: false,
                pdn_clkout: true,
            }),
    {
        PowerDownControl {
            pdn_clkout: true,
            pdn_pll: false,
            pdn_xtal: true,
            pdn_hp: true,
            pdn_dsdif: true,
            pdn_asp: true,
            pdn_xsp: true,
        }
    }

    pub fn to_byte(&self) -> (byte: u8)
        ensures
            byte == self.byte(),
            byte & 0x80 != 0 <==> self.pdn_xsp,
            byte & 0x40 != 0 <==> self.pdn_asp,
            byte & 0x20 != 0 <==> self.pdn_dsdif,
            byte & 0x10 != 0 <==> self.pdn_hp,
            byte & 0x08 != 0 <==> self.pdn_xtal,
            byte & 0x04 != 0 <==> self.pdn_pll,
            byte & 0x02 != 0 <==> self.pdn_clkout,
            byte & 0x01 == 0,
    {
        proof { lemma_power_down_bits(*self, 0); }
        let xsp: u8 = if self.pdn_xsp { 0x80 } else { 0 };
        let asp: u8 = if self.pdn_asp { 0x40 } else { 0 };
        let dsdif: u8 = if self.pdn_dsdif { 0x20 } else { 0 };
        let hp: u8 = if self.pdn_hp { 0x10 } else { 0 };
        let xtal: u8 = if self.pdn_xtal { 0x08 } else { 0 };
        let pll: u8 = if self.pdn_pll { 0x04 } else { 0 };
        let clkout: u8 = if self.pdn_clkout { 0x02 } else { 0 };
        xsp + asp + dsdif + hp + xtal + pll + clkout
    }

    pub fn from_byte(byte: u8) -> (fields: Self)
        ensures
            fields == power_down_from_byte(byte),
            fields.pdn_xsp == (byte & 0x80 != 0),
            fields.pdn_asp == (byte & 0x40 != 0),
            fields.pdn_dsdif == (byte & 0x20 != 0),
            fields.pdn_hp == (byte & 0x10 != 0),
            fields.pdn_xtal == (byte & 0x08 != 0),
            fields.pdn_pll == (byte & 0x04 != 0),
            fields.pdn_clkout == (byte & 0x02 != 0),
    {
        PowerDownControl {
            pdn_xsp: byte & 0x80 != 0,
            pdn_asp: byte & 0x40 != 0,
            pdn_dsdif: byte & 0x20 != 0,
            pdn_hp: byte & 0x10 != 0,
            pdn_xtal: byte & 0x08 != 0,
            pdn_pll: byte & 0x04 != 0,
            pdn_clkout: byte & 0x02 != 0,
        }
    }
}

/// Reading back the byte written from a set of fields gives the same fields;
/// writing back the fields read from a byte gives the byte with its reserved
/// bit cleared.
pub proof fn lemma_power_down_round_trip(fields: PowerDownControl, byte: u8)
    ensures
        0 <= fields.byte() < 0x100,
        power_down_from_byte(fields.byte() as u8) == fields,
        power_down_from_byte(byte).byte() == byte & 0xfe,
{
    let (a, b, c, d, e, f, g) = (fields.pdn_xsp, fields.pdn_asp, fields.pdn_dsdif,
        fields.pdn_hp, fields.pdn_xtal, fields.pdn_pll, fields.pdn_clkout);
    let v: u8 = fields.byte() as u8;
    assert(v == fields.byte());
    assert(
        (v & 0x80 != 0) == a && (v & 0x40 != 0) == b && (v & 0x20 != 0) == c
        && (v & 0x10 != 0) == d && (v & 0x08 != 0) == e && (v & 0x04 != 0) == f
        && (v & 0x02 != 0) == g
    ) by (bit_vector)
        requires
            v == (if a { 0x80u8 } else { 0u8 }) + (if b { 0x40u8 } else { 0u8 })
                + (if c { 0x20u8 } else { 0u8 }) + (if d { 0x10u8 } else { 0u8 })
                + (if e { 0x08u8 } else { 0u8 }) + (if f { 0x04u8 } else { 0u8 })
                + (if g { 0x02u8 } else { 0u8 });
    assert((if byte & 0x80 != 0 { 0x80u8 } else { 0u8 }) + (if byte & 0x40 != 0 { 0x40u8 } else { 0u8 })
        + (if byte & 0x20 != 0 { 0x20u8 } else { 0u8 }) + (if byte & 0x10 != 0 { 0x10u8 } else { 0u8 })
        + (if byte & 0x08 != 0 { 0x08u8 } else { 0u8 }) + (if byte & 0x04 != 0 { 0x04u8 } else { 0u8 })
        + (if byte & 0x02 != 0 { 0x02u8 } else { 0u8 }) == byte & 0xfe) by (bit_vector);
}

/// Whether `action` is the first transaction of an access `op` of register
/// `address` on `device`: a write sends the register, control byte and data in
/// one transaction, a read first selects the register; either way the three
/// register bytes are the 24-bit address, most significant byte first, and
/// the control byte asks for auto-increment.
pub open spec fn addresses_register(action: BusAction, op: RegisterOp, device: I2CAddress, address: u32) -> bool {
    match action {
        BusAction::WriteRegister { device: d, register, control } => {
            &&& op == RegisterOp::Write
            &&& d == device
            &&& register[0] * 0x1_0000 + register[1] * 0x100 + register[2] == address as int % 0x100_0000
            &&& control == 0x01
        },
        BusAction::SelectRegister { device: d, register, control } => {
            &&& op == RegisterOp::Read
            &&& d == device
            &&& register[0] * 0x1_0000 + register[1] * 0x100 + register[2] == address as int % 0x100_0000
            &&& control == 0x01
        },
        _ => false,
    }
}

/// The first transaction of every register access goes to the accessed
/// device, carries the register address as 24 big-endian bits and the
/// auto-increment control byte, and is a combined write for a write and a
/// register selection for a read.
pub proof fn lemma_access_first_addresses(op: RegisterOp, device: I2CAddress, address: u32)
    ensures
        addresses_register(access_first(op, device, address), op, device, address),
{
    let a = address;
    let b0 = ((a as int / 0x1_0000) % 0x100) as u8;
    let b1 = ((a as int / 0x100) % 0x100) as u8;
    let b2 = (a as int % 0x100) as u8;
    let high: u8 = (a >> 16u32) as u8;
    let middle: u8 = (a >> 8u32) as u8;
    let low: u8 = a as u8;
    assert(high as int == (a as int / 0x1_0000) % 0x100
        && middle as int == (a as int / 0x100) % 0x100
        && low as int == a as int % 0x100
        && high * 0x1_0000 + middle * 0x100 + low == a as int % 0x100_0000) by (bit_vector)
        requires
            high == (a >> 16u32) as u8,
            middle == (a >> 8u32) as u8,
            low == a as u8;
    assert(b0 == high && b1 == middle && b2 == low);
    let register = register_address_seq(a);
    assert(register[0] == b0 && register[1] == b1 && register[2] == b2);
    let arr: [u8; 3] = [register[0], register[1], register[2]];
    assert(arr[0] == b0 && arr[1] == b1 && arr[2] == b2);
}

/// Each field of the Power Down Control register sits at its own fixed bit:
/// XSP at bit 7, ASP 6, DSDIF 5, HP 4, XTAL 3, PLL 2, CLKOUT 1; the reserved
/// bit 0 is written as 0. Reading a byte takes each field from the same bit.
pub proof fn lemma_power_down_bits(fields: PowerDownControl, byte: u8)
    ensures
        0 <= fields.byte() < 0x100,
        (fields.byte() as u8) & 0x80 != 0 <==> fields.pdn_xsp,
        (fields.byte() as u8) & 0x40 != 0 <==> fields.pdn_asp,
        (fields.byte() as u8) & 0x20 != 0 <==> fields.pdn_dsdif,
        (fields.byte() as u8) & 0x10 != 0 <==> fields.pdn_hp,
        (fields.byte() as u8) & 0x08 != 0 <==> fields.pdn_xtal,
        (fields.byte() as u8) & 0x04 != 0 <==> fields.pdn_pll,
        (fields.byte() as u8) & 0x02 != 0 <==> fields.pdn_clkout,
        (fields.byte() as u8) & 0x01 == 0,
        power_down_from_byte(byte).pdn_xsp == (byte & 0x80 != 0),
        power_down_from_byte(byte).pdn_asp == (byte & 0x40 != 0),
        power_down_from_byte(byte).pdn_dsdif == (byte & 0x20 != 0),
        power_down_from_byte(byte).pdn_hp == (byte & 0x10 != 0),
        power_down_from_byte(byte).pdn_xtal == (byte & 0x08 != 0),
        power_down_from_byte(byte).pdn_pll == (byte & 0x04 != 0),
        power_down_from_byte(byte).pdn_clkout == (byte & 0x02 != 0),
{
    let (a, b, c, d, e, f, g) = (fields.pdn_xsp, fields.pdn_asp, fields.pdn_dsdif,
        fields.pdn_hp, fields.pdn_xtal, fields.pdn_pll, fields.pdn_clkout);
    let v: u8 = fields.byte() as u8;
    assert(v == fields.byte());
    assert(
        (v & 0x80 != 0) == a && (v & 0x40 != 0) == b && (v & 0x20 != 0) == c
        && (v & 0x10 != 0) == d && (v & 0x08 != 0) == e && (v & 0x04 != 0) == f
        && (v & 0x02 != 0) == g && v & 0x01 == 0
    ) by (bit_vector)
        requires
            v == (if a { 0x80u8 } else { 0u8 }) + (if b { 0x40u8 } else { 0u8 })
                + (if c { 0x20u8 } else { 0u8 }) + (if d { 0x10u8 } else { 0u8 })
                + (if e { 0x08u8 } else { 0u8 }) + (if f { 0x04u8 } else { 0u8 })
                + (if g { 0x02u8 } else { 0u8 });
}

} // verus!
