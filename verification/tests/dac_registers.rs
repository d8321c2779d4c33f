use bringup::dac_init::{
    register_address_bytes, BusAction, DACInterface, InterfaceError, Outcome, PowerDownControl,
    RegisterAccess, RegisterOp, ResetAction, ResetSequence, CONTROL_AUTO_INCREMENT,
    DAC_I2C_ADDRESS, POWER_DOWN_CONTROL, RESET_LOW_US, RESET_SETTLE_MS,
};

#[test]
fn register_addresses_are_24_bit_big_endian() {
    assert_eq!(register_address_bytes(POWER_DOWN_CONTROL), [0x02, 0x00, 0x00]);
    assert_eq!(register_address_bytes(0xF0010), [0x0F, 0x00, 0x10]);
    assert_eq!(register_address_bytes(0x4_0012), [0x04, 0x00, 0x12]);
    assert_eq!(register_address_bytes(0xAB_CD_EF_12), [0xCD, 0xEF, 0x12]);
    assert_eq!(register_address_bytes(0), [0, 0, 0]);
}

#[test]
fn interface_uses_the_fixed_address() {
    let iface = DACInterface::new(1u8, 2u16, 3u32, 4u64);
    assert_eq!(iface.i2c_address, 0b0110000);
    assert_eq!(DAC_I2C_ADDRESS, 0x30);
    assert_eq!((iface.i2c, iface.reset_pin, iface.interrupt_pin, iface.delay), (1, 2, 3, 4));
}

#[test]
fn register_write_is_one_transaction() {
    let iface = DACInterface::new((), (), (), ());
    let (mut access, first) = iface.begin_write_register(POWER_DOWN_CONTROL);
    assert_eq!(
        first,
        BusAction::WriteRegister { device: 0x30, register: [0x02, 0x00, 0x00], control: CONTROL_AUTO_INCREMENT }
    );
    assert_eq!(access.step(Outcome::Success), BusAction::Finish(Ok(())));
    assert_eq!(access.step(Outcome::Failure), BusAction::Finish(Ok(())));
}

#[test]
fn register_write_failure() {
    let (mut access, _) = RegisterAccess::begin(RegisterOp::Write, 0x30, 0x1_0006);
    assert_eq!(
        access.step(Outcome::Failure),
        BusAction::Finish(Err(InterfaceError::CommunicationError))
    );
    assert_eq!(
        access.step(Outcome::Success),
        BusAction::Finish(Err(InterfaceError::CommunicationError))
    );
}

#[test]
fn register_read_is_two_transactions() {
    let iface = DACInterface::new((), (), (), ());
    let (mut access, first) = iface.begin_read_register(0xF_0000);
    assert_eq!(
        first,
        BusAction::SelectRegister { device: 0x30, register: [0x0F, 0x00, 0x00], control: 0x01 }
    );
    assert_eq!(access.step(Outcome::Success), BusAction::ReadData { device: 0x30 });
    assert_eq!(access.step(Outcome::Success), BusAction::Finish(Ok(())));
}

#[test]
fn register_read_failures() {
    let (mut access, _) = RegisterAccess::begin(RegisterOp::Read, 0x31, 0x9_0001);
    assert_eq!(access.step(Outcome::Failure), BusAction::Finish(Err(InterfaceError::CommunicationError)));

    let (mut access, _) = RegisterAccess::begin(RegisterOp::Read, 0x31, 0x9_0001);
    assert_eq!(access.step(Outcome::Success), BusAction::ReadData { device: 0x31 });
    assert_eq!(access.step(Outcome::Failure), BusAction::Finish(Err(InterfaceError::CommunicationError)));
}

#[test]
fn reset_sequence_success() {
    let (mut reset, first) = ResetSequence::begin();
    assert_eq!(first, ResetAction::DriveResetLow);
    assert_eq!(reset.step(Outcome::Success), ResetAction::WaitMicros(200));
    assert_eq!(reset.step(Outcome::Success), ResetAction::DriveResetHigh);
    assert_eq!(reset.step(Outcome::Success), ResetAction::WaitMillis(2));
    assert_eq!(reset.step(Outcome::Success), ResetAction::ReadInterruptPin);
    assert_eq!(reset.step(Outcome::Success), ResetAction::Finish(Ok(())));
    assert_eq!(reset.step(Outcome::Failure), ResetAction::Finish(Ok(())));
    assert_eq!((RESET_LOW_US, RESET_SETTLE_MS), (200, 2));
}

#[test]
fn reset_sequence_pin_errors() {
    let (mut reset, _) = ResetSequence::begin();
    assert_eq!(reset.step(Outcome::Failure), ResetAction::Finish(Err(InterfaceError::ResetPinError)));

    let (mut reset, _) = ResetSequence::begin();
    reset.step(Outcome::Success);
    reset.step(Outcome::Success);
    assert_eq!(reset.step(Outcome::Failure), ResetAction::Finish(Err(InterfaceError::ResetPinError)));

    let (mut reset, _) = ResetSequence::begin();
    for _ in 0..4 {
        reset.step(Outcome::Success);
    }
    assert_eq!(reset.step(Outcome::Failure), ResetAction::Finish(Err(InterfaceError::InterruptPinError)));
}

#[test]
fn reset_sequence_waits_cannot_fail() {
    let (mut reset, _) = ResetSequence::begin();
    assert_eq!(reset.step(Outcome::Success), ResetAction::WaitMicros(200));
    assert_eq!(reset.step(Outcome::Failure), ResetAction::DriveResetHigh);
    assert_eq!(reset.step(Outcome::Success), ResetAction::WaitMillis(2));
    assert_eq!(reset.step(Outcome::Failure), ResetAction::ReadInterruptPin);
    assert_eq!(reset.step(Outcome::Success), ResetAction::Finish(Ok(())));
}

#[test]
fn power_down_setting_of_the_bring_up() {
    let fields = PowerDownControl::pll_only();
    assert_eq!(fields.to_byte(), 0xFA);
    assert!(!fields.pdn_pll && fields.pdn_xtal && fields.pdn_clkout);
}

#[test]
fn power_down_start_xtal_value() {
    let fields = PowerDownControl::from_byte(0xF6);
    assert_eq!(
        fields,
        PowerDownControl {
            pdn_xsp: true,
            pdn_asp: true,
            pdn_dsdif: true,
            pdn_hp: true,
            pdn_xtal: false,
            pdn_pll: true,
            pdn_clkout: true,
        }
    );
    assert_eq!(fields.to_byte(), 0xF6);
}

#[test]
fn power_down_round_trip() {
    for b in 0..=255u8 {
        let fields = PowerDownControl::from_byte(b);
        assert_eq!(fields.to_byte(), b & 0xFE);
        assert_eq!(PowerDownControl::from_byte(fields.to_byte()), fields);
    }
}
