use crow_panel_advance_5::stc8h1k28::{
    backlight_level, beep_ops, hardware_reset_ops, init_ops, send_command_ops,
    set_backlight_ops, Command, OpRunner, PeripheralOp, STC8H1K28_ADDR,
};

#[test]
fn command_bytes() {
    let all = [
        (Command::BacklightOff, 0x05),
        (Command::BacklightMin, 0x06),
        (Command::BacklightLow, 0x07),
        (Command::BacklightMed, 0x08),
        (Command::BacklightHigh, 0x09),
        (Command::BacklightMax, 0x10),
        (Command::BuzzerOn, 0x15),
        (Command::BuzzerOff, 0x16),
        (Command::Unmute, 0x17),
        (Command::Init, 0x18),
        (Command::PowerReset, 0x19),
    ];
    for (c, b) in all {
        assert_eq!(c.code(), b);
    }
    assert_eq!(STC8H1K28_ADDR, 0x30);
}

#[test]
fn backlight_is_clamped_to_valid_range() {
    assert_eq!(backlight_level(0), 0x05);
    assert_eq!(backlight_level(0x04), 0x05);
    assert_eq!(backlight_level(0x05), 0x05);
    assert_eq!(backlight_level(0x0C), 0x0C);
    assert_eq!(backlight_level(0x10), 0x10);
    assert_eq!(backlight_level(0x11), 0x10);
    assert_eq!(backlight_level(0xFF), 0x10);
    assert_eq!(backlight_level(Command::BacklightMed.code()), 0x08);
}

#[test]
fn operation_sequences() {
    assert_eq!(send_command_ops(Command::Unmute), vec![PeripheralOp::Write(0x17)]);
    assert_eq!(send_command_ops(Command::BuzzerOn), vec![PeripheralOp::Write(0x15)]);
    assert_eq!(set_backlight_ops(200), vec![PeripheralOp::Write(0x10)]);
    assert_eq!(
        init_ops(),
        vec![PeripheralOp::Write(0x18), PeripheralOp::LogInitialized, PeripheralOp::SleepMs(10)]
    );
    assert_eq!(
        beep_ops(250),
        vec![PeripheralOp::Write(0x15), PeripheralOp::SleepMs(250), PeripheralOp::Write(0x16)]
    );
    assert_eq!(
        hardware_reset_ops(),
        vec![
            PeripheralOp::LogResetting,
            PeripheralOp::ResetPinOutput,
            PeripheralOp::ResetPinLow,
            PeripheralOp::SleepMs(150),
            PeripheralOp::ResetPinInput,
            PeripheralOp::ResetPinFloating,
            PeripheralOp::SleepMs(100),
        ]
    );
}

#[test]
fn runner_performs_all_ops_in_order() {
    let mut r = OpRunner::new(beep_ops(30));
    let mut seen = Vec::new();
    while let Some(op) = r.next_op() {
        seen.push(op);
        r.report(Ok(()));
    }
    assert_eq!(seen, beep_ops(30));
    assert_eq!(r.outcome(), Ok(()));
}

#[test]
fn runner_stops_at_first_failure() {
    let mut r = OpRunner::new(beep_ops(30));
    assert_eq!(r.next_op(), Some(PeripheralOp::Write(0x15)));
    r.report(Err(-7));
    assert_eq!(r.next_op(), None);
    assert_eq!(r.outcome(), Err(-7));
}

#[test]
fn runner_of_empty_sequence_succeeds() {
    let r = OpRunner::new(Vec::new());
    assert_eq!(r.next_op(), None);
    assert_eq!(r.outcome(), Ok(()));
}
