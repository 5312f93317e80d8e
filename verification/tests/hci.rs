use pax::mgmt::{
    after_spoof_command, bdaddr_le, encode_command, read_info_command, set_powered_command, set_public_address_command,
    spoof_commands, CommandStep, CommandWait, InfoStep, InfoWait, SetAddressError, SpoofProgress,
    MGMT_EV_CMD_COMPLETE,
    MGMT_EV_CMD_STATUS, MGMT_OP_READ_INFO, MGMT_OP_SET_POWERED, MGMT_OP_SET_PUBLIC_ADDRESS,
};

#[test]
fn a_failed_command_ends_a_change_of_address() {
    assert_eq!(spoof_commands(0, [0; 6]).len(), 3);
    assert!(matches!(after_spoof_command(1, Ok(())), SpoofProgress::Next(1)));
    assert!(matches!(after_spoof_command(2, Ok(())), SpoofProgress::Next(2)));
    assert!(matches!(after_spoof_command(3, Ok(())), SpoofProgress::Done(Ok(()))));
    assert!(matches!(
        after_spoof_command(2, Err(SetAddressError::Command(0x0C))),
        SpoofProgress::Done(Err(SetAddressError::Command(0x0C)))
    ));
}

#[test]
fn set_public_address_command_is_framed_correctly() {
    assert_eq!(MGMT_OP_SET_PUBLIC_ADDRESS, 0x0039);

    let addr = [0x1E, 0x03, 0xE0, 0xD2, 0x10, 0xCB];
    assert_eq!(bdaddr_le(addr), [0xCB, 0x10, 0xD2, 0xE0, 0x03, 0x1E]);

    let cmd = encode_command(MGMT_OP_SET_PUBLIC_ADDRESS, 0, &bdaddr_le(addr));
    assert_eq!(
        cmd,
        vec![
            0x39, 0x00, // opcode, little-endian
            0x00, 0x00, // controller index
            0x06, 0x00, // parameter length
            0xCB, 0x10, 0xD2, 0xE0, 0x03, 0x1E, // address, little-endian
        ]
    );
    assert_eq!(set_public_address_command(0, addr), cmd);
}

#[test]
fn read_info_and_set_powered_framing() {
    assert_eq!(MGMT_OP_READ_INFO, 0x0004);
    assert_eq!(MGMT_OP_SET_POWERED, 0x0005);
    assert_eq!(
        encode_command(MGMT_OP_READ_INFO, 0, &[]),
        vec![0x04, 0x00, 0x00, 0x00, 0x00, 0x00]
    );
    assert_eq!(
        encode_command(MGMT_OP_SET_POWERED, 0, &[1]),
        vec![0x05, 0x00, 0x00, 0x00, 0x01, 0x00, 0x01]
    );
    assert_eq!(read_info_command(0), encode_command(MGMT_OP_READ_INFO, 0, &[]));
    assert_eq!(set_powered_command(0, true), encode_command(MGMT_OP_SET_POWERED, 0, &[1]));
    assert_eq!(set_powered_command(0, false), encode_command(MGMT_OP_SET_POWERED, 0, &[0]));
}

#[test]
fn status_str_covers_known_codes() {
    assert_eq!(SetAddressError::status_str(0x00), "success");
    assert!(SetAddressError::status_str(0x0C).contains("not supported"));
    assert_eq!(SetAddressError::status_str(0xff), "unknown status");
}

#[test]
fn byte_order_swaps_back() {
    let addr = [1, 2, 3, 4, 5, 6];
    assert_eq!(bdaddr_le(bdaddr_le(addr)), addr);
}

#[test]
fn spoofing_cycles_the_power() {
    let addr = [2, 0, 0, 0x11, 0x22, 0x33];
    let commands = spoof_commands(3, addr);
    assert_eq!(
        commands,
        vec![
            (MGMT_OP_SET_POWERED, set_powered_command(3, false)),
            (MGMT_OP_SET_PUBLIC_ADDRESS, set_public_address_command(3, addr)),
            (MGMT_OP_SET_POWERED, set_powered_command(3, true)),
        ]
    );
}

fn complete(opcode: u16, status: u8) -> Vec<u8> {
    encode_command(MGMT_EV_CMD_COMPLETE, 0, &[opcode as u8, (opcode >> 8) as u8, status])
}

#[test]
fn completed_command_is_recognised() {
    let mut wait = CommandWait::new(MGMT_OP_SET_POWERED);
    assert!(matches!(wait.on_reply(&complete(MGMT_OP_READ_INFO, 0)), CommandStep::More));
    assert!(matches!(
        wait.on_reply(&complete(MGMT_OP_SET_POWERED, 0)),
        CommandStep::Done(Ok(()))
    ));
}

#[test]
fn refused_command_names_its_status() {
    let mut wait = CommandWait::new(MGMT_OP_SET_PUBLIC_ADDRESS);
    let reply = encode_command(
        MGMT_EV_CMD_STATUS,
        0,
        &[MGMT_OP_SET_PUBLIC_ADDRESS as u8, 0, 0x0C],
    );
    match wait.on_reply(&reply) {
        CommandStep::Done(Err(SetAddressError::Command(status))) => assert_eq!(status, 0x0C),
        other => panic!("unexpected: {other:?}"),
    }
}

#[test]
fn unrelated_replies_run_out() {
    let mut wait = CommandWait::new(MGMT_OP_SET_POWERED);
    let noise = complete(MGMT_OP_READ_INFO, 0);
    let mut seen = 0;
    loop {
        seen += 1;
        match wait.on_reply(&noise) {
            CommandStep::More => assert!(seen < 100),
            CommandStep::Done(Err(SetAddressError::Io(_))) => break,
            other => panic!("unexpected: {other:?}"),
        }
    }
    assert_eq!(seen, 16);
}

#[test]
fn info_is_read_from_a_completion() {
    let mut params = vec![MGMT_OP_READ_INFO as u8, 0, 0];
    params.extend([1, 2, 3, 4, 5, 6]); // address
    params.push(9); // version
    params.extend([0x02, 0x00]); // manufacturer
    let reply = encode_command(MGMT_EV_CMD_COMPLETE, 0, &params);
    let mut wait = InfoWait::new();
    match wait.on_reply(&reply) {
        InfoStep::Done(Some(info)) => {
            assert_eq!(info.hci_version, 9);
            assert_eq!(info.manufacturer, 2);
        }
        other => panic!("unexpected: {other:?}"),
    }
}

#[test]
fn address_errors_explain_themselves() {
    assert_eq!(
        SetAddressError::Command(0x0C).to_string(),
        "mgmt command failed: not supported (controller cannot change its address) (0x0c)"
    );
    assert_eq!(
        SetAddressError::Io("no socket".into()).to_string(),
        "mgmt socket I/O error: no socket"
    );
    assert_eq!(
        SetAddressError::Unsupported.to_string(),
        "setting the controller address is only supported on Linux"
    );
}
