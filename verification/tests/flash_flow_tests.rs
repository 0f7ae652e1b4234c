use cloudy_af::firmware::error::FirmwareError;
use cloudy_af::firmware::flasher::{
    df_update_step, flash_step, recovery_step, user_data, DfGoal, DfState, FlashAction, FlashEvent, FlashState,
    RecoveryState,
};

fn dataflash(pid: &[u8; 4], boot_flag: u8) -> Vec<u8> {
    let mut df = vec![0u8; 2048];
    df[13] = boot_flag;
    df[316..320].copy_from_slice(pid);
    df
}

fn other(a: &FlashAction) -> String {
    match a {
        FlashAction::Finish(Err(FirmwareError::Other(m))) => m.clone(),
        other => panic!("expected an Other error, got {other:?}"),
    }
}

#[test]
fn test_flash_refused_before_anything_is_written() {
    let image = vec![0u8; 2048];
    let (st, act) = flash_step(FlashState::Start, FlashEvent::Tick, &image, Some("E052"));
    assert!(matches!(st, FlashState::AwaitPid) && matches!(act, FlashAction::ReadDataflash));
    let (st, act) = flash_step(st, FlashEvent::Dataflash(dataflash(b"M041", 0)), &image, Some("E052"));
    assert!(matches!(st, FlashState::Done));
    assert_eq!(other(&act), "refusing to flash: connected device is M041, firmware is for E052");
    let (_, act) = flash_step(FlashState::Start, FlashEvent::Tick, &[0u8; 10], None);
    assert_eq!(other(&act), "implausible firmware image size: 10 bytes");
}

#[test]
fn test_flash_happy_path_with_one_retry() {
    let image = vec![0u8; 2048];
    let step = |st, ev| flash_step(st, ev, &image, Some("E052"));
    let (st, _) = step(FlashState::Start, FlashEvent::Tick);
    let (st, act) = step(st, FlashEvent::Dataflash(dataflash(b"E052", 0)));
    assert!(matches!(act, FlashAction::EnterLdrom));
    let (st, act) = step(st, FlashEvent::LdromDone(Ok(())));
    assert!(matches!(act, FlashAction::WriteStream { first: true }));
    let (st, act) = step(st, FlashEvent::StreamErr { err: FirmwareError::Other("x".into()), past_deadline: false });
    assert!(matches!(act, FlashAction::Sleep(1000)));
    let (st, act) = step(st, FlashEvent::Tick);
    assert!(matches!(act, FlashAction::WriteStream { first: false }));
    let (st, act) = step(st, FlashEvent::StreamOk);
    assert!(matches!(act, FlashAction::Restart));
    let (st, act) = step(st, FlashEvent::RestartOk);
    assert!(matches!(act, FlashAction::Sleep(500)));
    let (st, act) = step(st, FlashEvent::Tick);
    assert!(matches!(act, FlashAction::ReadDataflash));
    let (st, act) = step(st, FlashEvent::Dataflash(dataflash(b"E052", 0)));
    assert!(matches!(st, FlashState::Done) && matches!(act, FlashAction::Finish(Ok(()))));
}

#[test]
fn test_flash_stream_stops_at_the_deadline() {
    let image = vec![0u8; 2048];
    let (_, act) = flash_step(
        FlashState::Streaming,
        FlashEvent::StreamErr { err: FirmwareError::Other("gone".into()), past_deadline: true },
        &image,
        None,
    );
    assert_eq!(other(&act), "gone");
}

#[test]
fn test_flash_gives_up_after_ten_restarts() {
    let image = vec![0u8; 2048];
    let mut st = FlashState::Restarting { tries: 0 };
    let mut restarts = 1;
    loop {
        let (s, act) = flash_step(st, FlashEvent::RestartErr(FirmwareError::Other("usb".into())), &image, None);
        assert!(matches!(act, FlashAction::Sleep(300)));
        let (s, act) = flash_step(s, FlashEvent::Tick, &image, None);
        match act {
            FlashAction::Restart => restarts += 1,
            a => {
                assert_eq!(other(&a), "usb");
                break;
            }
        }
        st = s;
    }
    assert_eq!(restarts, 10);
}

#[test]
fn test_flash_checks_the_boot_twenty_times() {
    let image = vec![0u8; 2048];
    let mut st = FlashState::VerifyWait { polls: 0 };
    let mut checks = 0;
    loop {
        let (s, act) = flash_step(st, FlashEvent::Tick, &image, None);
        assert!(matches!(act, FlashAction::ReadDataflash));
        checks += 1;
        let (s, act) = flash_step(s, FlashEvent::Dataflash(dataflash(b"E052", 1)), &image, None);
        match act {
            FlashAction::Sleep(500) => st = s,
            a => {
                assert_eq!(other(&a), "device did not come back after flashing");
                break;
            }
        }
    }
    assert_eq!(checks, 20);
}

#[test]
fn test_bootloader_wait_after_no_reenumeration() {
    let image = vec![0u8; 2048];
    let (st, act) = flash_step(FlashState::EnsuringLdrom, FlashEvent::LdromDone(Err(FirmwareError::DidNotReenumerate)), &image, None);
    assert!(matches!(act, FlashAction::Progress(_)));
    let (st, act) = flash_step(st, FlashEvent::Tick, &image, None);
    assert!(matches!(act, FlashAction::Sleep(500)));
    let (st, act) = flash_step(st, FlashEvent::Tick, &image, None);
    assert!(matches!(act, FlashAction::ReadDataflash));
    let (st, act) = flash_step(st, FlashEvent::Dataflash(dataflash(b"E052", 1)), &image, None);
    match act {
        FlashAction::Progress(m) => assert_eq!(m, "device found in bootloader mode \u{2014} flashing\u{2026}"),
        a => panic!("unexpected {a:?}"),
    }
    let (_, act) = flash_step(st, FlashEvent::Tick, &image, None);
    assert!(matches!(act, FlashAction::WriteStream { first: true }));
}

#[test]
fn test_dataflash_updates() {
    // Already in LDROM mode: nothing is written.
    let (st, act) = df_update_step(DfState::Start, FlashEvent::Tick, &DfGoal::Ldrom);
    assert!(matches!(act, FlashAction::ReadDataflash));
    let (_, act) = df_update_step(st, FlashEvent::Dataflash(dataflash(b"E052", 1)), &DfGoal::Ldrom);
    assert!(matches!(act, FlashAction::Finish(Ok(()))));
    // A product-ID repair writes the patched user area, then checks it stuck.
    let goal = DfGoal::ProductId(b"E052".to_vec());
    let df = dataflash(b"M041", 1);
    let (st, act) = df_update_step(DfState::Reading, FlashEvent::Dataflash(df.clone()), &goal);
    match act {
        FlashAction::WriteDataflash(u) => assert_eq!(u, user_data(&df, Some(&b"E052"[..]), 0)),
        a => panic!("unexpected {a:?}"),
    }
    let (st, act) = df_update_step(st, FlashEvent::DataflashWritten(Ok(())), &goal);
    assert!(matches!(act, FlashAction::Sleep(100)));
    let (st, act) = df_update_step(st, FlashEvent::Tick, &goal);
    assert!(matches!(act, FlashAction::Restart));
    let (st, _) = df_update_step(st, FlashEvent::RestartOk, &goal);
    let (st, _) = df_update_step(st, FlashEvent::Tick, &goal);
    let (_, act) = df_update_step(st, FlashEvent::Dataflash(dataflash(b"E052", 0)), &goal);
    assert!(matches!(act, FlashAction::Finish(Ok(()))));
    let (_, act) = df_update_step(DfState::Start, FlashEvent::Tick, &DfGoal::ProductId(b"E05".to_vec()));
    assert_eq!(other(&act), "product ID must be 4 ASCII bytes");
    let (_, act) = df_update_step(DfState::PollRead { polls: 29 }, FlashEvent::DataflashErr(FirmwareError::Other("x".into())), &DfGoal::Ldrom);
    assert!(matches!(act, FlashAction::Finish(Err(FirmwareError::DidNotReenumerate))));
}

#[test]
fn test_recovery_waits_for_the_right_device() {
    let image = vec![0u8; 2048];
    let step = |st, ev| recovery_step(st, ev, &image, Some("E052"));
    let (st, act) = step(RecoveryState::Start, FlashEvent::Tick);
    assert!(matches!(act, FlashAction::Progress(_)));
    let (st, act) = step(st, FlashEvent::Tick);
    assert!(matches!(act, FlashAction::ReadDataflash));
    let (st, act) = step(st, FlashEvent::Dataflash(dataflash(b"M041", 0)));
    match act {
        FlashAction::Progress(m) => assert_eq!(m, "found M041, need E052 \u{2014} still waiting"),
        a => panic!("unexpected {a:?}"),
    }
    let (st, act) = step(st, FlashEvent::Tick);
    assert!(matches!(act, FlashAction::Sleep(2000)));
    let (st, _) = step(st, FlashEvent::Tick);
    let (st, act) = step(st, FlashEvent::Dataflash(dataflash(b"E052", 0)));
    match act {
        FlashAction::Progress(m) => assert_eq!(m, "device E052 found"),
        a => panic!("unexpected {a:?}"),
    }
    let (st, _) = step(st, FlashEvent::Tick);
    let (st, act) = step(st, FlashEvent::Tick);
    assert!(matches!(act, FlashAction::RunFlash));
    let (st, act) = step(st, FlashEvent::FlashDone(Err(FirmwareError::Other("gone".into()))));
    match act {
        FlashAction::Progress(m) => assert_eq!(m, "flash attempt failed: gone \u{2014} waiting for the device again"),
        a => panic!("unexpected {a:?}"),
    }
    let (st, act) = step(st, FlashEvent::Tick);
    assert!(matches!(act, FlashAction::Sleep(1000)));
    let (_, act) = step(st, FlashEvent::Tick);
    assert!(matches!(act, FlashAction::Progress(_)));
}

#[test]
fn test_error_messages() {
    assert_eq!(FirmwareError::Io("disk full".into()).message(), "IO error: disk full");
    assert_eq!(FirmwareError::Xml("bad tag".into()).message(), "XML parse error: bad tag");
    assert_eq!(FirmwareError::UnknownEncryption.message(), "Unknown encryption");
    assert_eq!(FirmwareError::UnsupportedEncryption("X".into()).message(), "Unsupported encryption: X");
    assert_eq!(FirmwareError::DefinitionNotFound.message(), "Definition not found");
    assert_eq!(
        FirmwareError::IncompatiblePatch { offset: 1234, expected: 0x1F, found: 255 }.message(),
        "Incompatible patch at offset 1234: expected 31, found 255"
    );
    assert_eq!(
        FirmwareError::Conflict { offset: 7, other: "a.xml".into() }.message(),
        "Conflict with patch a.xml at offset 7"
    );
    assert_eq!(FirmwareError::DidNotReenumerate.message(), "device did not re-enumerate in bootloader mode");
    assert_eq!(FirmwareError::Other("plain".into()).message(), "plain");
}
