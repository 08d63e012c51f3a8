use holter_bridge::codec::encode;
use holter_bridge::codec::Msg;
use holter_bridge::codec::MAX_MSG_SZ;
use holter_bridge::parser::Error;
use holter_bridge::parser::OperationStatus;
use holter_bridge::parser::RegisterValue;
use holter_bridge::session::Phase;
use holter_bridge::session::Session;
use holter_bridge::session::SessionAction;
use holter_bridge::session::SessionEvent;
use holter_bridge::session::SessionFault;
use holter_bridge::usb::AcquireStep;
use holter_bridge::usb::USBDevices;
use holter_bridge::usb::UsbDescriptor;
use holter_bridge::usb::PID;
use holter_bridge::usb::VID;
use holter_bridge::usbfutures::Device;
use holter_bridge::usbfutures::ReadOutcome;
use holter_bridge::usbfutures::ReadStep;
use holter_bridge::usbfutures::write_progress;
use holter_bridge::usbfutures::WorkerOutput;
use holter_bridge::usbfutures::WriteStep;

fn vis_on() -> Msg {
    Msg(OperationStatus::Write, "/ctrl/vis".to_string(), RegisterValue::from_bool(true))
}

fn ok_write() -> Vec<u8> {
    let mut bytes = vec![0x8E, 0x04, 9];
    bytes.extend_from_slice(b"/ctrl/vis");
    bytes.push(0);
    bytes
}

fn reading() -> Session {
    let mut session = Session::new();
    assert!(matches!(session.device_loop(SessionEvent::Command(vis_on())), SessionAction::Write(_)));
    assert_eq!(session.device_loop(SessionEvent::Written), SessionAction::Read(MAX_MSG_SZ));
    session
}

#[test]
fn end_to_end_write_is_acknowledged() {
    let mut reg: USBDevices<u32> = USBDevices::new();
    reg.refresh(&vec![UsbDescriptor { vendor_id: VID, product_id: PID, bus_number: 1, address: 4 }]);
    assert_eq!(reg.devices()[0].path, "1:4");
    assert_eq!(reg.acquire_device("1:4"), AcquireStep::Open);
    let mut device = Device::new();
    let mut session = Session::new();
    assert_eq!(reg.finish_acquire("1:4", 1), None);

    let mut expected = vec![0x8E, 0x02, 9];
    expected.extend_from_slice(b"/ctrl/vis");
    expected.extend_from_slice(&[6, 0x01]);
    let action = session.device_loop(SessionEvent::Command(vis_on()));
    assert_eq!(action, SessionAction::Write(expected.clone()));
    assert_eq!(device.poll_write(expected.len(), 0), WriteStep::Packet { start: 0, end: expected.len() });
    assert_eq!(write_progress(0, expected.len(), expected.len()), Some(expected.len()));
    assert_eq!(device.poll_write(expected.len(), expected.len()), WriteStep::Done(expected.len()));
    let action = session.device_loop(SessionEvent::Written);
    assert_eq!(action, SessionAction::Read(MAX_MSG_SZ));

    assert_eq!(device.poll_read(MAX_MSG_SZ), ReadStep::Request);
    let outcome = device.deliver(Some(WorkerOutput::Data(ok_write())), MAX_MSG_SZ);
    let bytes = match outcome {
        ReadOutcome::Ready(bytes) => bytes,
        other => panic!("{:?}", other),
    };
    let action = session.device_loop(SessionEvent::Read(bytes));
    let reply = Msg(OperationStatus::OK_WRITE, "/ctrl/vis".to_string(), RegisterValue::UNIT);
    assert_eq!(action, SessionAction::Reply(reply));
    assert_eq!(session.phase(), Phase::Idle);
}

#[test]
fn vanished_device_ends_the_session_with_a_fault() {
    let mut reg: USBDevices<u32> = USBDevices::new();
    reg.refresh(&vec![UsbDescriptor { vendor_id: VID, product_id: PID, bus_number: 1, address: 4 }]);
    assert_eq!(reg.acquire_device("1:4"), AcquireStep::Open);
    assert_eq!(reg.finish_acquire("1:4", 1), None);
    let mut session = Session::new();

    reg.refresh(&vec![]);
    assert!(reg.devices().is_empty());
    assert_eq!(reg.acquire_device("1:4"), AcquireStep::NoDevice);

    assert_eq!(session.device_loop(SessionEvent::Unplugged), SessionAction::Wait);
    assert!(session.unplugged());
    assert_eq!(session.phase(), Phase::Idle);
    assert!(matches!(session.device_loop(SessionEvent::Command(vis_on())), SessionAction::Write(_)));
    let action = session.device_loop(SessionEvent::WriteFailed);
    assert_eq!(action, SessionAction::Fail(SessionFault::Hardware));
    assert_eq!(session.phase(), Phase::Done);
}

#[test]
fn unplugged_session_goes_on_until_a_transfer_fails() {
    let mut session = Session::new();
    assert!(!session.unplugged());
    assert_eq!(session.device_loop(SessionEvent::Unplugged), SessionAction::Wait);
    assert!(matches!(session.device_loop(SessionEvent::Command(vis_on())), SessionAction::Write(_)));
    assert_eq!(session.device_loop(SessionEvent::Written), SessionAction::Read(MAX_MSG_SZ));
    assert!(matches!(session.device_loop(SessionEvent::Read(ok_write())), SessionAction::Reply(_)));
    assert!(session.unplugged());
    assert_eq!(session.phase(), Phase::Idle);
    assert!(matches!(session.device_loop(SessionEvent::Command(vis_on())), SessionAction::Write(_)));
    assert_eq!(session.device_loop(SessionEvent::Written), SessionAction::Read(MAX_MSG_SZ));
    assert_eq!(session.device_loop(SessionEvent::ReadFailed), SessionAction::Fail(SessionFault::Hardware));
    assert!(session.unplugged());
}

#[test]
fn failed_read_ends_the_session_with_a_fault() {
    let mut session = reading();
    assert_eq!(session.device_loop(SessionEvent::ReadFailed), SessionAction::Fail(SessionFault::Hardware));
    assert_eq!(session.phase(), Phase::Done);
}

#[test]
fn reply_is_gathered_from_partial_reads() {
    let reply = ok_write();
    for cut in 1..reply.len() {
        let mut session = reading();
        let action = session.device_loop(SessionEvent::Read(reply[..cut].to_vec()));
        assert_eq!(action, SessionAction::Read(MAX_MSG_SZ - cut));
        assert_eq!(session.phase(), Phase::Reading);
        let action = session.device_loop(SessionEvent::Read(reply[cut..].to_vec()));
        let msg = Msg(OperationStatus::OK_WRITE, "/ctrl/vis".to_string(), RegisterValue::UNIT);
        assert_eq!(action, SessionAction::Reply(msg));
    }
}

#[test]
fn reply_byte_by_byte() {
    let mut reply = vec![0x8E, 0x03, 3];
    reply.extend_from_slice(b"/hr");
    reply.extend_from_slice(&[5, 72, 0]);
    let mut session = reading();
    for (i, b) in reply.iter().enumerate() {
        let action = session.device_loop(SessionEvent::Read(vec![*b]));
        if i + 1 < reply.len() {
            assert_eq!(action, SessionAction::Read(MAX_MSG_SZ - i - 1));
        } else {
            let msg = Msg(OperationStatus::OK_READ, "/hr".to_string(), RegisterValue::U16(72));
            assert_eq!(action, SessionAction::Reply(msg));
        }
    }
}

#[test]
fn session_serves_one_command_after_another() {
    let mut session = Session::new();
    for _ in 0..3 {
        assert!(matches!(session.device_loop(SessionEvent::Command(vis_on())), SessionAction::Write(_)));
        assert_eq!(session.device_loop(SessionEvent::Written), SessionAction::Read(MAX_MSG_SZ));
        assert!(matches!(session.device_loop(SessionEvent::Read(ok_write())), SessionAction::Reply(_)));
    }
    let read = Msg(OperationStatus::Read, "/hr".to_string(), RegisterValue::UNIT);
    let bytes = encode(&read).unwrap();
    assert_eq!(session.device_loop(SessionEvent::Command(read)), SessionAction::Write(bytes));
}

#[test]
fn protocol_fault_ends_the_session() {
    let mut session = reading();
    let action = session.device_loop(SessionEvent::Read(vec![0x00, 0x01]));
    assert_eq!(action, SessionAction::Fail(SessionFault::Protocol(Error::BadProtocol)));
    assert_eq!(session.phase(), Phase::Done);

    let mut session = reading();
    let action = session.device_loop(SessionEvent::Read(vec![0x8E, 0x04, 0, 77]));
    assert_eq!(action, SessionAction::Fail(SessionFault::Protocol(Error::BadFormat)));

    let mut session = reading();
    let action = session.device_loop(SessionEvent::Read(vec![0x8E, 0x04, 0, 7, 1, 0xFF]));
    assert_eq!(action, SessionAction::Fail(SessionFault::Protocol(Error::BadParam)));
}

#[test]
fn too_many_bytes_are_an_overflow() {
    let mut session = reading();
    let action = session.device_loop(SessionEvent::Read(vec![0x8E; MAX_MSG_SZ + 1]));
    assert_eq!(action, SessionAction::Fail(SessionFault::Overflow));
    let mut session = reading();
    let mut head = vec![0x8E, 0x03, 255];
    head.extend_from_slice(&[b'a'; 200]);
    assert_eq!(session.device_loop(SessionEvent::Read(head)), SessionAction::Read(MAX_MSG_SZ - 203));
    let action = session.device_loop(SessionEvent::Read(vec![b'a'; MAX_MSG_SZ - 202]));
    assert_eq!(action, SessionAction::Fail(SessionFault::Overflow));
}

#[test]
fn command_that_cannot_be_encoded_is_rejected() {
    let mut session = Session::new();
    let bad = Msg(OperationStatus::OK_READ, "/hr".to_string(), RegisterValue::UNIT);
    assert_eq!(session.device_loop(SessionEvent::Command(bad)), SessionAction::Reject(Error::UnsupportedCode));
    assert_eq!(session.phase(), Phase::Idle);
    let big = Msg(OperationStatus::Write, "/hr".to_string(), RegisterValue::BYTES(vec![0; 256]));
    assert_eq!(session.device_loop(SessionEvent::Command(big)), SessionAction::Reject(Error::ValueTooLarge));
    let long = Msg(OperationStatus::Write, "p".repeat(256), RegisterValue::UNIT);
    assert_eq!(session.device_loop(SessionEvent::Command(long)), SessionAction::Reject(Error::PathTooLong));
    assert!(matches!(session.device_loop(SessionEvent::Command(vis_on())), SessionAction::Write(_)));
}

#[test]
fn teardown_is_acknowledged() {
    let mut session = Session::new();
    assert_eq!(session.device_loop(SessionEvent::Teardown), SessionAction::Exit { acknowledge: true });
    assert_eq!(session.phase(), Phase::Done);
    let mut session = reading();
    assert_eq!(session.device_loop(SessionEvent::Teardown), SessionAction::Exit { acknowledge: true });
}

#[test]
fn closed_command_channel_ends_without_handshake() {
    let mut session = Session::new();
    assert_eq!(session.device_loop(SessionEvent::CommandsClosed), SessionAction::Exit { acknowledge: false });
    assert_eq!(session.phase(), Phase::Done);
}

#[test]
fn events_out_of_turn_are_faults() {
    let out_of_turn = SessionAction::Fail(SessionFault::OutOfTurn);
    let mut session = Session::new();
    assert_eq!(session.device_loop(SessionEvent::Written), out_of_turn);
    let mut session = Session::new();
    assert_eq!(session.device_loop(SessionEvent::Read(vec![1])), out_of_turn);
    let mut session = Session::new();
    assert_eq!(session.device_loop(SessionEvent::ReadFailed), out_of_turn);
    let mut session = Session::new();
    assert_eq!(session.device_loop(SessionEvent::WriteFailed), out_of_turn);
    let mut session = reading();
    assert_eq!(session.device_loop(SessionEvent::Unplugged), out_of_turn);
    let mut session = reading();
    assert_eq!(session.device_loop(SessionEvent::Command(vis_on())), out_of_turn);
    assert_eq!(session.phase(), Phase::Done);
    assert_eq!(session.device_loop(SessionEvent::Command(vis_on())), out_of_turn);
    assert_eq!(session.handle_msg(&vis_on()), out_of_turn);
    assert_eq!(session.handle_read(&[1, 2]), out_of_turn);
}
