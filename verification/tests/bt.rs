use trouble_host::advertise::{BR_EDR_NOT_SUPPORTED, LE_GENERAL_DISCOVERABLE};
use dpia::bt::{AttError, GattReply, GattRequest, Server};

#[test]
fn read_of_humidity_takes_latest() {
    let mut s = Server::new();
    assert_eq!(s.respond(GattRequest::Read { handle: 3 }, 3, Some(57)), GattReply::Accept);
    assert_eq!(s.humidity.relative, 57);
    assert_eq!(s.respond(GattRequest::Read { handle: 3 }, 3, None), GattReply::Accept);
    assert_eq!(s.humidity.relative, 57);
}

#[test]
fn other_requests_are_refused() {
    let mut s = Server::new();
    assert_eq!(
        s.respond(GattRequest::Read { handle: 9 }, 3, Some(57)),
        GattReply::Reject(AttError::InvalidHandle)
    );
    assert_eq!(
        s.respond(GattRequest::Write { handle: 3 }, 3, Some(57)),
        GattReply::Reject(AttError::WriteNotPermitted)
    );
    assert_eq!(
        s.respond(GattRequest::Other, 3, Some(57)),
        GattReply::Reject(AttError::RequestNotSupported)
    );
    assert_eq!(s.humidity.relative, 0);
}

#[test]
fn advertising_names_the_device_then_gives_the_flags() {
    let flags = LE_GENERAL_DISCOVERABLE | BR_EDR_NOT_SUPPORTED;
    let data = dpia::bt::advertising_data(b"dpia", flags, 31).unwrap();
    assert_eq!(data, vec![5, 0x09, b'd', b'p', b'i', b'a', 2, 0x01, 0x06]);
    let beacon = dpia::bt::advertising_data(b"Trevor's IA", flags, 64).unwrap();
    assert_eq!(beacon.len(), 16);
    assert_eq!(&beacon[..2], &[12, 0x09]);
    assert_eq!(&beacon[2..13], b"Trevor's IA");
    assert_eq!(&beacon[13..], &[2, 0x01, 0x06]);
}

#[test]
fn advertising_data_must_fit_the_buffer() {
    assert_eq!(dpia::bt::advertising_data(b"dpia", 6, 9).map(|d| d.len()), Some(9));
    assert_eq!(dpia::bt::advertising_data(b"dpia", 6, 8), None);
    assert_eq!(dpia::bt::advertising_data(b"", 6, 4), None);
    assert_eq!(dpia::bt::advertising_data(b"", 6, 5), Some(vec![1, 0x09, 2, 0x01, 6]));
}
