//! Device-tree property parsing, reply preambles, time arithmetic, and
//! error mapping.

use hel::hw::device::{finish_descriptor, finish_dt_property, finish_status, reply_preamble, DtProperty};
use hel::hw::error::{Error as HwError, Errors};
use hel::mailbox::answer_channel_request;
use hel::mbus::entity::finish_create;
use hel::Time;

#[test]
fn big_endian_cells_read_back_exactly() {
    let p = DtProperty::from_bytes(&vec![0x12, 0x34, 0x56, 0x78, 0x9a, 0xbc, 0xde, 0xf0, 0x11]);
    assert_eq!(p.get_u32(0), Some(0x12345678));
    assert_eq!(p.get_u32(4), Some(0x9abcdef0));
    // the field must be followed by at least one byte
    assert_eq!(p.get_u32(5), None);
    assert_eq!(p.get_u64(0), Some(0x123456789abcdef0));
    assert_eq!(p.get_u64(1), None);

    let empty = DtProperty::from_bytes(&vec![]);
    assert_eq!(empty.get_u32(0), None);
    assert_eq!(empty.get_u64(0), None);
}

#[test]
fn cell_counts_select_the_width() {
    let p = DtProperty::from_bytes(&vec![0, 0, 0, 7, 0, 0, 0, 9, 0xff]);
    assert_eq!(p.get_with_cells(0, 0), Some(0));
    assert_eq!(p.get_with_cells(0, 1), Some(7));
    assert_eq!(p.get_with_cells(4, 1), Some(9));
    assert_eq!(p.get_with_cells(0, 2), Some(0x0000000700000009));
    assert_eq!(p.get_with_cells(0, 3), None);
}

#[test]
fn nul_separated_strings_come_out_by_index() {
    let p = DtProperty::from_bytes(&vec![b'a', b'b', b'c', 0, b'd', b'e', 0, b'f']);
    assert_eq!(p.get_str(0), Some("abc"));
    assert_eq!(p.get_str(1), Some("de"));
    // the trailing unterminated run is the last segment
    assert_eq!(p.get_str(2), Some("f"));
    assert_eq!(p.get_str(3), None);

    let empty = DtProperty::from_bytes(&vec![]);
    assert_eq!(empty.get_str(0), Some(""));
    assert_eq!(empty.get_str(1), None);

    // invalid UTF-8 in the selected segment yields nothing
    let bad = DtProperty::from_bytes(&vec![0xff, 0xfe, 0, b'o', b'k']);
    assert_eq!(bad.get_str(0), None);
    assert_eq!(bad.get_str(1), Some("ok"));
}

#[test]
fn data_returns_the_raw_bytes() {
    let bytes = vec![1u8, 2, 3];
    let p = DtProperty::from_bytes(&bytes);
    assert_eq!(p.data(), &bytes);
}

#[test]
fn reply_preambles_carry_id_and_tail_size() {
    // id = 0x00000102, tail size = 0x00000a00, both little-endian
    let head = vec![0x02, 0x01, 0x00, 0x00, 0x00, 0x0a, 0x00, 0x00, 0xde, 0xad];
    assert_eq!(reply_preamble(&head), Some((0x0102, 0x0a00)));
    // fewer than eight bytes cannot hold a preamble
    assert_eq!(reply_preamble(&vec![1, 2, 3, 4, 5, 6, 7]), None);
    assert_eq!(reply_preamble(&vec![]), None);
}

#[test]
fn time_arithmetic_is_exact() {
    let t = Time::from_nanos(1_000);
    assert_eq!(t.nanos(), 1_000);
    assert_eq!(t.add_nanos(234).nanos(), 1_234);
    assert_eq!(t.sub_nanos(1_000).nanos(), 0);
    assert!(Time::from_nanos(5) < Time::from_nanos(6));
    assert_eq!(Time::from_nanos(7), Time::from_nanos(7));
}

#[test]
fn protocol_statuses_map_to_typed_errors() {
    assert_eq!(HwError::from(Errors::OutOfBounds), HwError::OutOfBounds);
    assert_eq!(HwError::from(Errors::IllegalArguments), HwError::IllegalArguments);
    assert_eq!(HwError::from(Errors::ResourceExhaustion), HwError::ResourceExhaustion);
    assert_eq!(HwError::from(Errors::DeviceError), HwError::DeviceError);
    assert_eq!(HwError::from(Errors::PropertyNotFound), HwError::PropertyNotFound);
    assert_eq!(
        HwError::PropertyNotFound.message(),
        "property not found".to_string()
    );
}

#[test]
fn entities_keep_their_identifiers() {
    let e = hel::mbus::entity::Entity::from_id(42);
    assert_eq!(e.id(), 42);
    let m = hel::mbus::entity::EntityManager::new(e, make_lane());
    assert_eq!(m.entity().id(), 42);
}

fn make_lane() -> hel::Handle {
    let mut exec: hel::Executor<hel::Script> = hel::Executor::new().unwrap();
    let (a, _b) = hel::create_stream(exec.inner(), false).unwrap();
    a
}

#[test]
fn devices_wrap_their_lane() {
    let lane = make_lane();
    let raw = lane.raw();
    let d = hel::hw::device::Device::new(lane);
    assert_eq!(d.handle().raw(), raw);
}

#[test]
fn channel_requests_are_answered_exactly_when_well_formed() {
    let reply = answer_channel_request(21, 21, Some(0x01020304)).unwrap();
    assert_eq!(reply, vec![0x04, 0x03, 0x02, 0x01]);
    // a wrong message id is refused
    assert_eq!(answer_channel_request(22, 21, Some(7)), None);
    // an untranslatable specifier is refused
    assert_eq!(answer_channel_request(21, 21, None), None);
}

#[test]
fn reply_statuses_finish_into_typed_results() {
    let found = finish_dt_property(Errors::Success, vec![1, 2, 3]).unwrap().unwrap();
    assert_eq!(found.data(), &vec![1, 2, 3]);
    assert_eq!(
        finish_dt_property(Errors::PropertyNotFound, vec![]).unwrap().is_none(),
        true
    );
    assert_eq!(
        finish_dt_property(Errors::DeviceError, vec![]).unwrap_err(),
        HwError::DeviceError
    );

    assert!(finish_status(Errors::Success).is_ok());
    assert_eq!(finish_status(Errors::OutOfBounds).unwrap_err(), HwError::OutOfBounds);
}

#[test]
fn descriptor_replies_need_the_descriptor() {
    let lane = make_lane();
    let raw = lane.raw();
    let got = finish_descriptor(Errors::Success, Some(lane)).unwrap();
    assert_eq!(got.raw(), raw);

    match finish_descriptor(Errors::Success, None) {
        Err(HwError::HelError(hel::Error::WrongResultKind)) => {}
        other => panic!("a success reply without a descriptor must be refused, got {:?}", other),
    }
    let lane2 = make_lane();
    assert_eq!(
        finish_descriptor(Errors::IllegalArguments, Some(lane2)).unwrap_err(),
        HwError::IllegalArguments
    );
}

#[test]
fn entity_creation_finishes_into_a_manager() {
    let lane = make_lane();
    let manager = finish_create(Errors::Success, 9, Some(lane)).unwrap();
    assert_eq!(manager.entity().id(), 9);

    match finish_create(Errors::Success, 9, None) {
        Err(HwError::HelError(hel::Error::WrongResultKind)) => {}
        other => panic!("a success reply without a lane must be refused, got {:?}", other),
    }
    assert_eq!(
        finish_create(Errors::ResourceExhaustion, 9, None).unwrap_err(),
        HwError::ResourceExhaustion
    );
}
