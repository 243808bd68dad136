use bytes::Bytes;
use rustqueue::protocol::command::{Command, CommandError};
use rustqueue::protocol::frame::{encode_frame, encode_message, encode_message_header, FrameType};
use rustqueue::protocol::identity::{CellId, GlobalGroupId, GroupKey, InternalMessageId};
use rustqueue::protocol::mpub::{parse_mpub_body, parse_mpub_bytes, MpubError, MAX_MPUB_MESSAGES};
use rustqueue::protocol::name::{validate_name, NameError};
use rustqueue::protocol::{CLOSE_WAIT, HEARTBEAT, MAGIC_V2, MAX_BATCH_BYTES, MAX_MESSAGE_BYTES, OK};

#[test]
fn parses_core_commands() {
    assert_eq!(
        Command::parse(b"SUB orders workers\n").unwrap(),
        Command::Subscribe {
            topic: "orders".into(),
            channel: "workers".into()
        }
    );
    assert_eq!(Command::parse(b"RDY 100\n").unwrap(), Command::Ready(100));
    assert_eq!(Command::parse(b"RDY\n").unwrap(), Command::Ready(1));
    assert_eq!(
        Command::parse(b"REQ 00000000000000ff 42\n").unwrap(),
        Command::Requeue {
            id: 255,
            delay_ms: 42
        }
    );
    assert_eq!(
        Command::parse(b"REQ 00000000000000ff -1\n").unwrap(),
        Command::Requeue {
            id: 255,
            delay_ms: -1
        }
    );
}

#[test]
fn parses_every_verb_and_refuses_the_rest() {
    assert_eq!(Command::parse(b"IDENTIFY\r\n"), Ok(Command::Identify));
    assert_eq!(Command::parse(b"AUTH"), Ok(Command::Auth));
    assert_eq!(Command::parse(b"CLS\n"), Ok(Command::Close));
    assert_eq!(Command::parse(b" NOP \n"), Ok(Command::Noop));
    assert_eq!(
        Command::parse(b"PUB orders\n"),
        Ok(Command::Publish {
            topic: "orders".into()
        })
    );
    assert_eq!(
        Command::parse(b"MPUB\torders\n"),
        Ok(Command::MultiPublish {
            topic: "orders".into()
        })
    );
    assert_eq!(
        Command::parse(b"DPUB orders +250\n"),
        Ok(Command::DeferredPublish {
            topic: "orders".into(),
            delay_ms: 250
        })
    );
    assert_eq!(
        Command::parse(b"FIN 000000000123ABCD"),
        Ok(Command::Finish(0x0123_abcd))
    );
    assert_eq!(
        Command::parse(b"TOUCH +00000000123abcd"),
        Ok(Command::Touch(0x0123_abcd))
    );
    assert_eq!(
        Command::parse(b"\xff"),
        Err(CommandError::Invalid("command is not UTF-8"))
    );
    assert_eq!(
        Command::parse(b" \r\n"),
        Err(CommandError::Invalid("empty command"))
    );
    assert_eq!(
        Command::parse(b"PUB\n"),
        Err(CommandError::Invalid("unsupported command or arguments"))
    );
    assert_eq!(
        Command::parse(b"RDY -1\n"),
        Err(CommandError::Invalid("expected unsigned integer"))
    );
    assert_eq!(
        Command::parse(b"RDY 18446744073709551616\n"),
        Err(CommandError::Invalid("expected unsigned integer"))
    );
    assert_eq!(
        Command::parse(b"REQ 00000000000000ff soon\n"),
        Err(CommandError::Invalid("expected integer"))
    );
    assert_eq!(
        Command::parse(b"FIN ff\n"),
        Err(CommandError::Invalid("message ID must contain 16 hex bytes"))
    );
    assert_eq!(Command::parse(b"PUB bad/name"), Err(CommandError::BadTopic));
    assert_eq!(
        Command::parse(b"SUB good bad/name"),
        Err(CommandError::BadChannel)
    );
    assert_eq!(
        CommandError::Invalid("empty command").message(),
        "E_INVALID empty command"
    );
    assert_eq!(
        CommandError::BadTopic.message(),
        "E_BAD_TOPIC invalid topic"
    );
}

#[test]
fn accepts_nsq_names() {
    for name in ["topic", "orders.v1", "a_b-c", "jobs#ephemeral"] {
        assert!(validate_name(name).is_ok(), "{name}");
    }
}

#[test]
fn rejects_invalid_names() {
    for name in ["", "bad/name", "bad name", "#ephemeral"] {
        assert!(validate_name(name).is_err(), "{name}");
    }
}

#[test]
fn name_errors_tell_length_from_characters() {
    assert_eq!(validate_name(&"a".repeat(64)), Ok(()));
    assert_eq!(validate_name(&"a".repeat(65)), Err(NameError::Length));
    assert_eq!(validate_name("#ephemeral"), Err(NameError::Length));
    assert_eq!(validate_name("caf\u{e9}"), Err(NameError::Character));
    assert_eq!(
        NameError::Character.message(),
        "name contains an unsupported character"
    );
}

#[test]
fn parses_batch_atomically() {
    let mut body = 2u32.to_be_bytes().to_vec();
    body.extend_from_slice(&3u32.to_be_bytes());
    body.extend_from_slice(b"one");
    body.extend_from_slice(&3u32.to_be_bytes());
    body.extend_from_slice(b"two");
    assert_eq!(
        parse_mpub_body(&body, 10).unwrap(),
        vec![b"one".to_vec(), b"two".to_vec()]
    );
    body.push(0);
    assert!(parse_mpub_body(&body, 10).is_err());
}

#[test]
fn byte_parser_slices_the_original_allocation() {
    let mut body = 1u32.to_be_bytes().to_vec();
    body.extend_from_slice(&4u32.to_be_bytes());
    body.extend_from_slice(b"body");
    let body = Bytes::from(body);
    let message = parse_mpub_bytes(body.clone(), 10).unwrap().pop().unwrap();
    assert_eq!(message, Bytes::from_static(b"body"));
    assert_eq!(message.as_ptr(), body[8..].as_ptr());
}

#[test]
fn rejects_batches_that_would_overflow_durable_entry_metadata() {
    let body = Bytes::copy_from_slice(&((MAX_MPUB_MESSAGES + 1) as u32).to_be_bytes());
    assert_eq!(
        parse_mpub_bytes(body, 1),
        Err(MpubError::BadBody("invalid batch count"))
    );
}

#[test]
fn every_malformed_batch_has_its_own_error() {
    assert_eq!(
        parse_mpub_body(&[0, 0, 0], 1),
        Err(MpubError::BadBody("missing batch count"))
    );
    assert_eq!(
        parse_mpub_body(&[0, 0, 0, 0], 1),
        Err(MpubError::BadBody("invalid batch count"))
    );
    assert_eq!(
        parse_mpub_body(&[0, 0, 0, 1, 0, 0, 0], 1),
        Err(MpubError::BadMessage("truncated message length"))
    );
    assert_eq!(
        parse_mpub_body(&[0, 0, 0, 1, 0, 0, 0, 0], 1),
        Err(MpubError::BadMessage("invalid message length"))
    );
    assert_eq!(
        parse_mpub_body(&[0, 0, 0, 1, 0, 0, 0, 2, 7, 7], 1),
        Err(MpubError::BadMessage("invalid message length"))
    );
    assert_eq!(
        parse_mpub_body(&[0, 0, 0, 1, 0, 0, 0, 1, 7, 7], 1),
        Err(MpubError::BadBody("batch contains trailing bytes"))
    );
    assert_eq!(MpubError::BadBody("x").code(), "E_BAD_BODY");
    assert_eq!(MpubError::BadMessage("x").code(), "E_BAD_MESSAGE");
    assert_eq!(MpubError::BadMessage("x").message(), "x");
}

#[test]
fn frame_uses_network_byte_order() {
    let frame = encode_frame(FrameType::Response, b"OK");
    assert_eq!(&frame[..], &[0, 0, 0, 6, 0, 0, 0, 0, b'O', b'K']);
}

#[test]
fn message_is_encoded_directly_into_the_final_frame() {
    let frame = encode_message(7, 2, 0x0123_abcd, b"body");
    assert_eq!(u32::from_be_bytes(frame[..4].try_into().unwrap()), 34);
    assert_eq!(i32::from_be_bytes(frame[4..8].try_into().unwrap()), 2);
    assert_eq!(&frame[18..34], b"000000000123abcd");
    assert_eq!(&frame[34..], b"body");
}

#[test]
fn message_header_can_be_written_separately_from_the_body() {
    let header = encode_message_header(7, 2, 0x0123_abcd, 4);
    assert_eq!(u32::from_be_bytes(header[..4].try_into().unwrap()), 34);
    assert_eq!(&header[18..34], b"000000000123abcd");
}

#[test]
fn message_header_keeps_negative_timestamps_and_attempts() {
    let header = encode_message_header(-1, 0x0102, 1, 0);
    assert_eq!(&header[8..16], &[0xff; 8]);
    assert_eq!(&header[16..18], &[1, 2]);
}

#[test]
fn internal_ids_are_cell_and_incarnation_scoped() {
    let group = GlobalGroupId::new(CellId::new(7).unwrap(), 42).unwrap();
    let first = InternalMessageId::new(group, 9, 1, 1).unwrap();
    let reused_wire_slot = InternalMessageId::new(group, 9, 1, 2).unwrap();
    assert_ne!(first, reused_wire_slot);
    assert_ne!(first.to_be_bytes(), reused_wire_slot.to_be_bytes());
}

#[test]
fn group_keys_are_stable_path_components_and_round_trip() {
    let keys = [
        GroupKey::Root,
        GroupKey::catalog(9).unwrap(),
        GroupKey::cell_metadata(CellId(7)),
        GroupKey::partition(CellId(7), 42).unwrap(),
    ];
    for key in keys {
        let encoded = key.storage_component();
        assert!(!encoded.contains('/'));
        assert_eq!(GroupKey::parse(&encoded).unwrap(), key);
    }
    assert!(GroupKey::parse("partition-1-0").is_err());
    assert!(GroupKey::parse("cell-0-meta").is_err());
}

#[test]
fn identities_have_their_text_and_their_errors() {
    assert_eq!(CellId::bootstrap(), CellId(1));
    assert_eq!(CellId(12).to_text(), "12");
    let group = GlobalGroupId::new(CellId(12), 3).unwrap();
    assert_eq!(group.to_text(), "12:3");
    assert_eq!(
        GroupKey::partition(CellId(12), 3).unwrap().partition_id(),
        Some(group)
    );
    assert_eq!(GroupKey::Root.partition_id(), None);
    assert_eq!(
        GroupKey::partition(CellId(12), 3)
            .unwrap()
            .storage_component(),
        "partition-12-3"
    );
    assert_eq!(CellId::new(0), Err("cell ID must be non-zero"));
    assert_eq!(
        GroupKey::catalog(0),
        Err("catalog shard ID must be non-zero")
    );
    assert_eq!(
        GlobalGroupId::new(CellId(1), 0),
        Err("local group ID must be non-zero")
    );
    assert_eq!(
        InternalMessageId::new(group, 0, 1, 1),
        Err("message log index and incarnation must be non-zero")
    );
    assert_eq!(
        GroupKey::parse("catalog-x"),
        Err("invalid catalog group key")
    );
    assert_eq!(
        GroupKey::parse("cell-x-meta"),
        Err("invalid Cell metadata group key")
    );
    assert_eq!(
        GroupKey::parse("partition-1"),
        Err("invalid partition group key")
    );
    assert_eq!(
        GroupKey::parse("partition-x-1"),
        Err("invalid partition Cell ID")
    );
    assert_eq!(
        GroupKey::parse("partition-1-x"),
        Err("invalid partition local group ID")
    );
    assert_eq!(GroupKey::parse("cell-1"), Err("unknown group key"));
    let id = InternalMessageId::new(group, 9, 1, 2).unwrap();
    assert_eq!(&id.to_be_bytes()[..8], &12u64.to_be_bytes());
    assert_eq!(&id.to_be_bytes()[28..], &2u32.to_be_bytes());
}

#[test]
fn wire_constants_spell_their_words() {
    assert_eq!(&MAGIC_V2, b"  V2");
    assert_eq!(&HEARTBEAT, b"_heartbeat_");
    assert_eq!(&OK, b"OK");
    assert_eq!(&CLOSE_WAIT, b"CLOSE_WAIT");
    assert_eq!(MAX_MESSAGE_BYTES, 100 * 1024 * 1024);
    assert_eq!(MAX_BATCH_BYTES, 128 * 1024 * 1024);
}
