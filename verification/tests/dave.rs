//! The group that encrypts calls.
use nobilis::backend::discord::dave::{
    acknowledge, answer_proposals, answer_transition, frame_answer, hand_on_proposals, hand_on_sender, package_answer, read_binary, read_epoch_step,
    read_step, split_transition, write_binary, BinaryFrame, Commit, Dave, EpochStep, GroupStep, Operation, Reply,
    OP_ANNOUNCE_COMMIT_TRANSITION, OP_COMMIT_WELCOME, OP_EXECUTE_TRANSITION, OP_EXTERNAL_SENDER, OP_KEY_PACKAGE,
    OP_PREPARE_EPOCH, OP_PREPARE_TRANSITION, OP_PROPOSALS, OP_WELCOME,
};
use nobilis::json::Json;

#[test]
fn a_binary_frame_is_read_past_its_sequence_number() {
    let frame = [0x00, 0x07, OP_EXTERNAL_SENDER, 0xDE, 0xAD];
    let read = read_binary(&frame).expect("a frame");
    assert_eq!(read.opcode, OP_EXTERNAL_SENDER);
    assert_eq!(read.payload, &[0xDE, 0xAD]);

    // A frame with a sequence and an opcode and nothing else is still a
    // frame - an external sender of zero length is a thing Discord can
    // legitimately send.
    let bare = read_binary(&[0x00, 0x01, OP_WELCOME]).expect("a bare frame");
    assert_eq!(bare.opcode, OP_WELCOME);
    assert!(bare.payload.is_empty());

    // Anything shorter is not a frame at all.
    assert!(read_binary(&[0x00, 0x01]).is_none());
    assert!(read_binary(&[]).is_none());
}

#[test]
fn what_goes_out_carries_only_its_opcode() {
    assert_eq!(write_binary(OP_KEY_PACKAGE, &[1, 2, 3]), vec![OP_KEY_PACKAGE, 1, 2, 3]);
    assert_eq!(write_binary(OP_COMMIT_WELCOME, &[]), vec![OP_COMMIT_WELCOME]);
}

#[test]
fn a_transition_id_is_read_off_the_front() {
    assert_eq!(split_transition(&[0x00, 0x05, 0xAA]), Some((5, &[0xAA][..])));
    assert_eq!(split_transition(&[0x01, 0x00]), Some((256, &[][..])));
    assert_eq!(split_transition(&[0x01]), None);
}

#[test]
fn no_version_means_no_session() {
    assert!(Dave::new(0, "1339667204756475924", "1540954302632300564").unwrap().is_none());
    assert!(Dave::new(1, "1339667204756475924", "1540954302632300564").unwrap().is_some());
    // And an id that is not a number is refused rather than silently
    // becoming zero, which would put this device in somebody else's
    // group.
    assert!(Dave::new(1, "not-a-user", "1540954302632300564").is_err());
}

#[test]
fn a_frame_is_told_apart_by_its_opcode() {
    let sender = BinaryFrame { opcode: OP_EXTERNAL_SENDER, payload: &[1, 2] };
    assert_eq!(read_step(&sender), GroupStep::ExternalSender(&[1, 2]));
    let welcome = BinaryFrame { opcode: OP_WELCOME, payload: &[0, 5, 9] };
    assert_eq!(read_step(&welcome), GroupStep::Welcome(5, &[9]));
    let short = BinaryFrame { opcode: OP_WELCOME, payload: &[0] };
    assert_eq!(read_step(&short), GroupStep::Nothing);
    let proposals = BinaryFrame { opcode: 27, payload: &[1, 7] };
    assert_eq!(read_step(&proposals), GroupStep::Proposals(Operation::Revoke, &[7]));
}

#[test]
fn only_what_was_applied_is_acknowledged() {
    assert_eq!(answer_transition(true, 5, 1), acknowledge(5, 1));
    assert_ne!(answer_transition(false, 5, 1), acknowledge(5, 1));
    assert_eq!(answer_proposals(None), Reply::Nothing);
    let commit = Commit { commit: vec![1], welcome: Some(vec![2]) };
    assert_eq!(answer_proposals(Some(commit)), Reply::Binary(OP_COMMIT_WELCOME, vec![1, 2]));
}

#[test]
fn a_session_makes_a_key_package_and_lets_nothing_out_until_it_is_ready() {
    let mut dave = Dave::new(1, "1339667204756475924", "1540954302632300564").unwrap().unwrap();
    assert!(!dave.ready());
    let package = dave.key_package().expect("a key package");
    assert!(!package.is_empty());
    let frame = BinaryFrame { opcode: OP_EXTERNAL_SENDER, payload: &[] };
    assert_eq!(dave.take_binary(&frame, None), Reply::Nothing);
    assert_eq!(dave.take_json(99, &Json::object()), Reply::Nothing);
    assert!(matches!(read_epoch_step(99, &Json::object()), EpochStep::Nothing));
    assert_eq!(dave.encrypt_video(&[1, 2, 3, 4]), Err("could not encrypt a frame: NotReady".to_string()));
    assert_eq!(dave.encrypt_video(&[0xF8, 0xFF, 0xFE]), Err("could not encrypt a frame: NotReady".to_string()));
}

#[test]
fn a_key_package_is_one_of_the_user() {
    let user: u64 = 1339667204756475924;
    let mut dave = Dave::new(1, "1339667204756475924", "1540954302632300564").unwrap().unwrap();
    let first = dave.key_package().expect("a key package");
    let second = dave.key_package().expect("another");
    assert_ne!(first, second, "a package is made anew each time");
    for package in [first, second] {
        assert!(package.len() > 216);
        assert_eq!(package[..4], [0, 1, 0, 2]);
        assert_eq!(package[4..6], [0x40, 65]);
        assert_eq!(package[71..73], [0x40, 65]);
        assert_eq!(package[138..140], [0x40, 65]);
        assert_eq!(package[205..208], [0, 1, 8]);
        assert_eq!(package[208..216], user.to_be_bytes());
    }
}

#[test]
fn a_key_package_is_handed_on_as_it_was_made() {
    assert_eq!(package_answer(Ok(vec![1, 2])), Ok(vec![1, 2]));
    assert_eq!(
        package_answer(Err("LockPoisoned".into())),
        Err("could not make a key package: LockPoisoned".to_string())
    );
}

#[test]
fn a_frame_is_handed_on_as_it_came_out() {
    assert_eq!(frame_answer(Ok(vec![9])), Ok(vec![9]));
    assert_eq!(
        frame_answer(Err("EncryptionFailed".into())),
        Err("could not encrypt a frame: EncryptionFailed".to_string())
    );
}

#[test]
fn media_passes_while_a_transition_is_prepared() {
    let none = Json::object();
    assert_eq!(
        read_epoch_step(OP_PREPARE_TRANSITION, &none),
        EpochStep::Passthrough { on: true, seconds: Some(120) }
    );
    assert_eq!(
        read_epoch_step(OP_EXECUTE_TRANSITION, &none),
        EpochStep::Passthrough { on: false, seconds: None }
    );
    let first = Json::object().put("epoch", Json::Int(1));
    assert_eq!(read_epoch_step(OP_PREPARE_EPOCH, &first), EpochStep::StartOver);
    let second = Json::object().put("epoch", Json::Int(2));
    assert_eq!(read_epoch_step(OP_PREPARE_EPOCH, &second), EpochStep::Nothing);
    let mut dave = Dave::new(1, "1339667204756475924", "1540954302632300564").unwrap().unwrap();
    let prepared = Json::object().put("transition_id", Json::Int(7));
    assert_eq!(dave.take_json(OP_PREPARE_TRANSITION, &prepared), acknowledge(7, 1));
    assert_eq!(dave.take_json(OP_EXECUTE_TRANSITION, &prepared), Reply::Nothing);
    assert_eq!(dave.take_json(OP_PREPARE_EPOCH, &first), Reply::Nothing);
}

#[test]
fn without_a_group_nothing_applies() {
    let mut dave = Dave::new(1, "1339667204756475924", "1540954302632300564").unwrap().unwrap();
    let proposals = BinaryFrame { opcode: OP_PROPOSALS, payload: &[0, 1, 2] };
    assert_eq!(dave.take_binary(&proposals, Some(&[5])), Reply::Nothing);
    let commit = BinaryFrame { opcode: OP_ANNOUNCE_COMMIT_TRANSITION, payload: &[0, 5, 1] };
    assert_eq!(dave.take_binary(&commit, None), answer_transition(false, 5, 1));
    assert!(!dave.ready());
}

#[test]
fn lengths_that_run_past_the_end_are_not_handed_on() {
    // A key of two bytes, a credential of type one, and two bytes in it.
    let whole = [2, 0xAA, 0xBB, 0, 1, 2, 0xCC, 0xDD];
    assert_eq!(hand_on_sender(&whole), &whole);
    assert_eq!(hand_on_sender(&whole[..7]), &[] as &[u8]);
    assert_eq!(hand_on_sender(&[0xFF]), &[] as &[u8]);
    assert_eq!(hand_on_sender(&[0, 0]), &[] as &[u8]);
    assert_eq!(hand_on_proposals(&[0x40, 1, 7]), &[0x40, 1, 7]);
    assert_eq!(hand_on_proposals(&[0x80, 0, 0, 2, 7]), &[] as &[u8]);
    assert_eq!(hand_on_proposals(&[0xC0, 0, 0, 0, 0, 0, 0, 0]), &[] as &[u8]);
    let mut dave = Dave::new(1, "1339667204756475924", "1540954302632300564").unwrap().unwrap();
    let sender = BinaryFrame { opcode: OP_EXTERNAL_SENDER, payload: &[0xFF] };
    assert_eq!(dave.take_binary(&sender, None), Reply::Nothing);
    // With a sender there is a group, and its proposals are read.
    let sender = BinaryFrame { opcode: OP_EXTERNAL_SENDER, payload: &whole };
    assert_eq!(dave.take_binary(&sender, None), Reply::Nothing);
    let proposals = BinaryFrame { opcode: OP_PROPOSALS, payload: &[0, 0xFF] };
    assert_eq!(dave.take_binary(&proposals, None), Reply::Nothing);
    let none = BinaryFrame { opcode: OP_PROPOSALS, payload: &[0, 0] };
    assert_eq!(dave.take_binary(&none, None), Reply::Nothing);
    assert!(!dave.ready());
}
