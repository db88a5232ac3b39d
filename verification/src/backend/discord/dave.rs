//! End-to-end encryption of a stream: the frames that carry it, and what is answered to each. The
//! cryptography is `davey`'s.
use vstd::prelude::*;
use vstd::slice::slice_subrange;
use crate::json::{Json, JsonV, law_put_then_read, nothing};
use crate::text::{parse_u64, u64_of};

verus! {

/// The operations that arrive as bytes.
pub const OP_EXTERNAL_SENDER: u8 = 25;

pub const OP_KEY_PACKAGE: u8 = 26;

pub const OP_PROPOSALS: u8 = 27;

pub const OP_COMMIT_WELCOME: u8 = 28;

pub const OP_ANNOUNCE_COMMIT_TRANSITION: u8 = 29;

pub const OP_WELCOME: u8 = 30;

/// Those that are JSON.
pub const OP_PREPARE_TRANSITION: u64 = 21;

pub const OP_EXECUTE_TRANSITION: u64 = 22;

pub const OP_TRANSITION_READY: u64 = 23;

pub const OP_PREPARE_EPOCH: u64 = 24;

pub const OP_INVALID_COMMIT_WELCOME: u64 = 31;

/// For how long media may pass unencrypted during a transition, in seconds.
pub const TRANSITION_SECONDS: u32 = 120;

/// A frame of bytes from the server, without its sequence number.
#[derive(Debug, PartialEq, Eq)]
pub struct BinaryFrame<'a> {
    pub opcode: u8,
    pub payload: &'a [u8],
}

pub struct FrameV {
    pub opcode: u8,
    pub payload: Seq<u8>,
}

impl<'a> View for BinaryFrame<'a> {
    type V = FrameV;

    open spec fn view(&self) -> FrameV {
        FrameV { opcode: self.opcode, payload: self.payload@ }
    }
}

/// The frame that bytes from the server are: two of sequence number, the operation, and the rest.
pub open spec fn frame_in(data: Seq<u8>) -> Option<FrameV> {
    if data.len() < 3 {
        None
    } else {
        Some(FrameV { opcode: data[2], payload: data.skip(3) })
    }
}

pub fn read_binary(data: &[u8]) -> (r: Option<BinaryFrame<'_>>)
    ensures
        match r {
            Some(f) => frame_in(data@) == Some(f@),
            None => frame_in(data@) is None,
        },
{
    if data.len() < 3 {
        return None;
    }
    let payload = slice_subrange(data, 3, data.len());
    assert(payload@ =~= data@.skip(3));
    Some(BinaryFrame { opcode: data[2], payload })
}

/// A frame to the server, which carries no sequence number.
pub open spec fn frame_out(opcode: u8, payload: Seq<u8>) -> Seq<u8> {
    seq![opcode] + payload
}

pub fn write_binary(opcode: u8, payload: &[u8]) -> (r: Vec<u8>)
    ensures
        r@ == frame_out(opcode, payload@),
{
    let mut out: Vec<u8> = Vec::new();
    out.push(opcode);
    let mut i: usize = 0;
    while i < payload.len()
        invariant
            i <= payload@.len(),
            out@ == frame_out(opcode, payload@.take(i as int)),
        decreases payload@.len() - i,
    {
        out.push(payload[i]);
        assert(payload@.take(i + 1) =~= payload@.take(i as int).push(payload@[i as int]));
        i += 1;
    }
    assert(payload@.take(i as int) =~= payload@);
    out
}

/// What one side writes the other reads, once the sequence number is in front of it.
pub proof fn law_frames_read_back(high: u8, low: u8, opcode: u8, payload: Seq<u8>)
    ensures
        frame_in(seq![high, low] + frame_out(opcode, payload)) == Some(FrameV { opcode, payload }),
{
    let data = seq![high, low] + frame_out(opcode, payload);
    assert(data.skip(3) =~= payload);
}

/// A transition's number and what follows it.
pub open spec fn transition_in(payload: Seq<u8>) -> Option<(int, Seq<u8>)> {
    if payload.len() < 2 {
        None
    } else {
        Some((payload[0] * 256 + payload[1], payload.skip(2)))
    }
}

pub fn split_transition(payload: &[u8]) -> (r: Option<(u64, &[u8])>)
    ensures
        match r {
            Some(t) => transition_in(payload@) == Some((t.0 as int, t.1@)),
            None => transition_in(payload@) is None,
        },
{
    if payload.len() < 2 {
        return None;
    }
    let rest = slice_subrange(payload, 2, payload.len());
    assert(rest@ =~= payload@.skip(2));
    Some((payload[0] as u64 * 256 + payload[1] as u64, rest))
}

/// What is sent back after a frame has been taken in.
#[derive(Debug, PartialEq, Eq)]
pub enum Reply {
    Nothing,
    Binary(u8, Vec<u8>),
    Json(Json),
}

pub enum ReplyV {
    Nothing,
    Binary(u8, Seq<u8>),
    Json(JsonV),
}

impl View for Reply {
    type V = ReplyV;

    open spec fn view(&self) -> ReplyV {
        match self {
            Reply::Nothing => ReplyV::Nothing,
            Reply::Binary(op, payload) => ReplyV::Binary(*op, payload@),
            Reply::Json(j) => ReplyV::Json(j@),
        }
    }
}

/// Whether proposals are added or taken away.
#[derive(Clone, Copy, Debug, PartialEq, Eq, Structural)]
pub enum Operation {
    Append,
    Revoke,
}

/// What a frame of bytes asks of the group.
#[derive(Debug, PartialEq, Eq)]
pub enum GroupStep<'a> {
    /// Nothing at all.
    Nothing,
    /// The sender that proposals come from.
    ExternalSender(&'a [u8]),
    /// Proposals to add or to take away.
    Proposals(Operation, &'a [u8]),
    /// A commit, and the transition that it belongs to.
    Commit(u64, &'a [u8]),
    /// A welcome, and the transition that it belongs to.
    Welcome(u64, &'a [u8]),
}

pub enum GroupStepV {
    Nothing,
    ExternalSender(Seq<u8>),
    Proposals(Operation, Seq<u8>),
    Commit(int, Seq<u8>),
    Welcome(int, Seq<u8>),
}

impl<'a> View for GroupStep<'a> {
    type V = GroupStepV;

    open spec fn view(&self) -> GroupStepV {
        match self {
            GroupStep::Nothing => GroupStepV::Nothing,
            GroupStep::ExternalSender(data) => GroupStepV::ExternalSender(data@),
            GroupStep::Proposals(operation, data) => GroupStepV::Proposals(*operation, data@),
            GroupStep::Commit(t, data) => GroupStepV::Commit(*t as int, data@),
            GroupStep::Welcome(t, data) => GroupStepV::Welcome(*t as int, data@),
        }
    }
}

/// What a frame asks of the group. Proposals start with a byte that says whether they are added or
/// taken away; a commit and a welcome start with their transition.
pub open spec fn step_in(frame: FrameV) -> GroupStepV {
    let payload = frame.payload;
    if frame.opcode == OP_EXTERNAL_SENDER {
        GroupStepV::ExternalSender(payload)
    } else if frame.opcode == OP_PROPOSALS {
        if payload.len() == 0 {
            GroupStepV::Nothing
        } else if payload[0] == 0 {
            GroupStepV::Proposals(Operation::Append, payload.skip(1))
        } else if payload[0] == 1 {
            GroupStepV::Proposals(Operation::Revoke, payload.skip(1))
        } else {
            GroupStepV::Nothing
        }
    } else if frame.opcode == OP_ANNOUNCE_COMMIT_TRANSITION {
        match transition_in(payload) {
            Some(t) => GroupStepV::Commit(t.0, t.1),
            None => GroupStepV::Nothing,
        }
    } else if frame.opcode == OP_WELCOME {
        match transition_in(payload) {
            Some(t) => GroupStepV::Welcome(t.0, t.1),
            None => GroupStepV::Nothing,
        }
    } else {
        GroupStepV::Nothing
    }
}

pub fn read_step<'a>(frame: &BinaryFrame<'a>) -> (r: GroupStep<'a>)
    ensures
        r@ == step_in(frame@),
{
    let payload = frame.payload;
    if frame.opcode == OP_EXTERNAL_SENDER {
        GroupStep::ExternalSender(payload)
    } else if frame.opcode == OP_PROPOSALS {
        if payload.len() == 0 {
            return GroupStep::Nothing;
        }
        let rest = slice_subrange(payload, 1, payload.len());
        assert(rest@ =~= payload@.skip(1));
        if payload[0] == 0 {
            GroupStep::Proposals(Operation::Append, rest)
        } else if payload[0] == 1 {
            GroupStep::Proposals(Operation::Revoke, rest)
        } else {
            GroupStep::Nothing
        }
    } else if frame.opcode == OP_ANNOUNCE_COMMIT_TRANSITION {
        match split_transition(payload) {
            Some((transition, commit)) => GroupStep::Commit(transition, commit),
            None => GroupStep::Nothing,
        }
    } else if frame.opcode == OP_WELCOME {
        match split_transition(payload) {
            Some((transition, welcome)) => GroupStep::Welcome(transition, welcome),
            None => GroupStep::Nothing,
        }
    } else {
        GroupStep::Nothing
    }
}

/// Saying that a transition has been applied. The first epoch of a group has no transition to be
/// ready for.
pub open spec fn acknowledged(transition: int, version: u16) -> ReplyV {
    if transition == 0 {
        ReplyV::Nothing
    } else {
        ReplyV::Json(
            nothing().put("op"@, JsonV::Int(OP_TRANSITION_READY as int)).put(
                "d"@,
                nothing().put("transition_id"@, JsonV::Int(transition)).put(
                    "protocol_version"@,
                    JsonV::Int(version as int),
                ),
            ),
        )
    }
}

pub fn acknowledge(transition: u64, version: u16) -> (r: Reply)
    ensures
        r@ == acknowledged(transition as int, version),
{
    if transition == 0 {
        return Reply::Nothing;
    }
    Reply::Json(
        Json::object().put("op", Json::Int(OP_TRANSITION_READY as i128)).put(
            "d",
            Json::object().put("transition_id", Json::Int(transition as i128)).put(
                "protocol_version",
                Json::Int(version as i128),
            ),
        ),
    )
}

/// Saying that a commit or a welcome would not apply, so that the server builds the group anew.
pub open spec fn admitted_lost(transition: int) -> ReplyV {
    ReplyV::Json(
        nothing().put("op"@, JsonV::Int(OP_INVALID_COMMIT_WELCOME as int)).put(
            "d"@,
            nothing().put("transition_id"@, JsonV::Int(transition)),
        ),
    )
}

/// What is answered to a commit or a welcome, given whether it applied.
pub open spec fn transition_answer(applied: bool, transition: int, version: u16) -> ReplyV {
    if applied {
        acknowledged(transition, version)
    } else {
        admitted_lost(transition)
    }
}

pub fn answer_transition(applied: bool, transition: u64, version: u16) -> (r: Reply)
    ensures
        r@ == transition_answer(applied, transition as int, version),
{
    if applied {
        acknowledge(transition, version)
    } else {
        Reply::Json(
            Json::object().put("op", Json::Int(OP_INVALID_COMMIT_WELCOME as i128)).put(
                "d",
                Json::object().put("transition_id", Json::Int(transition as i128)),
            ),
        )
    }
}

/// A commit to the pending proposals, and the welcome for whoever joins by it.
#[derive(Debug, PartialEq, Eq)]
pub struct Commit {
    pub commit: Vec<u8>,
    pub welcome: Option<Vec<u8>>,
}

impl View for Commit {
    type V = (Seq<u8>, Option<Seq<u8>>);

    open spec fn view(&self) -> (Seq<u8>, Option<Seq<u8>>) {
        (
            self.commit@,
            match self.welcome {
                Some(w) => Some(w@),
                None => None,
            },
        )
    }
}

pub open spec fn commit_view(commit: Option<Commit>) -> Option<(Seq<u8>, Option<Seq<u8>>)> {
    match commit {
        Some(c) => Some(c@),
        None => None,
    }
}

/// What is answered to proposals, given the commit that they led to: the commit with the welcome
/// behind it.
pub open spec fn proposals_answer(commit: Option<(Seq<u8>, Option<Seq<u8>>)>) -> ReplyV {
    match commit {
        Some(c) => ReplyV::Binary(
            OP_COMMIT_WELCOME,
            c.0 + (match c.1 {
                Some(w) => w,
                None => Seq::empty(),
            }),
        ),
        None => ReplyV::Nothing,
    }
}

pub fn answer_proposals(commit: Option<Commit>) -> (r: Reply)
    ensures
        r@ == proposals_answer(commit_view(commit)),
{
    match commit {
        Some(c) => {
            let mut payload = c.commit;
            let ghost first = payload@;
            match c.welcome {
                Some(welcome) => {
                    let mut i: usize = 0;
                    assert(first + welcome@.take(0) =~= first);
                    while i < welcome.len()
                        invariant
                            i <= welcome@.len(),
                            payload@ == first + welcome@.take(i as int),
                        decreases welcome@.len() - i,
                    {
                        payload.push(welcome[i]);
                        assert(welcome@.take(i + 1) =~= welcome@.take(i as int).push(
                            welcome@[i as int],
                        ));
                        i += 1;
                    }
                    assert(welcome@.take(i as int) =~= welcome@);
                },
                None => {
                    assert(first + Seq::<u8>::empty() =~= first);
                },
            }
            Reply::Binary(OP_COMMIT_WELCOME, payload)
        },
        None => Reply::Nothing,
    }
}

/// What may be answered to a frame, whatever the group makes of it: to proposals a commit or
/// nothing, and to a commit or a welcome that it applied or that it did not. Where no bytes follow,
/// nothing can have applied.
pub open spec fn may_answer(step: GroupStepV, version: u16, reply: ReplyV) -> bool {
    match step {
        GroupStepV::Nothing => reply == ReplyV::Nothing,
        GroupStepV::ExternalSender(_) => reply == ReplyV::Nothing,
        GroupStepV::Proposals(_, proposals) => match reply {
            ReplyV::Nothing => true,
            ReplyV::Binary(op, _) => op == OP_COMMIT_WELCOME && proposals.len() > 0,
            ReplyV::Json(_) => false,
        },
        GroupStepV::Commit(t, commit) => reply == transition_answer(false, t, version) || (reply
            == transition_answer(true, t, version) && commit.len() > 0),
        GroupStepV::Welcome(t, welcome) => reply == transition_answer(false, t, version) || (reply
            == transition_answer(true, t, version) && welcome.len() > 0),
    }
}

/// Whether an answer says that a commit or a welcome applied, and so that there are keys now.
pub open spec fn gives_keys(step: GroupStepV, reply: ReplyV) -> bool {
    match step {
        GroupStepV::Commit(t, _) => reply != admitted_lost(t),
        GroupStepV::Welcome(t, _) => reply != admitted_lost(t),
        _ => false,
    }
}

proof fn lemma_answers_differ(transition: int, version: u16)
    ensures
        acknowledged(transition, version) != admitted_lost(transition),
{
    if transition != 0 {
        let said = acknowledged(transition, version)->Json_0;
        let lost = admitted_lost(transition)->Json_0;
        assert(said.entries()[0].value == JsonV::Int(OP_TRANSITION_READY as int));
        assert(lost.entries()[0].value == JsonV::Int(OP_INVALID_COMMIT_WELCOME as int));
    }
}

/// What a JSON frame asks of the group.
#[derive(Clone, Copy, Debug, PartialEq, Eq, Structural)]
pub enum EpochStep {
    Nothing,
    /// Media passes unencrypted from now on, or no longer does once so many seconds are over, ten
    /// where none are given.
    Passthrough { on: bool, seconds: Option<u32> },
    /// The group starts over.
    StartOver,
}

/// What a JSON frame asks of the group. Media passes while a transition is prepared, and no longer
/// once it is executed. Only the first epoch starts the group over.
pub open spec fn epoch_step_in(op: u64, d: JsonV) -> EpochStep {
    if op == OP_PREPARE_TRANSITION {
        EpochStep::Passthrough { on: true, seconds: Some(TRANSITION_SECONDS) }
    } else if op == OP_EXECUTE_TRANSITION {
        EpochStep::Passthrough { on: false, seconds: None }
    } else if op == OP_PREPARE_EPOCH && d.at("epoch"@).as_u64() == Some(1int) {
        EpochStep::StartOver
    } else {
        EpochStep::Nothing
    }
}

pub fn read_epoch_step(op: u64, d: &Json) -> (r: EpochStep)
    ensures
        r == epoch_step_in(op, d@),
{
    if op == OP_PREPARE_TRANSITION {
        EpochStep::Passthrough { on: true, seconds: Some(TRANSITION_SECONDS) }
    } else if op == OP_EXECUTE_TRANSITION {
        EpochStep::Passthrough { on: false, seconds: None }
    } else if op == OP_PREPARE_EPOCH {
        match d.at("epoch").as_u64() {
            Some(epoch) => if epoch == 1 {
                EpochStep::StartOver
            } else {
                EpochStep::Nothing
            },
            None => EpochStep::Nothing,
        }
    } else {
        EpochStep::Nothing
    }
}

/// The transition that a JSON frame names, and zero where it names none.
pub open spec fn named_transition(d: JsonV) -> int {
    match d.at("transition_id"@).as_u64() {
        Some(t) => t,
        None => 0,
    }
}

pub fn read_transition(d: &Json) -> (r: u64)
    ensures
        r == named_transition(d@),
{
    match d.at("transition_id").as_u64() {
        Some(t) => t,
        None => 0,
    }
}

/// What is answered to a JSON frame.
pub open spec fn epoch_answer(op: u64, d: JsonV, version: u16) -> ReplyV {
    if op == OP_PREPARE_TRANSITION {
        acknowledged(named_transition(d), version)
    } else {
        ReplyV::Nothing
    }
}

/// A group as `davey` keeps it.
#[verifier::external_type_specification]
#[verifier::external_body]
pub struct ExDaveSession(davey::DaveSession);

/// Whether a group has keys: what `davey::DaveSession::is_ready` says of it.
pub uninterp spec fn group_ready(session: davey::DaveSession) -> bool;

/// Whom a session is for: what `davey::DaveSession::user_id` says of it. That is settled when the
/// session is started, and none of the calls below changes it.
pub uninterp spec fn session_user(session: davey::DaveSession) -> u64;

/// Which channel's group a session is for: what `davey::DaveSession::channel_id` says of it. That is
/// settled together with the user.
pub uninterp spec fn session_channel(session: davey::DaveSession) -> u64;

/// Whether a session has a group at all, be it one that nobody else is in yet: whether
/// `davey::DaveSession::group` gives one.
pub uninterp spec fn in_group(session: davey::DaveSession) -> bool;

/// Whether a session is what `davey::DaveSession::set_passthrough_mode` may make of another, given
/// the flag and the seconds. It does so to what each member of the group sends: with the flag, all of
/// it may pass unencrypted; without, no more than up to a moment that the seconds and the clock
/// decide.
pub uninterp spec fn passes_after(
    before: davey::DaveSession,
    on: bool,
    seconds: Option<u32>,
    after: davey::DaveSession,
) -> bool;

/// Whether a session and a package are what `davey::DaveSession::create_key_package` may make of
/// another session; no package where it made none. A package holds fresh keys.
pub uninterp spec fn package_leads_to(
    before: davey::DaveSession,
    after: davey::DaveSession,
    package: Option<Seq<u8>>,
) -> bool;

/// Whether a session and bytes are what `davey::DaveSession::encrypt` may make of another session and
/// a VP8 video frame; no bytes where it refused the frame. How long it took is counted too.
pub uninterp spec fn frame_leads_to(
    before: davey::DaveSession,
    frame: Seq<u8>,
    after: davey::DaveSession,
    out: Option<Seq<u8>>,
) -> bool;

/// Whether a session is what `davey::DaveSession::reset` may make of another.
pub uninterp spec fn starts_over_as(before: davey::DaveSession, after: davey::DaveSession) -> bool;

/// Whether a session is what `davey::DaveSession::set_external_sender` may make of another, given the
/// bytes of the sender and whether it was taken.
pub uninterp spec fn sender_leads_to(
    before: davey::DaveSession,
    data: Seq<u8>,
    after: davey::DaveSession,
    taken: bool,
) -> bool;

/// Whether a session is what `davey::DaveSession::process_commit` may make of another, given the
/// commit and whether it applied.
pub uninterp spec fn commit_leads_to(
    before: davey::DaveSession,
    commit: Seq<u8>,
    after: davey::DaveSession,
    applied: bool,
) -> bool;

/// Whether a session is what `davey::DaveSession::process_welcome` may make of another, given the
/// welcome and whether it applied.
pub uninterp spec fn welcome_leads_to(
    before: davey::DaveSession,
    welcome: Seq<u8>,
    after: davey::DaveSession,
    applied: bool,
) -> bool;

/// Whether a session and an outcome are what `davey::DaveSession::process_proposals` may make of
/// another session, given whether the proposals are added, the proposals, and who is expected in the
/// group. The commit of such an outcome holds fresh keys.
pub uninterp spec fn proposals_lead_to(
    before: davey::DaveSession,
    append: bool,
    proposals: Seq<u8>,
    recognised: Option<Seq<u64>>,
    after: davey::DaveSession,
    outcome: Option<(Seq<u8>, Option<Seq<u8>>)>,
) -> bool;

/// `davey::DaveSession::new`, without a key pair, so that one is made: a session for a user in a
/// channel, or the words for why there is none. It knows of no version but the first. Which keys it
/// makes is chance. The session is for the user and the channel that were given; it has no group, and
/// no keys of one.
#[verifier::external_body]
fn start_session(version: u16, user: u64, channel: u64) -> (r: Result<davey::DaveSession, String>)
    requires
        version != 0,
    ensures
        r is Ok <==> version == 1,
        r is Ok ==> !group_ready(r->Ok_0) && !in_group(r->Ok_0),
        r is Ok ==> session_user(r->Ok_0) == user && session_channel(r->Ok_0) == channel,
{
    let version = std::num::NonZeroU16::new(version).unwrap();
    davey::DaveSession::new(version, user, channel, None).map_err(|e| format!("{e:?}"))
}

/// The bytes that an outcome holds, where it does.
pub open spec fn bytes_in(outcome: Result<Vec<u8>, String>) -> Option<Seq<u8>> {
    match outcome {
        Ok(bytes) => Some(bytes@),
        Err(_) => None,
    }
}

/// The number that bytes write, the most significant first.
pub open spec fn number_in(bytes: Seq<u8>) -> int
    decreases bytes.len(),
{
    if bytes.len() == 0 {
        0
    } else {
        number_in(bytes.drop_last()) * 256 + bytes.last()
    }
}

/// Whether bytes are the key package of a user, as far as that can be read off them. A package starts
/// with the version of MLS, which is the first, and the cipher suite, which is the second. Three
/// public keys follow, each of sixty-five bytes behind two that give its length. Then comes who asks:
/// a basic credential, type one, whose eight bytes are the user's id.
pub open spec fn is_package_of(package: Seq<u8>, user: u64) -> bool {
    &&& package.len() > 216
    &&& package.take(4) == seq![0u8, 1, 0, 2]
    &&& package.subrange(4, 6) == seq![0x40u8, 65]
    &&& package.subrange(71, 73) == seq![0x40u8, 65]
    &&& package.subrange(138, 140) == seq![0x40u8, 65]
    &&& package.subrange(205, 208) == seq![0u8, 1, 8]
    &&& number_in(package.subrange(208, 216)) == user
}

/// `davey::DaveSession::create_key_package`: a fresh package with which this device asks to join
/// the group, or the words for why there is none. The package is one of the user whom the session is
/// for. Nothing is claimed of what the keys in it are, two of which are fresh, nor of what follows the
/// user; and whether there is a package is left open, as the search for a key can come to nothing.
/// Neither the user, nor whether there is a group, nor whether it has keys is changed by it.
#[verifier::external_body]
fn make_key_package(session: &mut davey::DaveSession) -> (r: Result<Vec<u8>, String>)
    ensures
        group_ready(*final(session)) == group_ready(*old(session)),
        session_user(*final(session)) == session_user(*old(session)),
        session_channel(*final(session)) == session_channel(*old(session)),
        in_group(*final(session)) == in_group(*old(session)),
        r matches Ok(package) ==> is_package_of(package@, session_user(*old(session))),
        package_leads_to(*old(session), *final(session), bytes_in(r)),
{
    session.create_key_package().map_err(|e| format!("{e:?}"))
}

/// `davey::DaveSession::is_ready`: whether the group has keys.
#[verifier::external_body]
fn session_ready(session: &davey::DaveSession) -> (r: bool)
    ensures
        r == group_ready(*session),
{
    session.is_ready()
}

/// The packet that stands for silence.
pub open spec fn silence() -> Seq<u8> {
    seq![0xF8u8, 0xFF, 0xFE]
}

/// Whether a frame has the header that stays readable: one byte, and ten where the first says that
/// it is a key frame.
pub open spec fn has_header(frame: Seq<u8>) -> bool {
    frame.len() > 0 && (frame[0] % 2 == 0 ==> frame.len() >= 10)
}

/// How much of a frame stays readable: ten bytes of a key frame, and one of any other.
pub open spec fn header_length(frame: Seq<u8>) -> int {
    if frame.len() > 0 && frame[0] % 2 == 0 {
        10
    } else {
        1
    }
}

/// Whether bytes are a frame that was encrypted, as far as that can be read off them: its header as
/// it was, as many bytes as there were behind it, and at least fourteen more. The last two of those
/// are the mark of an encrypted frame, and the one before them says how many they are in all.
pub open spec fn is_encrypted(out: Seq<u8>, frame: Seq<u8>) -> bool {
    let h = header_length(frame);
    &&& out.len() >= frame.len() + 14
    &&& out.take(h) == frame.take(h)
    &&& out.skip(out.len() - 2) == seq![0xFAu8, 0xFA]
    &&& out[out.len() - 3] == out.len() - frame.len()
}

/// `davey::DaveSession::encrypt` of a VP8 video frame. A group without keys refuses every frame. One
/// that has them lets the packet that stands for silence through as it is, and reads the header of
/// any other, which has to be there. Such a frame comes out encrypted or not at all; what the bytes
/// behind its header become depends on the keys. Whether there is a group and whether it has keys is
/// not changed by it. Its counters of frames and of time are thirty-two bits wide and start over, in a
/// build without overflow checks.
#[verifier::external_body]
fn encrypt_frame(session: &mut davey::DaveSession, frame: &[u8]) -> (r: Result<Vec<u8>, String>)
    requires
        !group_ready(*old(session)) || frame@ == silence() || has_header(frame@),
    ensures
        session_user(*final(session)) == session_user(*old(session)),
        session_channel(*final(session)) == session_channel(*old(session)),
        group_ready(*final(session)) == group_ready(*old(session)),
        in_group(*final(session)) == in_group(*old(session)),
        !group_ready(*old(session)) ==> r is Err,
        group_ready(*old(session)) && frame@ == silence() ==> r is Ok && r->Ok_0@ == frame@,
        frame@ != silence() ==> (r matches Ok(out) ==> is_encrypted(out@, frame@)),
        frame_leads_to(*old(session), frame@, *final(session), bytes_in(r)),
{
    match session.encrypt(davey::MediaType::VIDEO, davey::Codec::VP8, frame) {
        Ok(bytes) => Ok(bytes.into_owned()),
        Err(e) => Err(format!("{e:?}")),
    }
}

/// Where a vector ends that starts at a place: behind its length, which takes one, two or four bytes,
/// and as many more as that says. Nothing where the bytes are over before, or where the length is
/// written in a way that there is none of.
pub open spec fn vector_end(data: Seq<u8>, at: int) -> Option<int> {
    if !(0 <= at < data.len()) || data[at] >= 0xC0 {
        None
    } else {
        let width = if data[at] < 0x40 {
            1
        } else if data[at] < 0x80 {
            2
        } else {
            4int
        };
        if at + width > data.len() {
            None
        } else {
            let length = if width == 1 {
                data[at] as int
            } else if width == 2 {
                (data[at] - 0x40) * 0x100 + data[at + 1]
            } else {
                (data[at] - 0x80) * 0x100_0000 + data[at + 1] * 0x1_0000 + data[at + 2] * 0x100
                    + data[at + 3]
            };
            if at + width + length <= data.len() {
                Some(at + width + length)
            } else {
                None
            }
        }
    }
}

fn find_vector_end(data: &[u8], at: usize) -> (r: Option<usize>)
    ensures
        match r {
            Some(end) => vector_end(data@, at as int) == Some(end as int) && end <= data@.len(),
            None => vector_end(data@, at as int) is None,
        },
{
    if at >= data.len() || data[at] >= 0xC0 {
        return None;
    }
    let first: usize = data[at] as usize;
    let left: usize = data.len() - at;
    let width: usize = if first < 0x40 {
        1
    } else if first < 0x80 {
        2
    } else {
        4
    };
    if width > left {
        return None;
    }
    let length: usize = if width == 1 {
        first
    } else if width == 2 {
        (first - 0x40) * 0x100 + data[at + 1] as usize
    } else {
        (first - 0x80) * 0x100_0000 + data[at + 1] as usize * 0x1_0000 + data[at + 2] as usize * 0x100
            + data[at + 3] as usize
    };
    if length > left - width {
        return None;
    }
    Some(at + width + length)
}

/// Whether bytes can be an external sender, by their lengths: a key, then a credential, which is its
/// type in two bytes and what it holds.
pub open spec fn can_be_sender(data: Seq<u8>) -> bool {
    match vector_end(data, 0) {
        Some(end) => vector_end(data, end + 2) is Some,
        None => false,
    }
}

/// What is handed on as an external sender: nothing in place of bytes that can be none.
pub open spec fn sender_handed_on(data: Seq<u8>) -> Seq<u8> {
    if can_be_sender(data) {
        data
    } else {
        Seq::empty()
    }
}

pub fn hand_on_sender<'a>(data: &'a [u8]) -> (r: &'a [u8])
    ensures
        r@ == sender_handed_on(data@),
{
    let whole = match find_vector_end(data, 0) {
        Some(end) => if data.len() - end >= 2 {
            find_vector_end(data, end + 2).is_some()
        } else {
            false
        },
        None => false,
    };
    if whole {
        return data;
    }
    let none = slice_subrange(data, 0, 0);
    assert(none@ =~= Seq::empty());
    none
}

/// What is handed on as proposals: nothing in place of bytes that do not hold as many as they say.
pub open spec fn proposals_handed_on(proposals: Seq<u8>) -> Seq<u8> {
    if vector_end(proposals, 0) is Some {
        proposals
    } else {
        Seq::empty()
    }
}

pub fn hand_on_proposals<'a>(proposals: &'a [u8]) -> (r: &'a [u8])
    ensures
        r@ == proposals_handed_on(proposals@),
{
    if find_vector_end(proposals, 0).is_some() {
        return proposals;
    }
    let none = slice_subrange(proposals, 0, 0);
    assert(none@ =~= Seq::empty());
    none
}

/// `davey::DaveSession::set_external_sender`: whether the sender was taken. No bytes at all are
/// none; of any others it depends on the group's state. Once one is taken there is a group, and it
/// has no keys by that. Lengths that run past the end are left out: where debug assertions are on, the
/// decoder of `tls_codec` asserts on them.
#[verifier::external_body]
fn take_external_sender(session: &mut davey::DaveSession, data: &[u8]) -> (r: bool)
    requires
        data@.len() == 0 || can_be_sender(data@),
    ensures
        session_user(*final(session)) == session_user(*old(session)),
        session_channel(*final(session)) == session_channel(*old(session)),
        group_ready(*final(session)) == group_ready(*old(session)),
        r ==> in_group(*final(session)),
        data@.len() == 0 ==> !r,
        sender_leads_to(*old(session), data@, *final(session), r),
{
    session.set_external_sender(data).is_ok()
}

/// Who is expected in a group, where it is known.
pub open spec fn users_view(users: Option<&[u64]>) -> Option<Seq<u64>> {
    match users {
        Some(u) => Some(u@),
        None => None,
    }
}

/// The commit that an outcome holds, where it does.
pub open spec fn commit_in(outcome: Result<Option<Commit>, String>) -> Option<
    (Seq<u8>, Option<Seq<u8>>),
> {
    match outcome {
        Ok(Some(c)) => Some(c@),
        _ => None,
    }
}

/// `davey::DaveSession::process_proposals`: the commit that the pending proposals lead to, nothing
/// where none is left, or the words for why they were refused, as no bytes at all are. The commit
/// holds fresh keys, and what leads to one depends on the group's state. Whether the group has keys is
/// not changed by it: a commit counts once it comes back. Without a group all are refused, and whether
/// there is one is not changed either. What is wrong inside the proposals is refused too, in a build
/// without debug assertions; with them `tls_codec` asserts on a length that runs past the end, and
/// `openmls` on what does not fit the group's tree.
#[verifier::external_body]
fn take_proposals(
    session: &mut davey::DaveSession,
    operation: Operation,
    proposals: &[u8],
    recognised: Option<&[u64]>,
) -> (r: Result<Option<Commit>, String>)
    requires
        proposals@.len() == 0 || vector_end(proposals@, 0) is Some,
    ensures
        session_user(*final(session)) == session_user(*old(session)),
        session_channel(*final(session)) == session_channel(*old(session)),
        group_ready(*final(session)) == group_ready(*old(session)),
        in_group(*final(session)) == in_group(*old(session)),
        proposals@.len() == 0 || !in_group(*old(session)) ==> r is Err,
        proposals_lead_to(
            *old(session),
            operation == Operation::Append,
            proposals@,
            users_view(recognised),
            *final(session),
            commit_in(r),
        ),
{
    let operation = match operation {
        Operation::Append => davey::ProposalsOperationType::APPEND,
        Operation::Revoke => davey::ProposalsOperationType::REVOKE,
    };
    match session.process_proposals(operation, proposals, recognised) {
        Ok(commit) => Ok(commit.map(|c| Commit { commit: c.commit, welcome: c.welcome })),
        Err(e) => Err(format!("{e:?}")),
    }
}

/// `davey::DaveSession::process_commit`: whether the commit applied, which gives the group its keys. No
/// bytes at all are none, and without a group none applies; of any others it depends on the group's
/// state. Whether there is a group is not changed by it. What is wrong inside it is refused as it
/// is in proposals.
#[verifier::external_body]
fn take_commit(session: &mut davey::DaveSession, commit: &[u8]) -> (r: bool)
    ensures
        session_user(*final(session)) == session_user(*old(session)),
        session_channel(*final(session)) == session_channel(*old(session)),
        group_ready(*final(session)) == (r || group_ready(*old(session))),
        r ==> in_group(*final(session)),
        in_group(*final(session)) == in_group(*old(session)),
        commit@.len() == 0 || !in_group(*old(session)) ==> !r,
        commit_leads_to(*old(session), commit@, *final(session), r),
{
    session.process_commit(commit).is_ok()
}

/// `davey::DaveSession::process_welcome`: whether the welcome applied: then there is a group,
/// and it has keys. No bytes at all are none; of any others it depends on the group's state. What is
/// wrong inside it, also where that only shows once it is decrypted, is refused as it is in proposals.
#[verifier::external_body]
fn take_welcome(session: &mut davey::DaveSession, welcome: &[u8]) -> (r: bool)
    ensures
        session_user(*final(session)) == session_user(*old(session)),
        session_channel(*final(session)) == session_channel(*old(session)),
        group_ready(*final(session)) == (r || group_ready(*old(session))),
        r ==> in_group(*final(session)),
        welcome@.len() == 0 ==> !r,
        welcome_leads_to(*old(session), welcome@, *final(session), r),
{
    session.process_welcome(welcome).is_ok()
}

/// `davey::DaveSession::set_passthrough_mode`: lets what is received pass unencrypted, or stops that
/// after a number of seconds, ten where none is given. Which moment that is depends on the clock. The
/// user, the group and its keys stay.
#[verifier::external_body]
fn pass_through(session: &mut davey::DaveSession, on: bool, seconds: Option<u32>)
    ensures
        session_user(*final(session)) == session_user(*old(session)),
        session_channel(*final(session)) == session_channel(*old(session)),
        group_ready(*final(session)) == group_ready(*old(session)),
        in_group(*final(session)) == in_group(*old(session)),
        passes_after(*old(session), on, seconds, *final(session)),
{
    session.set_passthrough_mode(on, seconds);
}

/// `davey::DaveSession::reset`: forgets the group, whether or not clearing what was stored of it went
/// through. The keys that frames are encrypted with stay until there are others.
#[verifier::external_body]
fn start_over(session: &mut davey::DaveSession) -> (r: bool)
    ensures
        session_user(*final(session)) == session_user(*old(session)),
        session_channel(*final(session)) == session_channel(*old(session)),
        group_ready(*final(session)) == group_ready(*old(session)),
        !in_group(*final(session)),
        starts_over_as(*old(session), *final(session)),
{
    session.reset().is_ok()
}

/// What is answered where a key package was asked for: the package as it was made, or why none was.
pub fn package_answer(made: Result<Vec<u8>, String>) -> (r: Result<Vec<u8>, String>)
    ensures
        match made {
            Ok(package) => r is Ok && r->Ok_0@ == package@,
            Err(words) => r is Err && r->Err_0@ == "could not make a key package: "@ + words@,
        },
{
    match made {
        Ok(package) => Ok(package),
        Err(words) => Err("could not make a key package: ".to_owned().concat(words.as_str())),
    }
}

/// What is answered where a frame was to be encrypted: the bytes as they came out, or why none did.
pub fn frame_answer(made: Result<Vec<u8>, String>) -> (r: Result<Vec<u8>, String>)
    ensures
        match made {
            Ok(bytes) => r is Ok && r->Ok_0@ == bytes@,
            Err(words) => r is Err && r->Err_0@ == "could not encrypt a frame: "@ + words@,
        },
{
    match made {
        Ok(bytes) => Ok(bytes),
        Err(words) => Err("could not encrypt a frame: ".to_owned().concat(words.as_str())),
    }
}

/// The group that a connection belongs to, and the version in force.
pub struct Dave {
    session: davey::DaveSession,
    version: u16,
}

/// Why a session cannot be started, as far as that is known without starting it.
pub open spec fn start_refusal(user_id: Seq<char>, channel_id: Seq<char>) -> Option<Seq<char>> {
    if u64_of(user_id) is None {
        Some("that is not a user id"@)
    } else if u64_of(channel_id) is None {
        Some("that is not a channel id"@)
    } else {
        None
    }
}

impl Dave {
    /// The version in force.
    pub closed spec fn in_force(&self) -> u16 {
        self.version
    }

    /// Whether there are keys to encrypt with.
    pub closed spec fn has_keys(&self) -> bool {
        group_ready(self.session)
    }

    /// Whether there is a group, be it one that nobody else is in yet.
    pub closed spec fn grouped(&self) -> bool {
        in_group(self.session)
    }

    /// Whether a session is this one after it was told to let media pass, or to stop that.
    pub closed spec fn passes_as(&self, on: bool, seconds: Option<u32>, after: &Dave) -> bool {
        passes_after(self.session, on, seconds, after.session)
    }

    /// Whether a session and a package are what this one may make where it asks to join.
    pub closed spec fn packaged(&self, after: &Dave, package: Option<Seq<u8>>) -> bool {
        package_leads_to(self.session, after.session, package)
    }

    /// Whether a session and bytes are what this one may make of a frame.
    pub closed spec fn encrypted(&self, frame: Seq<u8>, after: &Dave, out: Option<Seq<u8>>) -> bool {
        frame_leads_to(self.session, frame, after.session, out)
    }

    /// Whether a session is what this one may become where it starts over.
    pub closed spec fn restarted(&self, after: &Dave) -> bool {
        starts_over_as(self.session, after.session)
    }

    /// Whether a session is what this one may become by an external sender.
    pub closed spec fn given_sender(&self, data: Seq<u8>, after: &Dave, taken: bool) -> bool {
        sender_leads_to(self.session, data, after.session, taken)
    }

    /// Whether a session is what this one may become by a commit.
    pub closed spec fn committed(&self, commit: Seq<u8>, after: &Dave, applied: bool) -> bool {
        commit_leads_to(self.session, commit, after.session, applied)
    }

    /// Whether a session is what this one may become by a welcome.
    pub closed spec fn welcomed(&self, welcome: Seq<u8>, after: &Dave, applied: bool) -> bool {
        welcome_leads_to(self.session, welcome, after.session, applied)
    }

    /// Whether a session and a commit are what this one may make of proposals.
    pub closed spec fn proposed(
        &self,
        append: bool,
        proposals: Seq<u8>,
        recognised: Option<Seq<u64>>,
        after: &Dave,
        commit: Option<(Seq<u8>, Option<Seq<u8>>)>,
    ) -> bool {
        proposals_lead_to(self.session, append, proposals, recognised, after.session, commit)
    }

    /// Which channel's group the session is for.
    pub closed spec fn channel(&self) -> u64 {
        session_channel(self.session)
    }

    /// Whom the session is for.
    pub closed spec fn user(&self) -> u64 {
        session_user(self.session)
    }

    /// Whether a session and an answer are what this one may make of a frame. Proposals and commits
    /// come to nothing where there is no group.
    pub open spec fn stepped(
        &self,
        step: GroupStepV,
        recognised: Option<Seq<u64>>,
        after: &Dave,
        reply: ReplyV,
    ) -> bool {
        match step {
            GroupStepV::Nothing => *after == *self,
            GroupStepV::ExternalSender(data) => {
                ||| self.given_sender(sender_handed_on(data), after, true) && after.grouped()
                ||| self.given_sender(sender_handed_on(data), after, false)
            },
            GroupStepV::Proposals(operation, proposals) => {
                &&& after.grouped() == self.grouped()
                &&& !self.grouped() ==> reply == ReplyV::Nothing
                &&& exists|commit: Option<(Seq<u8>, Option<Seq<u8>>)>|
                    reply == #[trigger] proposals_answer(commit) && self.proposed(
                        operation == Operation::Append,
                        proposals_handed_on(proposals),
                        recognised,
                        after,
                        commit,
                    )
            },
            GroupStepV::Commit(transition, commit) => {
                &&& self.committed(commit, after, reply != admitted_lost(transition))
                &&& after.grouped() == self.grouped()
                &&& !self.grouped() ==> reply == admitted_lost(transition)
            },
            GroupStepV::Welcome(transition, welcome) => self.welcomed(
                welcome,
                after,
                reply != admitted_lost(transition),
            ),
        }
    }

    /// Starts a session, where the server said which version is in force. Zero means that none is.
    pub fn new(version: u16, user_id: &str, channel_id: &str) -> (r: Result<Option<Dave>, String>)
        ensures
            match r {
                Ok(None) => version == 0,
                Ok(Some(d)) => version == 1 && start_refusal(user_id@, channel_id@) is None
                    && d.in_force() == version && !d.has_keys() && !d.grouped()
                    && u64_of(user_id@) == Some(d.user() as int) && u64_of(channel_id@) == Some(
                    d.channel() as int,
                ),
                Err(e) => match start_refusal(user_id@, channel_id@) {
                    Some(words) => version != 0 && e@ == words,
                    None => version > 1 && "could not start DAVE: "@.is_prefix_of(e@),
                },
            },
    {
        if version == 0 {
            return Ok(None);
        }
        let user: u64 = match parse_u64(user_id) {
            Some(u) => u,
            None => {
                return Err("that is not a user id".to_owned());
            },
        };
        let channel: u64 = match parse_u64(channel_id) {
            Some(c) => c,
            None => {
                return Err("that is not a channel id".to_owned());
            },
        };
        match start_session(version, user, channel) {
            Ok(session) => Ok(Some(Dave { session, version })),
            Err(e) => {
                let words = "could not start DAVE: ".to_owned().concat(e.as_str());
                assert(words@.subrange(0, "could not start DAVE: "@.len() as int)
                    =~= "could not start DAVE: "@);
                Err(words)
            },
        }
    }

    /// This device's request to join the group.
    pub fn key_package(&mut self) -> (r: Result<Vec<u8>, String>)
        ensures
            final(self).in_force() == old(self).in_force(),
            final(self).has_keys() == old(self).has_keys(),
            final(self).user() == old(self).user(),
            final(self).channel() == old(self).channel(),
            final(self).grouped() == old(self).grouped(),
            match r {
                Ok(package) => is_package_of(package@, old(self).user()),
                Err(e) => "could not make a key package: "@.is_prefix_of(e@),
            },
            old(self).packaged(final(self), bytes_in(r)),
    {
        let made = make_key_package(&mut self.session);
        package_answer(made)
    }

    /// Whether frames can be encrypted.
    pub fn ready(&self) -> (r: bool)
        ensures
            r == self.has_keys(),
    {
        session_ready(&self.session)
    }

    /// Encrypts one video frame for the group. Without keys nothing is ever let out, and with them
    /// nothing but silence is let out as it is.
    pub fn encrypt_video(&mut self, frame: &[u8]) -> (r: Result<Vec<u8>, String>)
        requires
            !old(self).has_keys() || frame@ == silence() || has_header(frame@),
        ensures
            final(self).in_force() == old(self).in_force(),
            final(self).user() == old(self).user(),
            final(self).channel() == old(self).channel(),
            final(self).grouped() == old(self).grouped(),
            final(self).has_keys() == old(self).has_keys(),
            !old(self).has_keys() ==> r is Err,
            old(self).has_keys() && frame@ == silence() ==> r is Ok && r->Ok_0@ == frame@,
            match r {
                Ok(out) => frame@ == silence() || is_encrypted(out@, frame@),
                Err(e) => "could not encrypt a frame: "@.is_prefix_of(e@),
            },
            old(self).encrypted(frame@, final(self), bytes_in(r)),
    {
        let made = encrypt_frame(&mut self.session, frame);
        frame_answer(made)
    }

    /// Takes in a frame of bytes and says what to send back. `recognised` are the users that are
    /// expected in the group, where they are known.
    pub fn take_binary(&mut self, frame: &BinaryFrame<'_>, recognised: Option<&[u64]>) -> (r: Reply)
        ensures
            final(self).in_force() == old(self).in_force(),
            final(self).user() == old(self).user(),
            final(self).channel() == old(self).channel(),
            may_answer(step_in(frame@), old(self).in_force(), r@),
            final(self).has_keys() == (old(self).has_keys() || gives_keys(step_in(frame@), r@)),
            gives_keys(step_in(frame@), r@) ==> final(self).grouped(),
            old(self).stepped(step_in(frame@), users_view(recognised), final(self), r@),
    {
        let ghost step = step_in(frame@);
        let ghost users = users_view(recognised);
        match read_step(frame) {
            GroupStep::Nothing => Reply::Nothing,
            GroupStep::ExternalSender(data) => {
                let taken = take_external_sender(&mut self.session, hand_on_sender(data));
                assert(old(self).stepped(step, users, &*self, ReplyV::Nothing));
                Reply::Nothing
            },
            GroupStep::Proposals(operation, proposals) => {
                let outcome = take_proposals(
                    &mut self.session,
                    operation,
                    hand_on_proposals(proposals),
                    recognised,
                );
                let ghost led_to = commit_in(outcome);
                let commit = match outcome {
                    Ok(commit) => commit,
                    Err(_) => None,
                };
                assert(commit_view(commit) == led_to);
                let reply = answer_proposals(commit);
                assert(reply@ == proposals_answer(led_to));
                assert(old(self).stepped(step, users, &*self, reply@));
                reply
            },
            GroupStep::Commit(transition, commit) => {
                let applied = take_commit(&mut self.session, commit);
                let reply = answer_transition(applied, transition, self.version);
                proof {
                    lemma_answers_differ(transition as int, self.version);
                    assert(applied == (reply@ != admitted_lost(transition as int)));
                    assert(old(self).stepped(step, users, &*self, reply@));
                }
                reply
            },
            GroupStep::Welcome(transition, welcome) => {
                let applied = take_welcome(&mut self.session, welcome);
                let reply = answer_transition(applied, transition, self.version);
                proof {
                    lemma_answers_differ(transition as int, self.version);
                    assert(applied == (reply@ != admitted_lost(transition as int)));
                    assert(old(self).stepped(step, users, &*self, reply@));
                }
                reply
            },
        }
    }

    /// Takes in a JSON frame and says what to send back. Media is let through while a transition is
    /// prepared and held back again once it is executed; the first epoch forgets the group.
    pub fn take_json(&mut self, op: u64, d: &Json) -> (r: Reply)
        ensures
            r@ == epoch_answer(op, d@, old(self).in_force()),
            final(self).in_force() == old(self).in_force(),
            final(self).user() == old(self).user(),
            final(self).channel() == old(self).channel(),
            final(self).has_keys() == old(self).has_keys(),
            match epoch_step_in(op, d@) {
                EpochStep::Nothing => *final(self) == *old(self),
                EpochStep::Passthrough { on, seconds } => {
                    &&& old(self).passes_as(on, seconds, final(self))
                    &&& final(self).grouped() == old(self).grouped()
                },
                EpochStep::StartOver => !final(self).grouped() && old(self).restarted(final(self)),
            },
    {
        match read_epoch_step(op, d) {
            EpochStep::Nothing => Reply::Nothing,
            EpochStep::Passthrough { on, seconds } => {
                pass_through(&mut self.session, on, seconds);
                if op == OP_PREPARE_TRANSITION {
                    acknowledge(read_transition(d), self.version)
                } else {
                    Reply::Nothing
                }
            },
            EpochStep::StartOver => {
                let _ = start_over(&mut self.session);
                Reply::Nothing
            },
        }
    }
}

/// The first epoch is never acknowledged, and every other transition that applies is, by its own
/// number.
pub proof fn law_only_transitions_are_acknowledged(transition: int, version: u16)
    ensures
        transition_answer(true, transition, version) is Nothing <==> transition == 0,
        transition_answer(false, transition, version) == admitted_lost(transition),
{
}

/// A session that has no group, as after the first epoch, takes no proposals and no commits.
pub proof fn law_without_a_group_nothing_applies(
    before: Dave,
    step: GroupStepV,
    recognised: Option<Seq<u64>>,
    after: Dave,
    reply: ReplyV,
)
    requires
        !before.grouped(),
        before.stepped(step, recognised, &after, reply),
        step is Proposals || step is Commit,
    ensures
        !after.grouped(),
        step is Proposals ==> reply is Nothing,
        step matches GroupStepV::Commit(transition, _) ==> reply == admitted_lost(transition),
{
}

/// A frame from the server is its operation, behind two bytes of its number, and what follows; shorter
/// bytes are none. A frame to the server is its operation and what follows.
pub proof fn law_a_frame_is_its_operation_and_the_rest(
    first: u8,
    second: u8,
    opcode: u8,
    payload: Seq<u8>,
    short: Seq<u8>,
)
    requires
        short.len() < 3,
    ensures
        ({
            let r = frame_in(seq![first, second, opcode] + payload);
            r is Some && r->0.opcode == opcode && r->0.payload == payload
        }),
        frame_in(short) is None,
        frame_out(opcode, payload)[0] == opcode,
        frame_out(opcode, payload).skip(1) == payload,
{
    let data = seq![first, second, opcode] + payload;
    assert(data.skip(3) =~= payload);
    assert((seq![opcode] + payload).skip(1) =~= payload);
}

/// A transition is numbered by two bytes, the larger part first, and what follows belongs to it.
pub proof fn law_a_transition_is_numbered_by_two_bytes(
    high: u8,
    low: u8,
    rest: Seq<u8>,
    short: Seq<u8>,
)
    requires
        short.len() < 2,
    ensures
        transition_in(seq![high, low] + rest) == Some((256 * high + low, rest)),
        transition_in(short) is None,
{
    let payload = seq![high, low] + rest;
    assert(payload.skip(2) =~= rest);
}

/// Each operation asks one thing of the group: to take a sender, proposals to add or to take away by the
/// byte before them, a commit, or a welcome, each of these with its transition; anything else asks
/// nothing.
pub proof fn law_each_operation_asks_one_thing(payload: Seq<u8>, opcode: u8)
    ensures
        step_in(FrameV { opcode: 25, payload }) == GroupStepV::ExternalSender(payload),
        step_in(FrameV { opcode: 27, payload: seq![0u8] + payload }) == GroupStepV::Proposals(
            Operation::Append,
            payload,
        ),
        step_in(FrameV { opcode: 27, payload: seq![1u8] + payload }) == GroupStepV::Proposals(
            Operation::Revoke,
            payload,
        ),
        payload.len() == 0 || payload[0] > 1 ==> step_in(FrameV { opcode: 27, payload }) is Nothing,
        transition_in(payload) matches Some(t) ==> step_in(FrameV { opcode: 29, payload })
            == GroupStepV::Commit(t.0, t.1),
        transition_in(payload) matches Some(t) ==> step_in(FrameV { opcode: 30, payload })
            == GroupStepV::Welcome(t.0, t.1),
        transition_in(payload) is None ==> step_in(FrameV { opcode: 29, payload }) is Nothing
            && step_in(FrameV { opcode: 30, payload }) is Nothing,
        opcode != 25 && opcode != 27 && opcode != 29 && opcode != 30 ==> step_in(
            FrameV { opcode, payload },
        ) is Nothing,
{
    assert((seq![0u8] + payload).skip(1) =~= payload);
    assert((seq![1u8] + payload).skip(1) =~= payload);
}

/// A transition that applied is acknowledged by its number and the version in force, unless it is the
/// first; one that did not is admitted to, also the first.
pub proof fn law_a_transition_is_answered_by_its_number(transition: int, version: u16)
    ensures
        acknowledged(0, version) is Nothing,
        transition_answer(true, transition, version) == acknowledged(transition, version),
        transition != 0 ==> (acknowledged(transition, version) matches ReplyV::Json(j) && {
            &&& j.at("op"@) == JsonV::Int(23)
            &&& j.at("d"@).at("transition_id"@) == JsonV::Int(transition)
            &&& j.at("d"@).at("protocol_version"@) == JsonV::Int(version as int)
        }),
        (transition_answer(false, transition, version) matches ReplyV::Json(j) && {
            &&& j.at("op"@) == JsonV::Int(31)
            &&& j.at("d"@).at("transition_id"@) == JsonV::Int(transition)
        }),
{
    broadcast use law_put_then_read;

    reveal_strlit("op");
    reveal_strlit("d");
    reveal_strlit("transition_id");
    reveal_strlit("protocol_version");
    assert("op"@.len() == 2);
    assert("d"@.len() == 1);
    assert("transition_id"@.len() == 13);
    assert("protocol_version"@.len() == 16);
}

/// Proposals that led to a commit are answered with it and the welcome behind it, where there is one;
/// those that led to none are not answered.
pub proof fn law_proposals_are_answered_with_their_commit(commit: Seq<u8>, welcome: Seq<u8>)
    ensures
        proposals_answer(Some((commit, Some(welcome)))) == ReplyV::Binary(28, commit + welcome),
        proposals_answer(Some((commit, None))) == ReplyV::Binary(28, commit),
        proposals_answer(None) is Nothing,
{
    assert(commit + Seq::<u8>::empty() =~= commit);
}

/// Media passes while a transition is prepared, for two minutes, and no longer once it is executed; the
/// first epoch starts the group over, and no other does.
pub proof fn law_media_passes_while_a_transition_is_prepared(op: u64, d: JsonV, version: u16)
    ensures
        epoch_step_in(21, d) == (EpochStep::Passthrough { on: true, seconds: Some(120u32) }),
        epoch_step_in(22, d) == (EpochStep::Passthrough { on: false, seconds: None }),
        epoch_step_in(24, d) is StartOver <==> d.at("epoch"@) == JsonV::Int(1),
        d.at("epoch"@) != JsonV::Int(1) ==> epoch_step_in(24, d) is Nothing,
        op != 21 && op != 22 && op != 24 ==> epoch_step_in(op, d) is Nothing,
        d.at("transition_id"@).as_u64() matches Some(t) ==> epoch_answer(21, d, version)
            == acknowledged(t, version),
        d.at("transition_id"@).as_u64() is None ==> epoch_answer(21, d, version) is Nothing,
        op != 21 ==> epoch_answer(op, d, version) is Nothing,
{
}

/// A session is refused where the user or the channel is no number, the user first.
pub proof fn law_a_session_needs_two_numbers(user_id: Seq<char>, channel_id: Seq<char>)
    ensures
        ({
            let r = start_refusal(user_id, channel_id);
            &&& r is None <==> u64_of(user_id) is Some && u64_of(channel_id) is Some
            &&& u64_of(user_id) is None ==> r == Some("that is not a user id"@)
            &&& u64_of(user_id) is Some && u64_of(channel_id) is None ==> r == Some(
                "that is not a channel id"@,
            )
        }),
{
}

/// What is handed on is what came, or nothing: a sender whole where its lengths add up, and proposals
/// whole where theirs do.
pub proof fn law_only_what_adds_up_is_handed_on(data: Seq<u8>)
    ensures
        sender_handed_on(data) == data || sender_handed_on(data).len() == 0,
        proposals_handed_on(data) == data || proposals_handed_on(data).len() == 0,
        data.len() > 0 && data[0] < 0x40 && data[0] as int + 1 <= data.len() ==> proposals_handed_on(
            data,
        ) == data,
        data.len() > 0 && data[0] < 0x40 && data[0] as int + 1 > data.len() ==> proposals_handed_on(
            data,
        ).len() == 0,
{
}

/// Numbers are read from bytes with the most significant first.
pub proof fn law_numbers_have_their_largest_byte_first(bytes: Seq<u8>, last: u8)
    ensures
        number_in(Seq::empty()) == 0,
        number_in(bytes.push(last)) == 256 * number_in(bytes) + last,
{
    assert(bytes.push(last).drop_last() =~= bytes);
}

/// What may be answered is settled by what was asked: nothing to a sender, bytes or nothing to proposals,
/// and to a commit or a welcome that it applied or that it did not; nothing that came without bytes can
/// have applied.
pub proof fn law_answers_fit_what_was_asked(
    data: Seq<u8>,
    transition: int,
    version: u16,
    reply: ReplyV,
)
    ensures
        may_answer(GroupStepV::Nothing, version, reply) ==> reply is Nothing,
        may_answer(GroupStepV::ExternalSender(data), version, reply) ==> reply is Nothing,
        may_answer(GroupStepV::Proposals(Operation::Append, data), version, reply) ==> !(
        reply is Json),
        data.len() == 0 ==> {
            &&& may_answer(GroupStepV::Proposals(Operation::Revoke, data), version, reply)
                ==> reply is Nothing
            &&& may_answer(GroupStepV::Commit(transition, data), version, reply) ==> reply
                == admitted_lost(transition)
            &&& may_answer(GroupStepV::Welcome(transition, data), version, reply) ==> reply
                == admitted_lost(transition)
        },
        may_answer(GroupStepV::Commit(transition, data), version, reply) ==> reply
            == acknowledged(transition, version) || reply == admitted_lost(transition),
        may_answer(GroupStepV::Welcome(transition, data), version, reply) ==> reply
            == acknowledged(transition, version) || reply == admitted_lost(transition),
        gives_keys(GroupStepV::Commit(transition, data), reply) <==> reply != admitted_lost(
            transition,
        ),
        gives_keys(GroupStepV::Welcome(transition, data), reply) <==> reply != admitted_lost(
            transition,
        ),
        !gives_keys(GroupStepV::ExternalSender(data), reply),
        !gives_keys(GroupStepV::Proposals(Operation::Append, data), reply),
{
}

/// A vector is its length and as many bytes behind it. A length below sixty-four is one byte, one below
/// sixteen thousand three hundred and eighty-four is two with the first marked by one bit, and any other
/// is four with the first marked by the highest; with both marks there is no length. One that is not there
/// whole is none.
pub proof fn law_a_vector_is_as_long_as_it_says(data: Seq<u8>, at: int, length: int)
    requires
        0 <= at <= data.len(),
        0 <= length,
    ensures
        at == data.len() ==> vector_end(data, at) is None,
        at + 1 <= data.len() && length < 64 && data[at] == length ==> {
            &&& at + 1 + length <= data.len() ==> vector_end(data, at) == Some(at + 1 + length)
            &&& at + 1 + length > data.len() ==> vector_end(data, at) is None
        },
        at + 2 <= data.len() && length < 16384 && data[at] == 64 + length / 256 && data[at + 1]
            == length % 256 ==> {
            &&& at + 2 + length <= data.len() ==> vector_end(data, at) == Some(at + 2 + length)
            &&& at + 2 + length > data.len() ==> vector_end(data, at) is None
        },
        at + 1 == data.len() && data[at] >= 64 ==> vector_end(data, at) is None,
        at + 4 > data.len() && at < data.len() && data[at] >= 128 ==> vector_end(data, at) is None,
        at < data.len() && data[at] >= 192 ==> vector_end(data, at) is None,
        at + 4 <= data.len() && 128 <= data[at] < 192 && length == (data[at] - 128) * 16777216 + data[at
            + 1] * 65536 + data[at + 2] * 256 + data[at + 3] ==> {
            &&& at + 4 + length <= data.len() ==> vector_end(data, at) == Some(at + 4 + length)
            &&& at + 4 + length > data.len() ==> vector_end(data, at) is None
        },
{
}

/// A sender is a key, two bytes and a credential, the first and the last of them vectors: what lacks
/// either is none.
pub proof fn law_a_sender_is_a_key_and_a_credential(data: Seq<u8>, end: int)
    ensures
        vector_end(data, 0) is None ==> !can_be_sender(data),
        vector_end(data, 0) == Some(end) && vector_end(data, end + 2) is None ==> !can_be_sender(
            data,
        ),
        vector_end(data, 0) == Some(end) && vector_end(data, end + 2) is Some ==> can_be_sender(
            data,
        ),
{
}

/// Proposals are added or taken back as they say, and their commit is what is answered; nothing else
/// about a session is settled by a frame that asks for nothing.
pub proof fn law_proposals_are_added_or_taken_back(
    before: &Dave,
    proposals: Seq<u8>,
    recognised: Option<Seq<u64>>,
    after: &Dave,
    reply: ReplyV,
)
    ensures
        before.stepped(GroupStepV::Nothing, recognised, after, reply) ==> *after == *before,
        before.stepped(
            GroupStepV::Proposals(Operation::Append, proposals),
            recognised,
            after,
            reply,
        ) ==> exists|commit: Option<(Seq<u8>, Option<Seq<u8>>)>|
            reply == #[trigger] proposals_answer(commit) && before.proposed(
                true,
                proposals_handed_on(proposals),
                recognised,
                after,
                commit,
            ),
        before.stepped(
            GroupStepV::Proposals(Operation::Revoke, proposals),
            recognised,
            after,
            reply,
        ) ==> exists|commit: Option<(Seq<u8>, Option<Seq<u8>>)>|
            reply == #[trigger] proposals_answer(commit) && before.proposed(
                false,
                proposals_handed_on(proposals),
                recognised,
                after,
                commit,
            ),
{
}

/// Ten bytes of a key frame stay readable and one of any other; a frame is a key frame where its first
/// byte is even.
pub proof fn law_a_key_frame_has_the_longer_header(frame: Seq<u8>)
    requires
        frame.len() > 0,
    ensures
        frame[0] % 2 == 0 ==> header_length(frame) == 10,
        frame[0] % 2 == 1 ==> header_length(frame) == 1,
{
}

} // verus!
