//! One connected client: identity, pose, cosmetics, aura, the packets queued
//! for it, and the parser that turns what it sent into `UserEvent`s.
//!
//! A `User` never reads or writes a socket. The caller reads as many bytes
//! as `wants` asks for and hands the outcome to `poll`; what the user is to
//! receive collects in its outbox until the caller takes and writes it.

use std::collections::HashSet;
use vstd::prelude::*;
use vstd::slice::*;
use vstd::std_specs::iter::IteratorSpec;
use vstd::utf8::*;
use crate::math::{Mat3, Vector3};
use crate::protocol::{
    i32_at, lemma_string_at_len, position_update_bytes, string_at, u32_at, ByteReader,
    ByteWriter, MsgCommon, Strategy,
};
use crate::packets::{
    broadcast_id, client_id, new_user_replies, text_message, text_packet, transform,
    transform_packet, user_joined, MAX_TEXT,
};
use crate::text::{
    after_separator, byte_len, lemma_byte_len_subrange, lemma_separator_index, separator_index,
    split_message, starts_with,
};

verus! {

broadcast use vstd::std_specs::hash::group_hash_axioms;

/// The largest body that a general message may announce.
pub const MAX_BODY: usize = 1024;

/// What a client asked for, as parsed from one packet.
#[derive(Clone, Debug, PartialEq, Eq)]
pub enum UserEvent {
    NewUser(String, String),
    StateChange,
    PositionUpdate(Vector3),
    TransformUpdate(Mat3, Vector3),
    ChatSend(String),
    CharacterUpdate(String),
    NameChange(String),
    AvatarChange(String),
    PrivateChat(i32, String),
    ApplSpecific(Strategy, i32, String, String, i32),
}

/// A `UserEvent` with its texts as character sequences and its matrix as a
/// sequence of nine wire integers.
pub enum EventModel {
    NewUser(Seq<char>, Seq<char>),
    StateChange,
    PositionUpdate(Vector3),
    TransformUpdate(Seq<i32>, Vector3),
    ChatSend(Seq<char>),
    CharacterUpdate(Seq<char>),
    NameChange(Seq<char>),
    AvatarChange(Seq<char>),
    PrivateChat(i32, Seq<char>),
    ApplSpecific(Strategy, i32, Seq<char>, Seq<char>, i32),
}

impl View for UserEvent {
    type V = EventModel;

    open spec fn view(&self) -> EventModel {
        match *self {
            UserEvent::NewUser(name, avatar) => EventModel::NewUser(name@, avatar@),
            UserEvent::StateChange => EventModel::StateChange,
            UserEvent::PositionUpdate(pos) => EventModel::PositionUpdate(pos),
            UserEvent::TransformUpdate(rot, pos) => EventModel::TransformUpdate(rot.data@, pos),
            UserEvent::ChatSend(msg) => EventModel::ChatSend(msg@),
            UserEvent::CharacterUpdate(data) => EventModel::CharacterUpdate(data@),
            UserEvent::NameChange(name) => EventModel::NameChange(name@),
            UserEvent::AvatarChange(avatar) => EventModel::AvatarChange(avatar@),
            UserEvent::PrivateChat(id, text) => EventModel::PrivateChat(id, text@),
            UserEvent::ApplSpecific(strategy, id, method, strarg, intarg) => EventModel::ApplSpecific(
                strategy,
                id,
                method@,
                strarg@,
                intarg,
            ),
        }
    }
}

/// The view of an optional event.
pub open spec fn opt_event(o: Option<UserEvent>) -> Option<EventModel> {
    match o {
        Some(e) => Some(e@),
        None => None,
    }
}

/// Which part of a packet a user's next bytes belong to.
#[derive(Clone, Copy, Debug, PartialEq, Eq, Structural)]
pub enum Stage {
    /// The class byte that opens every packet.
    Class,
    /// The 16-byte header of a general message.
    Header,
    /// The body of a general message with the given opcode.
    Body { opcode: u32, size: usize },
    /// The 14 bytes of a class-1 packet, which are read and dropped.
    Filler,
    /// The 26 bytes that follow the class byte of a position update.
    Position,
}

/// The number of bytes that make up the part `stage`.
pub open spec fn need(stage: Stage) -> nat {
    match stage {
        Stage::Class => 1,
        Stage::Header => 16,
        Stage::Body { opcode, size } => size as nat,
        Stage::Filler => 14,
        Stage::Position => 26,
    }
}

/// The state of a user, as plain values.
pub struct UserModel {
    pub id: i32,
    pub aura: Set<i32>,
    pub connected: bool,
    pub username: Seq<char>,
    pub avatar: Seq<char>,
    pub data: Seq<char>,
    pub position: Vector3,
    pub rotation: Seq<i32>,
    /// The packets queued for this user and not yet taken, oldest first.
    pub outbox: Seq<Seq<u8>>,
    pub stage: Stage,
    /// The bytes of the current part that have arrived so far.
    pub pending: Seq<u8>,
}

impl UserModel {
    /// The user that a successful handshake creates.
    pub open spec fn fresh(id: i32) -> UserModel {
        UserModel {
            id,
            aura: Set::empty(),
            connected: true,
            username: Seq::empty(),
            avatar: Seq::empty(),
            data: Seq::empty(),
            position: Vector3 { x: 0, y: 0, z: 0 },
            rotation: Seq::new(9, |i: int| 0i32),
            outbox: Seq::empty(),
            stage: Stage::Class,
            pending: Seq::empty(),
        }
    }

    /// The stored texts are short enough to be relayed, the rotation has
    /// nine entries, the aura is finite, and the current part is incomplete.
    pub open spec fn wf(self) -> bool {
        &&& byte_len(self.username) <= MAX_TEXT
        &&& byte_len(self.avatar) <= MAX_TEXT
        &&& byte_len(self.data) <= MAX_TEXT
        &&& self.rotation.len() == 9
        &&& self.aura.finite()
        &&& self.pending.len() < need(self.stage)
        &&& (self.stage matches Stage::Body { opcode, size } ==> size <= MAX_BODY)
    }

    /// This user with `packet` added to the end of its outbox.
    pub open spec fn sent(self, packet: Seq<u8>) -> UserModel {
        UserModel { outbox: self.outbox.push(packet), ..self }
    }

    /// This user after it has been marked as gone.
    pub open spec fn disconnected(self) -> UserModel {
        UserModel { connected: false, ..self }
    }
}

/// The byte sequences that a vector of packets holds.
pub open spec fn packets_of(v: Seq<Vec<u8>>) -> Seq<Seq<u8>> {
    Seq::new(v.len(), |i: int| v[i]@)
}

/// The avatar that every client without a usable one is shown with.
pub open spec fn default_avatar() -> Seq<char> {
    "avtwrl/01cat.wrl"@
}

/// What every accepted avatar begins with.
pub open spec fn avatar_prefix() -> Seq<char> {
    "avtwrl/"@
}

/// The avatar that stands for `avatar`: itself where it begins with
/// `avtwrl/`, the default avatar otherwise.
pub open spec fn valid_avatar(avatar: Seq<char>) -> Seq<char> {
    if avatar_prefix().is_prefix_of(avatar) {
        avatar
    } else {
        default_avatar()
    }
}

/// The default avatar takes sixteen bytes.
pub proof fn lemma_default_avatar_len()
    ensures
        byte_len(default_avatar()) == 16,
{
    reveal_strlit("avtwrl/01cat.wrl");
    let s = default_avatar();
    assert(is_ascii_chars(s));
    is_ascii_chars_encode_utf8(s);
}

/// Replaces an avatar that does not begin with `avtwrl/` by the default one.
pub fn validate_avatar(avatar: String) -> (r: String)
    ensures
        r@ == valid_avatar(avatar@),
{
    if !starts_with(avatar.as_str(), "avtwrl/") {
        return "avtwrl/01cat.wrl".to_owned();
    }
    avatar
}

impl EventModel {
    /// Every text of the event is short enough to be relayed, and its
    /// rotation, if it has one, has nine entries.
    pub open spec fn wf(self) -> bool {
        match self {
            EventModel::NewUser(name, avatar) => byte_len(name) <= MAX_TEXT && byte_len(avatar)
                <= MAX_TEXT,
            EventModel::StateChange => true,
            EventModel::PositionUpdate(pos) => true,
            EventModel::TransformUpdate(rot, pos) => rot.len() == 9,
            EventModel::ChatSend(msg) => byte_len(msg) <= MAX_TEXT,
            EventModel::CharacterUpdate(data) => byte_len(data) <= MAX_TEXT,
            EventModel::NameChange(name) => byte_len(name) <= MAX_TEXT,
            EventModel::AvatarChange(avatar) => byte_len(avatar) <= MAX_TEXT,
            EventModel::PrivateChat(id, text) => byte_len(text) <= MAX_TEXT,
            EventModel::ApplSpecific(strategy, id, method, strarg, intarg) => byte_len(method)
                <= MAX_TEXT && byte_len(strarg) <= MAX_TEXT,
        }
    }
}

/// The event in a `CMsgNewUser` body: the name, then the avatar, each up to
/// its zero byte. There is none where the body ends with the name.
pub open spec fn new_user_event(packet: Seq<u8>) -> Option<EventModel> {
    let name = string_at(packet, 0);
    if packet.len() < byte_len(name) + 1 {
        None
    } else {
        Some(EventModel::NewUser(name, valid_avatar(string_at(packet, (byte_len(name) + 1) as int))))
    }
}

/// The event in the content of a transform update: nine rotation entries
/// and three coordinates, four bytes each.
pub open spec fn transform_event(content: Seq<u8>) -> Option<EventModel> {
    if content.len() < 48 {
        None
    } else {
        Some(
            EventModel::TransformUpdate(
                Seq::new(9, |i: int| i32_at(content, 4 * i)),
                Vector3 {
                    x: i32_at(content, 36),
                    y: i32_at(content, 40),
                    z: i32_at(content, 44),
                },
            ),
        )
    }
}

/// The event in the content of a chat line: what follows the first `": "`,
/// unless nothing does.
pub open spec fn chat_event(content: Seq<u8>) -> Option<EventModel> {
    match after_separator(string_at(content, 0)) {
        Some(msg) => if msg.len() == 0 {
            None
        } else {
            Some(EventModel::ChatSend(msg))
        },
        None => None,
    }
}

/// The event in the content of a private chat line: four bytes that are
/// skipped, then the text.
pub open spec fn private_chat_event(id: i32, content: Seq<u8>) -> Option<EventModel> {
    if content.len() < 5 {
        None
    } else {
        Some(EventModel::PrivateChat(id, string_at(content, 4)))
    }
}

/// The event in the content of an application-specific call: one byte that
/// is skipped, the method, the string argument, and the integer argument.
pub open spec fn appl_specific_event(id: i32, strategy: u8, content: Seq<u8>) -> Option<
    EventModel,
> {
    let method = string_at(content, 1);
    let strarg = string_at(content, (byte_len(method) + 2) as int);
    if content.len() < 7 {
        None
    } else if content.len() < byte_len(method) + 2 {
        None
    } else if content.len() < byte_len(method) + byte_len(strarg) + 7 {
        None
    } else {
        Some(
            EventModel::ApplSpecific(
                Strategy::of_byte(strategy),
                id,
                method,
                strarg,
                i32_at(content, (byte_len(method) + byte_len(strarg) + 3) as int),
            ),
        )
    }
}

/// The event in a `MsgCommon` body. The body holds an id, a sub-type, a
/// strategy byte and the content; a sub-type that is none of the six known
/// ones is read as an application-specific call.
pub open spec fn common_event(packet: Seq<u8>) -> Option<EventModel> {
    let id = i32_at(packet, 0);
    let msg_type = u32_at(packet, 4);
    let content = packet.subrange(9, packet.len() as int);
    if packet.len() < 10 {
        None
    } else if msg_type == 2 {
        transform_event(content)
    } else if msg_type == 9 {
        chat_event(content)
    } else if msg_type == 12 {
        Some(EventModel::CharacterUpdate(string_at(content, 0)))
    } else if msg_type == 13 {
        Some(EventModel::NameChange(string_at(content, 0)))
    } else if msg_type == 14 {
        Some(EventModel::AvatarChange(valid_avatar(string_at(content, 0))))
    } else if msg_type == 15 {
        private_chat_event(id, content)
    } else {
        appl_specific_event(id, packet[8], content)
    }
}

/// The event in a general message with the given opcode and body.
pub open spec fn general_event(opcode: u32, body: Seq<u8>) -> Option<EventModel> {
    if opcode == 0 {
        new_user_event(body)
    } else if opcode == 6 {
        common_event(body)
    } else if opcode == 7 {
        Some(EventModel::StateChange)
    } else {
        None
    }
}

/// The event in the 26 bytes that follow the class byte of a position
/// update: three ids that are skipped, then the coordinates.
pub open spec fn position_event(packet: Seq<u8>) -> EventModel {
    EventModel::PositionUpdate(
        Vector3 { x: i32_at(packet, 12), y: i32_at(packet, 16), z: i32_at(packet, 20) },
    )
}

/// The user after it has taken note of its own event: a new user stores
/// name and avatar and is sent its three replies; pose, character data,
/// name and avatar are cached; other events change nothing.
pub open spec fn absorb(u: UserModel, e: EventModel) -> UserModel {
    match e {
        EventModel::NewUser(name, avatar) => UserModel {
            username: name,
            avatar: avatar,
            outbox: u.outbox + new_user_replies(u.id, name, avatar),
            ..u
        },
        EventModel::PositionUpdate(pos) => UserModel { position: pos, ..u },
        EventModel::TransformUpdate(rot, pos) => UserModel { rotation: rot, position: pos, ..u },
        EventModel::CharacterUpdate(data) => UserModel { data: data, ..u },
        EventModel::NameChange(name) => UserModel { username: name, ..u },
        EventModel::AvatarChange(avatar) => UserModel { avatar: avatar, ..u },
        _ => u,
    }
}

/// `absorb` for an event that may be absent.
pub open spec fn absorbed(u: UserModel, o: Option<EventModel>) -> UserModel {
    match o {
        Some(e) => absorb(u, e),
        None => u,
    }
}

/// What a read on the user's socket came to.
#[derive(Clone, Debug, PartialEq, Eq)]
pub enum ReadOutcome {
    /// The bytes that arrived; none at all means that the peer has closed.
    Data(Vec<u8>),
    /// Nothing has arrived yet.
    WouldBlock,
    /// The read failed.
    Failed,
}

/// A `ReadOutcome` with its bytes as a sequence.
pub enum ReadModel {
    Data(Seq<u8>),
    WouldBlock,
    Failed,
}

impl View for ReadOutcome {
    type V = ReadModel;

    open spec fn view(&self) -> ReadModel {
        match *self {
            ReadOutcome::Data(bytes) => ReadModel::Data(bytes@),
            ReadOutcome::WouldBlock => ReadModel::WouldBlock,
            ReadOutcome::Failed => ReadModel::Failed,
        }
    }
}

/// What `poll` asks of its caller.
#[derive(Clone, Debug, PartialEq, Eq)]
pub enum Polled {
    /// A part of a packet is complete and the next is due: read again.
    Again,
    /// Nothing more can be done for this user now.
    Idle,
    /// A packet is complete and this is what it asks for.
    Event(UserEvent),
}

/// A `Polled` with its event as a model.
pub enum PolledModel {
    Again,
    Idle,
    Event(EventModel),
}

impl View for Polled {
    type V = PolledModel;

    open spec fn view(&self) -> PolledModel {
        match *self {
            Polled::Again => PolledModel::Again,
            Polled::Idle => PolledModel::Idle,
            Polled::Event(e) => PolledModel::Event(e@),
        }
    }
}

/// The user once a packet is over: nothing is pending and a class byte is
/// due.
pub open spec fn rested(u: UserModel) -> UserModel {
    UserModel { stage: Stage::Class, pending: Seq::empty(), ..u }
}

/// The outcome of a complete general message for a user at rest.
pub open spec fn body_step(u: UserModel, opcode: u32, body: Seq<u8>) -> (UserModel, PolledModel) {
    match general_event(opcode, body) {
        Some(e) => (absorb(u, e), PolledModel::Event(e)),
        None => (u, PolledModel::Idle),
    }
}

/// The outcome of the complete part `frame` of kind `stage`, for a user
/// `u` at rest.
///
/// A class byte of 0, 1 or 2 opens a general message, a filler or a
/// position update; any other marks the user as gone. A header that
/// announces more than `MAX_BODY` bytes marks the user as gone; one that
/// announces none is answered at once, since no body is to come.
pub open spec fn frame_step(u: UserModel, stage: Stage, frame: Seq<u8>) -> (
    UserModel,
    PolledModel,
) {
    match stage {
        Stage::Class => if frame[0] == 0 {
            (UserModel { stage: Stage::Header, ..u }, PolledModel::Again)
        } else if frame[0] == 1 {
            (UserModel { stage: Stage::Filler, ..u }, PolledModel::Again)
        } else if frame[0] == 2 {
            (UserModel { stage: Stage::Position, ..u }, PolledModel::Again)
        } else {
            (u.disconnected(), PolledModel::Idle)
        },
        Stage::Header => if u32_at(frame, 12) > MAX_BODY {
            (u.disconnected(), PolledModel::Idle)
        } else if u32_at(frame, 12) == 0 {
            body_step(u, u32_at(frame, 8), Seq::empty())
        } else {
            (
                UserModel {
                    stage: Stage::Body { opcode: u32_at(frame, 8), size: u32_at(frame, 12) as usize },
                    ..u
                },
                PolledModel::Again,
            )
        },
        Stage::Body { opcode, size } => body_step(u, opcode, frame),
        Stage::Filler => (u, PolledModel::Idle),
        Stage::Position => (absorb(u, position_event(frame)), PolledModel::Event(
            position_event(frame),
        )),
    }
}

/// The outcome of one read.
///
/// Nothing changes while the socket has nothing. A failed read and an empty
/// one mark the user as gone. Bytes that do not complete the current part
/// are kept for the next read; bytes that do are handled by `frame_step`.
pub open spec fn poll_step(u: UserModel, read: ReadModel) -> (UserModel, PolledModel) {
    match read {
        ReadModel::WouldBlock => (u, PolledModel::Idle),
        ReadModel::Failed => (u.disconnected(), PolledModel::Idle),
        ReadModel::Data(bytes) => if bytes.len() == 0 {
            (u.disconnected(), PolledModel::Idle)
        } else if u.pending.len() + bytes.len() < need(u.stage) {
            (UserModel { pending: u.pending + bytes, ..u }, PolledModel::Again)
        } else {
            frame_step(rested(u), u.stage, u.pending + bytes)
        },
    }
}

/// Bytes that arrive in two reads are handled as if they had arrived in
/// one, as long as the first read leaves the current part incomplete.
pub proof fn lemma_poll_split(u: UserModel, first: Seq<u8>, second: Seq<u8>)
    requires
        first.len() > 0,
        second.len() > 0,
        u.pending.len() + first.len() + second.len() <= need(u.stage),
    ensures
        poll_step(u, ReadModel::Data(first)).1 == PolledModel::Again,
        poll_step(poll_step(u, ReadModel::Data(first)).0, ReadModel::Data(second)) == poll_step(
            u,
            ReadModel::Data(first + second),
        ),
{
    let mid = poll_step(u, ReadModel::Data(first)).0;
    assert(mid.pending + second =~= u.pending + (first + second));
    assert(rested(mid) == rested(u));
}

/// A user that has been marked as gone stays so, whatever is read for it.
pub proof fn lemma_gone_stays_gone(u: UserModel, read: ReadModel)
    requires
        !u.connected,
    ensures
        !poll_step(u, read).0.connected,
{
}

/// A client of a bureau.
pub struct User {
    id: i32,
    aura: HashSet<i32>,
    connected: bool,
    username: String,
    avatar: String,
    data: String,
    position: Vector3,
    rotation: Mat3,
    outbox: Vec<Vec<u8>>,
    stage: Stage,
    pending: Vec<u8>,
}

impl View for User {
    type V = UserModel;

    closed spec fn view(&self) -> UserModel {
        UserModel {
            id: self.id,
            aura: self.aura@,
            connected: self.connected,
            username: self.username@,
            avatar: self.avatar@,
            data: self.data@,
            position: self.position,
            rotation: self.rotation.data@,
            outbox: packets_of(self.outbox@),
            stage: self.stage,
            pending: self.pending@,
        }
    }
}

impl User {
    /// A connected user with nothing known of it but its id.
    pub fn new(id: i32) -> (u: User)
        ensures
            u@ == UserModel::fresh(id),
            u@.wf(),
    {
        let u = User {
            id,
            aura: HashSet::new(),
            connected: true,
            username: String::new(),
            avatar: String::new(),
            data: String::new(),
            position: Vector3::new(0, 0, 0),
            rotation: Mat3::new(),
            outbox: Vec::new(),
            stage: Stage::Class,
            pending: Vec::new(),
        };
        assert(u@.outbox =~= Seq::empty());
        assert(u@.aura =~= Set::empty());
        assert(u@.rotation =~= Seq::new(9, |i: int| 0i32));
        assert(encode_utf8(Seq::<char>::empty()) =~= Seq::<u8>::empty());
        u
    }

    pub fn id(&self) -> (r: i32)
        ensures
            r == self@.id,
    {
        self.id
    }

    pub fn is_connected(&self) -> (r: bool)
        ensures
            r == self@.connected,
    {
        self.connected
    }

    /// Marks the user as gone; the bureau removes it at the end of the tick.
    pub fn disconnect(&mut self)
        ensures
            final(self)@ == old(self)@.disconnected(),
    {
        self.connected = false;
    }

    pub fn pos(&self) -> (r: &Vector3)
        ensures
            *r == self@.position,
    {
        &self.position
    }

    pub fn rot(&self) -> (r: &Mat3)
        ensures
            r.data@ == self@.rotation,
    {
        &self.rotation
    }

    pub fn name(&self) -> (r: &String)
        ensures
            r@ == self@.username,
    {
        &self.username
    }

    pub fn avatar(&self) -> (r: &String)
        ensures
            r@ == self@.avatar,
    {
        &self.avatar
    }

    pub fn data(&self) -> (r: &String)
        ensures
            r@ == self@.data,
    {
        &self.data
    }

    pub fn set_name(&mut self, name: String)
        requires
            byte_len(name@) <= MAX_TEXT,
        ensures
            final(self)@ == (UserModel { username: name@, ..old(self)@ }),
    {
        self.username = name;
    }

    pub fn set_avatar(&mut self, avatar: String)
        requires
            byte_len(avatar@) <= MAX_TEXT,
        ensures
            final(self)@ == (UserModel { avatar: avatar@, ..old(self)@ }),
    {
        self.avatar = avatar;
    }

    pub fn set_data(&mut self, data: String)
        requires
            byte_len(data@) <= MAX_TEXT,
        ensures
            final(self)@ == (UserModel { data: data@, ..old(self)@ }),
    {
        self.data = data;
    }

    /// Adds `id` to the aura; says whether it was new.
    pub fn add_aura(&mut self, id: i32) -> (r: bool)
        ensures
            final(self)@ == (UserModel { aura: old(self)@.aura.insert(id), ..old(self)@ }),
            r == !old(self)@.aura.contains(id),
    {
        self.aura.insert(id)
    }

    /// Whether `id` is in the aura.
    pub fn check_aura(&self, id: i32) -> (r: bool)
        ensures
            r == self@.aura.contains(id),
    {
        self.aura.contains(&id)
    }

    /// Takes `id` out of the aura; says whether it was there.
    pub fn remove_aura(&mut self, id: i32) -> (r: bool)
        ensures
            final(self)@ == (UserModel { aura: old(self)@.aura.remove(id), ..old(self)@ }),
            r == old(self)@.aura.contains(id),
    {
        self.aura.remove(&id)
    }

    /// The ids in the aura, each once, in no particular order.
    pub fn aura(&self) -> (r: Vec<i32>)
        ensures
            r@.no_duplicates(),
            r@.to_set() == self@.aura,
    {
        let mut out: Vec<i32> = Vec::new();
        let ghost all: Seq<i32> = self.aura.iter().remaining().unref();
        for k in it: self.aura.iter()
            invariant
                it.seq().unref() == all,
                out@ == all.take(it.index() as int),
        {
            out.push(*k);
            assert(all.take(it.index() + 1) =~= all.take(it.index() as int).push(*k));
        }
        assert(out@ =~= all);
        out
    }

    /// Queues `bytes` as one packet for this user.
    pub fn send(&mut self, bytes: &[u8])
        ensures
            final(self)@ == old(self)@.sent(bytes@),
    {
        let packet: Vec<u8> = slice_to_vec(bytes);
        self.outbox.push(packet);
        assert(final(self)@.outbox =~= old(self)@.outbox.push(bytes@));
    }

    /// Hands over the queued packets, oldest first, and leaves the outbox
    /// empty.
    pub fn take_outbox(&mut self) -> (out: Vec<Vec<u8>>)
        ensures
            packets_of(out@) == old(self)@.outbox,
            final(self)@ == (UserModel { outbox: Seq::empty(), ..old(self)@ }),
    {
        let mut out: Vec<Vec<u8>> = Vec::new();
        std::mem::swap(&mut self.outbox, &mut out);
        assert(final(self)@.outbox =~= Seq::empty());
        out
    }

    /// The number of bytes that the next read should ask for.
    pub fn wants(&self) -> (n: usize)
        requires
            self@.wf(),
        ensures
            n == need(self@.stage) - self@.pending.len(),
            n > 0,
    {
        let whole: usize = match self.stage {
            Stage::Class => 1,
            Stage::Header => 16,
            Stage::Body { opcode, size } => size,
            Stage::Filler => 14,
            Stage::Position => 26,
        };
        whole - self.pending.len()
    }

    /// Takes the outcome of a read of at most `wants()` bytes.
    pub fn poll(&mut self, read: ReadOutcome) -> (r: Polled)
        requires
            old(self)@.wf(),
            read@ matches ReadModel::Data(bytes) ==> old(self)@.pending.len() + bytes.len() <= need(
                old(self)@.stage,
            ),
        ensures
            (final(self)@, r@) == poll_step(old(self)@, read@),
            final(self)@.wf(),
            r@ matches PolledModel::Event(e) ==> e.wf(),
    {
        match read {
            ReadOutcome::WouldBlock => Polled::Idle,
            ReadOutcome::Failed => {
                self.connected = false;
                Polled::Idle
            },
            ReadOutcome::Data(bytes) => {
                if bytes.len() == 0 {
                    self.connected = false;
                    return Polled::Idle;
                }
                match self.gather(bytes.as_slice()) {
                    Some(frame) => {
                        let stage = self.stage;
                        self.stage = Stage::Class;
                        self.frame(stage, frame.as_slice())
                    },
                    None => Polled::Again,
                }
            },
        }
    }

    /// Adds `bytes` to the current part and hands the part over once it is
    /// complete.
    fn gather(&mut self, bytes: &[u8]) -> (r: Option<Vec<u8>>)
        requires
            old(self)@.wf(),
            old(self)@.pending.len() + bytes@.len() <= need(old(self)@.stage),
        ensures
            old(self)@.pending.len() + bytes@.len() < need(old(self)@.stage) ==> r is None
                && final(self)@ == (UserModel {
                pending: old(self)@.pending + bytes@,
                ..old(self)@
            }),
            old(self)@.pending.len() + bytes@.len() == need(old(self)@.stage) ==> r is Some
                && r->0@ == old(self)@.pending + bytes@ && final(self)@ == (UserModel {
                pending: Seq::empty(),
                ..old(self)@
            }),
    {
        let whole: usize = self.wants() + self.pending.len();
        self.pending.extend_from_slice(bytes);
        assert(self.pending@ =~= old(self)@.pending + bytes@);
        if self.pending.len() < whole {
            return None;
        }
        let mut frame: Vec<u8> = Vec::new();
        std::mem::swap(&mut self.pending, &mut frame);
        assert(self.pending@ =~= Seq::empty());
        Some(frame)
    }

    /// Handles one complete part of a packet; the user is at rest when this
    /// is called.
    fn frame(&mut self, stage: Stage, frame: &[u8]) -> (r: Polled)
        requires
            old(self)@.wf(),
            old(self)@.stage == Stage::Class,
            old(self)@.pending.len() == 0,
            frame@.len() == need(stage),
            stage matches Stage::Body { opcode, size } ==> 0 < size <= MAX_BODY,
        ensures
            (final(self)@, r@) == frame_step(old(self)@, stage, frame@),
            final(self)@.wf(),
            r@ matches PolledModel::Event(e) ==> e.wf(),
    {
        match stage {
            Stage::Class => {
                let class: u8 = frame[0];
                if class == 0 {
                    self.stage = Stage::Header;
                    Polled::Again
                } else if class == 1 {
                    self.stage = Stage::Filler;
                    Polled::Again
                } else if class == 2 {
                    self.stage = Stage::Position;
                    Polled::Again
                } else {
                    self.connected = false;
                    Polled::Idle
                }
            },
            Stage::Header => {
                let opcode: u32 = frame.read_u32(8);
                let size: u32 = frame.read_u32(12);
                if size > MAX_BODY as u32 {
                    self.connected = false;
                    Polled::Idle
                } else if size == 0 {
                    let empty: Vec<u8> = Vec::new();
                    assert(empty@ =~= Seq::empty());
                    self.body(opcode, empty.as_slice())
                } else {
                    self.stage = Stage::Body { opcode, size: size as usize };
                    Polled::Again
                }
            },
            Stage::Body { opcode, size } => self.body(opcode, frame),
            Stage::Filler => Polled::Idle,
            Stage::Position => Polled::Event(self.position_update(frame)),
        }
    }

    /// Handles the body of a general message.
    fn body(&mut self, opcode: u32, body: &[u8]) -> (r: Polled)
        requires
            old(self)@.wf(),
            body@.len() <= MAX_BODY,
        ensures
            (final(self)@, r@) == match general_event(opcode, body@) {
                Some(e) => (absorb(old(self)@, e), PolledModel::Event(e)),
                None => (old(self)@, PolledModel::Idle),
            },
            final(self)@.wf(),
            r@ matches PolledModel::Event(e) ==> e.wf(),
    {
        match self.general_message(opcode, body) {
            Some(event) => Polled::Event(event),
            None => Polled::Idle,
        }
    }

    /// Reads the body of a general message, takes note of what it says
    /// about this user, and returns the event in it.
    pub fn general_message(&mut self, opcode: u32, body: &[u8]) -> (r: Option<UserEvent>)
        requires
            old(self)@.wf(),
            body@.len() <= MAX_BODY,
        ensures
            opt_event(r) == general_event(opcode, body@),
            final(self)@ == absorbed(old(self)@, opt_event(r)),
            final(self)@.wf(),
            r matches Some(e) ==> e@.wf(),
    {
        if opcode == 0 {
            self.cmsg_new_user(body)
        } else if opcode == 6 {
            self.msg_common(body)
        } else if opcode == 7 {
            Some(UserEvent::StateChange)
        } else {
            None
        }
    }

    /// Reads the 26 bytes of a position update and caches the position.
    pub fn position_update(&mut self, packet: &[u8]) -> (r: UserEvent)
        requires
            packet@.len() == 26,
        ensures
            r@ == position_event(packet@),
            final(self)@ == absorb(old(self)@, r@),
    {
        self.position.set(packet.read_i32(12), packet.read_i32(16), packet.read_i32(20));
        UserEvent::PositionUpdate(self.position)
    }

    fn cmsg_new_user(&mut self, packet: &[u8]) -> (r: Option<UserEvent>)
        requires
            old(self)@.wf(),
            packet@.len() <= MAX_BODY,
        ensures
            opt_event(r) == new_user_event(packet@),
            final(self)@ == absorbed(old(self)@, opt_event(r)),
            final(self)@.wf(),
            r matches Some(e) ==> e@.wf(),
    {
        let username: String = packet.read_string(0);
        proof {
            lemma_string_at_len(packet@, 0);
        }
        let n: usize = username.as_str().len();
        if packet.len() < n + 1 {
            return None;
        }
        proof {
            lemma_string_at_len(packet@, n + 1);
            lemma_default_avatar_len();
        }
        let avatar: String = validate_avatar(packet.read_string(n + 1));
        self.username = username.clone();
        self.avatar = avatar.clone();
        let id: i32 = self.id;
        let first = client_id(id);
        let second = user_joined(id, id, avatar.as_str(), username.as_str());
        let third = broadcast_id(id);
        self.send(first.as_slice());
        self.send(second.as_slice());
        self.send(third.as_slice());
        assert(final(self)@.outbox =~= old(self)@.outbox + new_user_replies(
            id,
            username@,
            avatar@,
        ));
        Some(UserEvent::NewUser(username, avatar))
    }

    fn msg_common(&mut self, packet: &[u8]) -> (r: Option<UserEvent>)
        requires
            old(self)@.wf(),
            packet@.len() <= MAX_BODY,
        ensures
            opt_event(r) == common_event(packet@),
            final(self)@ == absorbed(old(self)@, opt_event(r)),
            final(self)@.wf(),
            r matches Some(e) ==> e@.wf(),
    {
        if packet.len() < 10 {
            return None;
        }
        let id: i32 = packet.read_i32(0);
        let msg_type: u32 = packet.read_u32(4);
        let strategy: u8 = packet[8];
        let content: &[u8] = slice_subrange(packet, 9, packet.len());
        if msg_type == 2 {
            self.transform_update(content)
        } else if msg_type == 9 {
            self.chat_send(content)
        } else if msg_type == 12 {
            self.character_update(content)
        } else if msg_type == 13 {
            self.name_change(content)
        } else if msg_type == 14 {
            self.avatar_change(content)
        } else if msg_type == 15 {
            self.private_chat(id, content)
        } else {
            self.appl_specific(id, strategy, content)
        }
    }

    fn transform_update(&mut self, content: &[u8]) -> (r: Option<UserEvent>)
        ensures
            opt_event(r) == transform_event(content@),
            final(self)@ == absorbed(old(self)@, opt_event(r)),
            r matches Some(e) ==> e@.wf(),
    {
        if content.len() < 48 {
            return None;
        }
        let mut mat = Mat3::new();
        let mut i: usize = 0;
        while i < 9
            invariant
                i <= 9,
                content@.len() >= 48,
                forall|k: int| 0 <= k < i ==> mat.data@[k] == i32_at(content@, 4 * k),
            decreases 9 - i,
        {
            mat.data[i] = content.read_i32(i * 4);
            i = i + 1;
        }
        assert(mat.data@ =~= Seq::new(9, |k: int| i32_at(content@, 4 * k)));
        self.rotation = mat;
        self.position = Vector3::new(
            content.read_i32(36),
            content.read_i32(40),
            content.read_i32(44),
        );
        Some(UserEvent::TransformUpdate(self.rotation, self.position))
    }

    fn chat_send(&self, content: &[u8]) -> (r: Option<UserEvent>)
        requires
            content@.len() <= MAX_BODY,
        ensures
            opt_event(r) == chat_event(content@),
            r matches Some(e) ==> e@.wf(),
    {
        let text: String = content.read_string(0);
        match split_message(text.as_str()) {
            Some(message) => {
                if message.as_str().is_empty() {
                    return None;
                }
                proof {
                    lemma_string_at_len(content@, 0);
                    lemma_separator_index(text@, 0);
                    lemma_byte_len_subrange(
                        text@,
                        separator_index(text@, 0) + 2,
                        text@.len() as int,
                    );
                }
                Some(UserEvent::ChatSend(message))
            },
            None => None,
        }
    }

    fn character_update(&mut self, content: &[u8]) -> (r: Option<UserEvent>)
        requires
            old(self)@.wf(),
            content@.len() <= MAX_BODY,
        ensures
            opt_event(r) == Some(EventModel::CharacterUpdate(string_at(content@, 0))),
            final(self)@ == absorbed(old(self)@, opt_event(r)),
            final(self)@.wf(),
            r matches Some(e) ==> e@.wf(),
    {
        let character_data: String = content.read_string(0);
        proof {
            lemma_string_at_len(content@, 0);
        }
        self.data = character_data.clone();
        Some(UserEvent::CharacterUpdate(character_data))
    }

    fn name_change(&mut self, content: &[u8]) -> (r: Option<UserEvent>)
        requires
            old(self)@.wf(),
            content@.len() <= MAX_BODY,
        ensures
            opt_event(r) == Some(EventModel::NameChange(string_at(content@, 0))),
            final(self)@ == absorbed(old(self)@, opt_event(r)),
            final(self)@.wf(),
            r matches Some(e) ==> e@.wf(),
    {
        let name: String = content.read_string(0);
        proof {
            lemma_string_at_len(content@, 0);
        }
        self.username = name.clone();
        Some(UserEvent::NameChange(name))
    }

    fn avatar_change(&mut self, content: &[u8]) -> (r: Option<UserEvent>)
        requires
            old(self)@.wf(),
            content@.len() <= MAX_BODY,
        ensures
            opt_event(r) == Some(EventModel::AvatarChange(valid_avatar(string_at(content@, 0)))),
            final(self)@ == absorbed(old(self)@, opt_event(r)),
            final(self)@.wf(),
            r matches Some(e) ==> e@.wf(),
    {
        let avatar: String = validate_avatar(content.read_string(0));
        proof {
            lemma_string_at_len(content@, 0);
            lemma_default_avatar_len();
        }
        self.avatar = avatar.clone();
        Some(UserEvent::AvatarChange(avatar))
    }

    fn private_chat(&self, id: i32, content: &[u8]) -> (r: Option<UserEvent>)
        requires
            content@.len() <= MAX_BODY,
        ensures
            opt_event(r) == private_chat_event(id, content@),
            r matches Some(e) ==> e@.wf(),
    {
        if content.len() < 5 {
            return None;
        }
        let text: String = content.read_string(4);
        proof {
            lemma_string_at_len(content@, 4);
        }
        Some(UserEvent::PrivateChat(id, text))
    }

    fn appl_specific(&self, id: i32, strategy: u8, content: &[u8]) -> (r: Option<UserEvent>)
        requires
            content@.len() <= MAX_BODY,
        ensures
            opt_event(r) == appl_specific_event(id, strategy, content@),
            r matches Some(e) ==> e@.wf(),
    {
        if content.len() < 7 {
            return None;
        }
        let method: String = content.read_string(1);
        proof {
            lemma_string_at_len(content@, 1);
        }
        let m: usize = method.as_str().len();
        if content.len() < m + 2 {
            return None;
        }
        let strarg: String = content.read_string(m + 2);
        proof {
            lemma_string_at_len(content@, m + 2);
        }
        let s: usize = strarg.as_str().len();
        if content.len() < m + s + 7 {
            return None;
        }
        let intarg: i32 = content.read_i32(m + s + 3);
        Some(UserEvent::ApplSpecific(Strategy::from(strategy), id, method, strarg, intarg))
    }

    /// Moves the user: it is sent a position update for itself, and then its
    /// cached position changes.
    pub fn set_pos(&mut self, pos: Vector3)
        ensures
            final(self)@ == (UserModel {
                position: pos,
                ..old(self)@.sent(position_update_bytes(old(self)@.id, pos))
            }),
    {
        let packet = ByteWriter::position_update(self.id, &pos);
        self.send(packet.bytes.as_slice());
        self.position = pos;
    }

    /// Turns the user: it is sent a transform update for itself that holds
    /// the new rotation and its cached position, and then its cached
    /// rotation changes.
    pub fn set_rot(&mut self, rot: Mat3)
        ensures
            final(self)@ == (UserModel {
                rotation: rot.data@,
                ..old(self)@.sent(
                    transform_packet(old(self)@.id, rot.data@, old(self)@.position),
                )
            }),
    {
        let packet = transform(self.id, &rot, &self.position);
        self.send(packet.as_slice());
        self.rotation = rot;
    }

    /// Shows `msg` to the user as a chat line.
    pub fn send_msg(&mut self, msg: &str)
        requires
            byte_len(msg@) <= MAX_TEXT,
        ensures
            final(self)@ == old(self)@.sent(chat_packet(old(self)@.id, msg@)),
    {
        let packet = text_message(
            self.id,
            self.id,
            MsgCommon::ChatSend,
            Strategy::AllClientsExceptSender,
            msg,
        );
        self.send(packet.as_slice());
    }
}

/// A chat line that the bureau itself shows to the user `id`.
pub open spec fn chat_packet(id: i32, text: Seq<char>) -> Seq<u8> {
    text_packet(id, id, MsgCommon::ChatSend, Strategy::AllClientsExceptSender, text)
}

} // verus!
