//! One bureau: its staging queue, its users, and the rules by which what a
//! user sent reaches the others.
//!
//! A tick of the caller's loop goes through the bureau in this order. It
//! stages and polls the connecting clients through `listener_mut`, offers
//! an id to a client that has completed its handshake through `users_mut`,
//! and admits it with `add`. It takes a snapshot of the ids with `ids` and
//! polls each user through `users_mut`, handing every event to
//! `handle_event`. It applies what the scripts asked for with `apply`. It
//! ends with `sweep`. Whenever it suits the caller it writes what the
//! users' outboxes hold, and marks a user whose socket failed as gone.

use vstd::prelude::*;
use crate::listener::{Listener, ListenerModel};
use crate::math::{Mat3, Vector3};
use crate::packets::{
    appl_specific, appl_specific_packet, private_chat, private_chat_packet, text_message,
    text_packet, transform, transform_packet, user_count_packet, MAX_TEXT,
};
use crate::protocol::{position_update_bytes, ByteWriter, MsgCommon, Strategy};
use crate::text::{
    after_separator, byte_len, join_chat, lemma_byte_len_subrange, lemma_encode_concat,
    lemma_separator_index, lemma_separator_len, opt_text, same_text, separator, separator_index,
    split_message,
};
use crate::user::{chat_packet, EventModel, UserEvent, UserModel};
use crate::user_list::{
    aura_step, delivered, disconnect_model, AuraChange, lemma_disconnect_wf, lemma_push_fresh,
    lemma_take_next, master_step, UserList, UserListModel, GREETING_LEN,
};

verus! {

/// The receiver id that stands for "no one in particular" in an
/// application-specific call.
pub const BROADCAST_ID: i32 = -9999;

/// The settings of a bureau.
#[derive(Clone, Debug, PartialEq, Eq)]
pub struct BureauConfig {
    /// The number of seconds that a client may take for its handshake.
    pub connect_timeout: u64,
    /// The number of users that the bureau admits.
    pub max_users: i32,
    /// The number of clients that may be staged at a time.
    pub max_queue: usize,
    /// The aura radius, in the wire's fixed-point scale.
    pub aura_radius: i32,
    /// The world that the bureau hosts, where it belongs to a pool.
    pub wrl: Option<String>,
}

/// The settings of a bureau, as plain values.
pub struct ConfigModel {
    pub connect_timeout: u64,
    pub max_users: i32,
    pub max_queue: usize,
    pub aura_radius: i32,
    pub wrl: Option<Seq<char>>,
}

impl ConfigModel {
    /// These settings for a bureau that hosts the world `wrl`.
    pub open spec fn hosting(self, wrl: Seq<char>) -> ConfigModel {
        ConfigModel { wrl: Some(wrl), ..self }
    }
}

impl View for BureauConfig {
    type V = ConfigModel;

    open spec fn view(&self) -> ConfigModel {
        ConfigModel {
            connect_timeout: self.connect_timeout,
            max_users: self.max_users,
            max_queue: self.max_queue,
            aura_radius: self.aura_radius,
            wrl: opt_text(self.wrl),
        }
    }
}

impl BureauConfig {
    /// A copy of these settings.
    pub fn duplicate(&self) -> (c: BureauConfig)
        ensures
            c@ == self@,
    {
        BureauConfig {
            connect_timeout: self.connect_timeout,
            max_users: self.max_users,
            max_queue: self.max_queue,
            aura_radius: self.aura_radius,
            wrl: match &self.wrl {
                Some(wrl) => Some(wrl.clone()),
                None => None,
            },
        }
    }

    /// A copy of these settings for a bureau that hosts the world `wrl`.
    pub fn hosting(&self, wrl: &str) -> (c: BureauConfig)
        ensures
            c@ == self@.hosting(wrl@),
    {
        BureauConfig {
            connect_timeout: self.connect_timeout,
            max_users: self.max_users,
            max_queue: self.max_queue,
            aura_radius: self.aura_radius,
            wrl: Some(wrl.to_owned()),
        }
    }
}

/// What a script asks a bureau to do to one of its users.
#[derive(Clone, Debug, PartialEq, Eq)]
pub enum ScriptAction {
    SetPos(i32, Vector3),
    SetRot(i32, Mat3),
    SendMsg(i32, String),
    SendPacket(i32, Vec<u8>),
    Disconnect(i32),
}

/// The state of a bureau, as plain values.
pub struct BureauModel {
    pub port: u16,
    pub config: ConfigModel,
    pub listener: ListenerModel,
    pub list: UserListModel,
}

impl BureauModel {
    /// The staging queue and the user list are well formed, and the list
    /// issues as many ids as the bureau admits users.
    pub open spec fn wf(self) -> bool {
        &&& self.listener.wf()
        &&& self.list.wf()
        &&& self.list.max_index == self.config.max_users
    }

    /// The bureau that `Bureau::new` makes: nobody staged, nobody connected.
    pub open spec fn fresh(port: u16, config: ConfigModel) -> BureauModel {
        BureauModel {
            port: port,
            config: config,
            listener: ListenerModel {
                port: port,
                timeout: config.connect_timeout,
                max_queue: config.max_queue,
                queue: Seq::empty(),
            },
            list: UserListModel::fresh(config.max_users),
        }
    }

    /// This bureau with `list` in place of its user list.
    pub open spec fn with_list(self, list: UserListModel) -> BureauModel {
        BureauModel { list: list, ..self }
    }
}

/// The list after every connected user has been told how many there are.
pub open spec fn counted(l: UserListModel) -> UserListModel {
    l.with_users(delivered(l.users, l.ids(), user_count_packet(l.ids().len() as i32)))
}

/// The text that a chat line goes out with: what the sender wrote, or what
/// the script put in its place. An empty replacement cancels the line.
pub open spec fn chat_text(msg: Seq<char>, reply: Option<Seq<char>>) -> Option<Seq<char>> {
    match reply {
        Some(other) => if other.len() == 0 {
            None
        } else {
            Some(other)
        },
        None => Some(msg),
    }
}

/// `name`, then `": "`, then `msg`.
pub open spec fn chat_line(name: Seq<char>, msg: Seq<char>) -> Seq<char> {
    name + separator() + msg
}

/// Whether `text` is one of the seven tokens of the call protocol, which
/// are relayed as they are.
pub open spec fn is_special(text: Seq<char>) -> bool {
    ||| text == "%%REQ"@
    ||| text == "%%RINGING"@
    ||| text == "%%REJECT"@
    ||| text == "%%ACCEPT"@
    ||| text == "%%OK"@
    ||| text == "%%BUSY"@
    ||| text == "%%END"@
}

/// What of a private chat line is shown to the script: the part after the
/// first `": "` where the line is no special token and has such a part.
pub open spec fn private_query(text: Seq<char>) -> Option<Seq<char>> {
    if is_special(text) {
        None
    } else {
        match after_separator(text) {
            Some(msg) => if msg.len() == 0 {
                None
            } else {
                Some(msg)
            },
            None => None,
        }
    }
}

/// The text that a private chat line goes out with. A special token goes
/// out as it is. Any other line needs a non-empty part after its first
/// `": "`; that part, or what the script put in its place, goes out behind
/// the sender's name. An empty replacement cancels the line.
pub open spec fn private_text(name: Seq<char>, text: Seq<char>, reply: Option<Seq<char>>) -> Option<
    Seq<char>,
> {
    if is_special(text) {
        Some(text)
    } else {
        match private_query(text) {
            Some(msg) => match chat_text(msg, reply) {
                Some(content) => Some(chat_line(name, content)),
                None => None,
            },
            None => None,
        }
    }
}

/// The users that an application-specific call from `id` to `id2` reaches,
/// for every case but the one that goes to the master.
pub open spec fn appl_audience(l: UserListModel, id: i32, id2: i32, strategy: Strategy) -> Set<i32> {
    if id2 == BROADCAST_ID {
        match strategy {
            Strategy::AuraClients | Strategy::AllClients | Strategy::Unknown5 => l.ids(),
            Strategy::AuraClientsExceptSender
            | Strategy::AllClientsExceptSender
            | Strategy::Unknown6 => l.others(id),
            _ => Set::empty(),
        }
    } else {
        match strategy {
            Strategy::AuraClients => l.aura_of(id).insert(id),
            Strategy::AuraClientsExceptSender => l.aura_of(id),
            Strategy::SpecificClient => set![id2],
            Strategy::AllClients => l.ids(),
            Strategy::AllClientsExceptSender => l.others(id),
            _ => Set::empty(),
        }
    }
}

/// The relation between a list before and after an application-specific
/// call whose packet is `packet`.
///
/// A call to no one in particular with the strategy `SpecificClient` goes
/// to the master, which may be promoted for it. Every other call goes to
/// `appl_audience`.
pub open spec fn appl_step(
    before: UserListModel,
    after: UserListModel,
    id: i32,
    id2: i32,
    strategy: Strategy,
    packet: Seq<u8>,
) -> bool {
    if id2 == BROADCAST_ID && strategy == Strategy::SpecificClient {
        exists|mid: UserListModel, m: Option<i32>| #[trigger]
            master_step(before, mid, m) && after == mid.with_users(
                delivered(
                    mid.users,
                    if m is Some {
                        set![m->0]
                    } else {
                        Set::empty()
                    },
                    packet,
                ),
            )
    } else {
        after == before.with_users(
            delivered(before.users, appl_audience(before, id, id2, strategy), packet),
        )
    }
}

/// The users that have been marked as gone.
pub open spec fn gone(l: UserListModel) -> Set<i32> {
    Set::new(|id: i32| l.ids().contains(id) && !l.users[id].connected)
}

/// The list after the users of `order` have been disconnected, one after
/// the other.
pub open spec fn disconnected_all(l: UserListModel, order: Seq<i32>) -> UserListModel
    decreases order.len(),
{
    if order.len() == 0 {
        l
    } else {
        disconnect_model(disconnected_all(l, order.drop_last()), order.last())
    }
}

/// The relation between a list before and after `sweep`, and the ids that
/// `sweep` returned.
///
/// Every user that was marked as gone is disconnected, in the order of the
/// ids returned; where there was one, those who stay are told the new
/// count.
pub open spec fn sweep_step(before: UserListModel, after: UserListModel, removed: Seq<i32>) -> bool {
    &&& removed.no_duplicates()
    &&& removed.to_set() == gone(before)
    &&& after == if removed.len() == 0 {
        before
    } else {
        counted(disconnected_all(before, removed))
    }
}

/// The relation between a list before and after a `NewUser` event: the
/// master is looked up, which promotes one where there is none, and then
/// everyone is told the count.
pub open spec fn new_user_step(before: UserListModel, after: UserListModel) -> bool {
    exists|mid: UserListModel, m: Option<i32>| #[trigger]
        master_step(before, mid, m) && after == counted(mid)
}

/// The relation between a list before and after the user `id` has moved
/// and `packet` says so: its aura is brought up to date first, and then
/// `packet` goes to its aura. So a user that has just entered the aura gets
/// the packet, and one that has just left it does not.
pub open spec fn moved_step(
    before: UserListModel,
    after: UserListModel,
    id: i32,
    radius: i32,
    packet: Seq<u8>,
    changes: Seq<AuraChange>,
) -> bool {
    exists|mid: UserListModel| #[trigger]
        aura_step(before, mid, id, radius, changes) && after == mid.with_users(
            delivered(mid.users, mid.aura_of(id), packet),
        )
}

/// The list after `packet` has gone to the aura of `id`.
pub open spec fn aura_sent(l: UserListModel, id: i32, packet: Seq<u8>) -> UserListModel {
    l.with_users(delivered(l.users, l.aura_of(id), packet))
}

/// The packet that relays a text of `id`.
pub open spec fn relay_packet(id: i32, msg_type: MsgCommon, text: Seq<char>) -> Seq<u8> {
    text_packet(id, id, msg_type, Strategy::AuraClientsExceptSender, text)
}

/// The list after a chat line of `id`: where the line is not cancelled, it
/// goes to everyone else behind the sender's name.
pub open spec fn chat_sent(l: UserListModel, id: i32, msg: Seq<char>, reply: Option<Seq<char>>) -> UserListModel {
    if !l.ids().contains(id) {
        l
    } else {
        match chat_text(msg, reply) {
            Some(text) => l.with_users(
                delivered(
                    l.users,
                    l.others(id),
                    text_packet(
                        id,
                        id,
                        MsgCommon::ChatSend,
                        Strategy::AllClientsExceptSender,
                        chat_line(l.users[id].username, text),
                    ),
                ),
            ),
            None => l,
        }
    }
}

/// The list after a private chat line of `id` to `receiver`: where the
/// line is not cancelled, it goes to `receiver` alone, and to nobody where
/// `receiver` is not connected.
pub open spec fn private_sent(
    l: UserListModel,
    id: i32,
    receiver: i32,
    text: Seq<char>,
    reply: Option<Seq<char>>,
) -> UserListModel {
    if !l.ids().contains(id) {
        l
    } else {
        match private_text(l.users[id].username, text, reply) {
            Some(line) => l.with_users(
                delivered(l.users, set![receiver], private_chat_packet(id, line)),
            ),
            None => l,
        }
    }
}

/// The relation between a list before and after the event `e` of the user
/// `id` has been handled, where `reply` is what the script answered to a
/// chat line and `changes` is what the handling returned: the changes of
/// the aura of `id`, which only an event that moves the user makes.
pub open spec fn event_step(
    before: UserListModel,
    after: UserListModel,
    radius: i32,
    id: i32,
    e: EventModel,
    reply: Option<Seq<char>>,
    changes: Seq<AuraChange>,
) -> bool {
    &&& !(e is PositionUpdate || e is TransformUpdate) ==> changes == Seq::<AuraChange>::empty()
    &&& event_effect(before, after, radius, id, e, reply, changes)
}

/// What the event `e` of the user `id` does to the list.
pub open spec fn event_effect(
    before: UserListModel,
    after: UserListModel,
    radius: i32,
    id: i32,
    e: EventModel,
    reply: Option<Seq<char>>,
    changes: Seq<AuraChange>,
) -> bool {
    match e {
        EventModel::NewUser(name, avatar) => new_user_step(before, after),
        EventModel::StateChange => after == before,
        EventModel::PositionUpdate(pos) => moved_step(
            before,
            after,
            id,
            radius,
            position_update_bytes(id, pos),
            changes,
        ),
        EventModel::TransformUpdate(rot, pos) => moved_step(
            before,
            after,
            id,
            radius,
            transform_packet(id, rot, pos),
            changes,
        ),
        EventModel::ChatSend(msg) => after == chat_sent(before, id, msg, reply),
        EventModel::CharacterUpdate(data) => after == aura_sent(
            before,
            id,
            relay_packet(id, MsgCommon::CharacterUpdate, data),
        ),
        EventModel::NameChange(name) => after == aura_sent(
            before,
            id,
            relay_packet(id, MsgCommon::NameChange, name),
        ),
        EventModel::AvatarChange(avatar) => after == aura_sent(
            before,
            id,
            relay_packet(id, MsgCommon::AvatarChange, avatar),
        ),
        EventModel::PrivateChat(receiver, text) => after == private_sent(
            before,
            id,
            receiver,
            text,
            reply,
        ),
        EventModel::ApplSpecific(strategy, id2, method, strarg, intarg) => appl_step(
            before,
            after,
            id,
            id2,
            strategy,
            appl_specific_packet(id, id2, strategy, method, strarg, intarg),
        ),
    }
}

/// The list after a script's action. An action on an id that is not
/// connected changes nothing.
pub open spec fn applied(l: UserListModel, action: ActionModel) -> UserListModel {
    match action {
        ActionModel::SetPos(id, pos) => if l.ids().contains(id) {
            l.with_users(
                l.users.insert(
                    id,
                    UserModel { position: pos, ..l.users[id].sent(position_update_bytes(id, pos)) },
                ),
            )
        } else {
            l
        },
        ActionModel::SetRot(id, rot) => if l.ids().contains(id) {
            l.with_users(
                l.users.insert(
                    id,
                    UserModel {
                        rotation: rot,
                        ..l.users[id].sent(transform_packet(id, rot, l.users[id].position))
                    },
                ),
            )
        } else {
            l
        },
        ActionModel::SendMsg(id, msg) => l.with_users(
            delivered(l.users, set![id], chat_packet(id, msg)),
        ),
        ActionModel::SendPacket(id, bytes) => l.with_users(delivered(l.users, set![id], bytes)),
        ActionModel::Disconnect(id) => if l.ids().contains(id) {
            l.with_users(l.users.insert(id, l.users[id].disconnected()))
        } else {
            l
        },
    }
}

/// A `ScriptAction` as plain values.
pub enum ActionModel {
    SetPos(i32, Vector3),
    SetRot(i32, Seq<i32>),
    SendMsg(i32, Seq<char>),
    SendPacket(i32, Seq<u8>),
    Disconnect(i32),
}

impl View for ScriptAction {
    type V = ActionModel;

    open spec fn view(&self) -> ActionModel {
        match *self {
            ScriptAction::SetPos(id, pos) => ActionModel::SetPos(id, pos),
            ScriptAction::SetRot(id, rot) => ActionModel::SetRot(id, rot.data@),
            ScriptAction::SendMsg(id, msg) => ActionModel::SendMsg(id, msg@),
            ScriptAction::SendPacket(id, bytes) => ActionModel::SendPacket(id, bytes@),
            ScriptAction::Disconnect(id) => ActionModel::Disconnect(id),
        }
    }
}

impl ActionModel {
    /// The id of the user that the action is about.
    pub open spec fn target(self) -> i32 {
        match self {
            ActionModel::SetPos(id, pos) => id,
            ActionModel::SetRot(id, rot) => id,
            ActionModel::SendMsg(id, msg) => id,
            ActionModel::SendPacket(id, bytes) => id,
            ActionModel::Disconnect(id) => id,
        }
    }

    /// A text to be shown is short enough to be sent.
    pub open spec fn wf(self) -> bool {
        self matches ActionModel::SendMsg(id, msg) ==> byte_len(msg) <= MAX_TEXT
    }
}

/// One bureau.
pub struct Bureau {
    port: u16,
    config: BureauConfig,
    listener: Listener,
    user_list: UserList,
}

impl View for Bureau {
    type V = BureauModel;

    closed spec fn view(&self) -> BureauModel {
        BureauModel {
            port: self.port,
            config: self.config@,
            listener: self.listener@,
            list: self.user_list@,
        }
    }
}

impl Bureau {
    /// A bureau that listens on `port`, with nobody staged and nobody
    /// connected.
    pub fn new(port: u16, config: BureauConfig) -> (b: Bureau)
        requires
            config.max_users >= 1,
        ensures
            b@ == BureauModel::fresh(port, config@),
            b@.wf(),
    {
        let user_list = UserList::new(config.max_users);
        let listener = Listener::new(port, config.connect_timeout, config.max_queue);
        Bureau { port, config, listener, user_list }
    }

    pub fn port(&self) -> (p: u16)
        ensures
            p == self@.port,
    {
        self.port
    }

    pub fn config(&self) -> (c: &BureauConfig)
        ensures
            c@ == self@.config,
    {
        &self.config
    }

    /// The number of connected users.
    pub fn user_count(&self) -> (n: usize)
        requires
            self@.wf(),
        ensures
            n == self@.list.ids().len(),
            n <= self@.config.max_users,
    {
        self.user_list.len()
    }

    /// The users of the bureau.
    pub fn users(&self) -> (l: &UserList)
        ensures
            l@ == self@.list,
    {
        &self.user_list
    }

    /// The staging queue of the bureau.
    pub fn listener(&self) -> (l: &Listener)
        ensures
            l@ == self@.listener,
    {
        &self.listener
    }

    /// The ids of the connected users, each once, in no particular order.
    pub fn ids(&self) -> (ks: Vec<i32>)
        ensures
            ks@.no_duplicates(),
            ks@.to_set() == self@.list.ids(),
    {
        self.user_list.ids()
    }

    /// The users of the bureau, to be polled and written to.
    pub fn users_mut(&mut self) -> (l: &mut UserList)
        ensures
            l@ == old(self)@.list,
            final(self)@ == old(self)@.with_list(final(l)@),
    {
        &mut self.user_list
    }

    /// The staging queue of the bureau, to be filled and polled.
    pub fn listener_mut(&mut self) -> (l: &mut Listener)
        ensures
            l@ == old(self)@.listener,
            final(self)@ == (BureauModel { listener: final(l)@, ..old(self)@ }),
    {
        &mut self.listener
    }

    /// Admits the client that was offered `id`, given how the write of its
    /// greeting went, and tells everyone the new count where it was
    /// admitted; see `UserList::add`.
    pub fn add(&mut self, id: i32, written: Option<usize>) -> (added: bool)
        requires
            old(self)@.wf(),
        ensures
            added == (!(written matches Some(n) && n != GREETING_LEN) && 1 <= id
                <= old(self)@.config.max_users && !old(self)@.list.ids().contains(id)),
            final(self)@ == old(self)@.with_list(
                if added {
                    counted(
                        old(self)@.list.with_users(
                            old(self)@.list.users.insert(id, UserModel::fresh(id)),
                        ),
                    )
                } else {
                    old(self)@.list
                },
            ),
            final(self)@.wf(),
    {
        if self.user_list.add(id, written) {
            self.user_list.send_user_count();
            true
        } else {
            false
        }
    }

    /// Handles a `NewUser` event: looks up the master, which promotes one
    /// where there is none, and tells everyone the count. Returns the
    /// master.
    pub fn new_user(&mut self) -> (master: Option<i32>)
        requires
            old(self)@.wf(),
        ensures
            new_user_step(old(self)@.list, final(self)@.list),
            final(self)@ == old(self)@.with_list(final(self)@.list),
            final(self)@.wf(),
    {
        let master = self.user_list.master();
        let ghost mid = self.user_list@;
        self.user_list.send_user_count();
        assert(master_step(old(self)@.list, mid, master) && self.user_list@ == counted(mid));
        master
    }

    /// Brings the aura of `id` up to date with the radius of this bureau;
    /// see `UserList::update_aura`.
    pub fn update_aura(&mut self, id: i32) -> (changes: Vec<AuraChange>)
        requires
            old(self)@.wf(),
        ensures
            aura_step(
                old(self)@.list,
                final(self)@.list,
                id,
                old(self)@.config.aura_radius,
                changes@,
            ),
            final(self)@ == old(self)@.with_list(final(self)@.list),
            final(self)@.wf(),
    {
        self.user_list.update_aura(id, self.config.aura_radius)
    }

    /// Handles a `PositionUpdate` event of the user `id`. Returns the
    /// changes of its aura.
    pub fn position_update(&mut self, id: i32, pos: Vector3) -> (changes: Vec<AuraChange>)
        requires
            old(self)@.wf(),
        ensures
            moved_step(
                old(self)@.list,
                final(self)@.list,
                id,
                old(self)@.config.aura_radius,
                position_update_bytes(id, pos),
                changes@,
            ),
            final(self)@ == old(self)@.with_list(final(self)@.list),
            final(self)@.wf(),
    {
        let changes = self.update_aura(id);
        let ghost mid = self.user_list@;
        let packet = ByteWriter::position_update(id, &pos);
        self.user_list.send_aura(id, packet.bytes.as_slice());
        assert(aura_step(old(self)@.list, mid, id, old(self)@.config.aura_radius, changes@)
            && self.user_list@ == mid.with_users(
            delivered(mid.users, mid.aura_of(id), position_update_bytes(id, pos)),
        ));
        changes
    }

    /// Handles a `TransformUpdate` event of the user `id`. Returns the
    /// changes of its aura.
    pub fn transform_update(&mut self, id: i32, rot: Mat3, pos: Vector3) -> (changes: Vec<
        AuraChange,
    >)
        requires
            old(self)@.wf(),
        ensures
            moved_step(
                old(self)@.list,
                final(self)@.list,
                id,
                old(self)@.config.aura_radius,
                transform_packet(id, rot.data@, pos),
                changes@,
            ),
            final(self)@ == old(self)@.with_list(final(self)@.list),
            final(self)@.wf(),
    {
        let changes = self.update_aura(id);
        let ghost mid = self.user_list@;
        let packet = transform(id, &rot, &pos);
        self.user_list.send_aura(id, packet.as_slice());
        assert(aura_step(old(self)@.list, mid, id, old(self)@.config.aura_radius, changes@)
            && self.user_list@ == mid.with_users(
            delivered(mid.users, mid.aura_of(id), transform_packet(id, rot.data@, pos)),
        ));
        changes
    }

    /// Handles a `ChatSend` event of the user `id`. `reply` is what the
    /// script answered when it was shown `msg`: nothing, a text to put in
    /// its place, or the empty text to cancel the line.
    pub fn chat_send(&mut self, id: i32, msg: String, reply: Option<String>)
        requires
            old(self)@.wf(),
            byte_len(msg@) <= MAX_TEXT,
            reply matches Some(other) ==> byte_len(other@) <= MAX_TEXT,
        ensures
            final(self)@ == old(self)@.with_list(
                chat_sent(old(self)@.list, id, msg@, opt_text(reply)),
            ),
            final(self)@.wf(),
    {
        let content: String = match reply {
            Some(other) => {
                if other.as_str().is_empty() {
                    return ;
                }
                other
            },
            None => msg,
        };
        let text: String = match self.user_list.get(id) {
            Some(user) => {
                proof {
                    lemma_chat_line_len(user@.username, content@);
                }
                join_chat(user.name().as_str(), content.as_str())
            },
            None => {
                return ;
            },
        };
        let packet = text_message(
            id,
            id,
            MsgCommon::ChatSend,
            Strategy::AllClientsExceptSender,
            text.as_str(),
        );
        self.user_list.send_others(id, packet.as_slice());
    }

    /// Relays a text of the user `id` to its aura.
    fn relay(&mut self, id: i32, msg_type: MsgCommon, text: &str)
        requires
            old(self)@.wf(),
            byte_len(text@) <= MAX_TEXT,
        ensures
            final(self)@ == old(self)@.with_list(
                aura_sent(old(self)@.list, id, relay_packet(id, msg_type, text@)),
            ),
            final(self)@.wf(),
    {
        let packet = text_message(id, id, msg_type, Strategy::AuraClientsExceptSender, text);
        self.user_list.send_aura(id, packet.as_slice());
    }

    /// Handles a `CharacterUpdate` event of the user `id`.
    pub fn character_update(&mut self, id: i32, data: String)
        requires
            old(self)@.wf(),
            byte_len(data@) <= MAX_TEXT,
        ensures
            final(self)@ == old(self)@.with_list(
                aura_sent(
                    old(self)@.list,
                    id,
                    relay_packet(id, MsgCommon::CharacterUpdate, data@),
                ),
            ),
            final(self)@.wf(),
    {
        self.relay(id, MsgCommon::CharacterUpdate, data.as_str());
    }

    /// Handles a `NameChange` event of the user `id`.
    pub fn name_change(&mut self, id: i32, name: String)
        requires
            old(self)@.wf(),
            byte_len(name@) <= MAX_TEXT,
        ensures
            final(self)@ == old(self)@.with_list(
                aura_sent(old(self)@.list, id, relay_packet(id, MsgCommon::NameChange, name@)),
            ),
            final(self)@.wf(),
    {
        self.relay(id, MsgCommon::NameChange, name.as_str());
    }

    /// Handles an `AvatarChange` event of the user `id`.
    pub fn avatar_change(&mut self, id: i32, avatar: String)
        requires
            old(self)@.wf(),
            byte_len(avatar@) <= MAX_TEXT,
        ensures
            final(self)@ == old(self)@.with_list(
                aura_sent(
                    old(self)@.list,
                    id,
                    relay_packet(id, MsgCommon::AvatarChange, avatar@),
                ),
            ),
            final(self)@.wf(),
    {
        self.relay(id, MsgCommon::AvatarChange, avatar.as_str());
    }

    /// Whether `text` is one of the seven tokens of the call protocol.
    pub fn is_special(text: &str) -> (r: bool)
        ensures
            r == is_special(text@),
    {
        same_text(text, "%%REQ") || same_text(text, "%%RINGING") || same_text(text, "%%REJECT")
            || same_text(text, "%%ACCEPT") || same_text(text, "%%OK") || same_text(
            text,
            "%%BUSY",
        ) || same_text(text, "%%END")
    }

    /// What of a private chat line the script is to be shown, if anything.
    pub fn private_chat_query(text: &str) -> (r: Option<String>)
        ensures
            opt_text(r) == private_query(text@),
    {
        if Bureau::is_special(text) {
            return None;
        }
        match split_message(text) {
            Some(msg) => {
                if msg.as_str().is_empty() {
                    None
                } else {
                    Some(msg)
                }
            },
            None => None,
        }
    }

    /// Handles a `PrivateChat` event of the user `id`. `reply` is what the
    /// script answered when it was shown what `private_chat_query` returns.
    pub fn private_chat(&mut self, id: i32, receiver: i32, text: String, reply: Option<String>)
        requires
            old(self)@.wf(),
            byte_len(text@) <= MAX_TEXT,
            reply matches Some(other) ==> byte_len(other@) <= MAX_TEXT,
        ensures
            final(self)@ == old(self)@.with_list(
                private_sent(old(self)@.list, id, receiver, text@, opt_text(reply)),
            ),
            final(self)@.wf(),
    {
        let name: String = match self.user_list.get(id) {
            Some(user) => user.name().clone(),
            None => {
                return ;
            },
        };
        let line: String = if Bureau::is_special(text.as_str()) {
            text
        } else {
            let msg: String = match Bureau::private_chat_query(text.as_str()) {
                Some(msg) => msg,
                None => {
                    return ;
                },
            };
            let content: String = match reply {
                Some(other) => {
                    if other.as_str().is_empty() {
                        return ;
                    }
                    other
                },
                None => {
                    proof {
                        lemma_separator_index(text@, 0);
                        lemma_byte_len_subrange(
                            text@,
                            separator_index(text@, 0) + 2,
                            text@.len() as int,
                        );
                    }
                    msg
                },
            };
            proof {
                lemma_chat_line_len(name@, content@);
            }
            join_chat(name.as_str(), content.as_str())
        };
        let packet = private_chat(id, line.as_str());
        let _ = self.user_list.send_to(receiver, packet.as_slice());
    }

    /// Handles an `ApplSpecific` event of the user `id`: the call is
    /// relayed to the audience that its receiver and strategy name.
    pub fn appl_specific(
        &mut self,
        id: i32,
        strategy: Strategy,
        id2: i32,
        method: String,
        strarg: String,
        intarg: i32,
    )
        requires
            old(self)@.wf(),
            byte_len(method@) <= MAX_TEXT,
            byte_len(strarg@) <= MAX_TEXT,
        ensures
            appl_step(
                old(self)@.list,
                final(self)@.list,
                id,
                id2,
                strategy,
                appl_specific_packet(id, id2, strategy, method@, strarg@, intarg),
            ),
            final(self)@ == old(self)@.with_list(final(self)@.list),
            final(self)@.wf(),
    {
        let packet = appl_specific(id, id2, strategy, method.as_str(), strarg.as_str(), intarg);
        let bytes: &[u8] = packet.as_slice();
        let ghost before = self.user_list@;
        if id2 == BROADCAST_ID {
            match strategy {
                Strategy::AuraClients | Strategy::AllClients | Strategy::Unknown5 => {
                    self.user_list.send_all(bytes);
                },
                Strategy::AuraClientsExceptSender
                | Strategy::AllClientsExceptSender
                | Strategy::Unknown6 => {
                    self.user_list.send_others(id, bytes);
                },
                Strategy::SpecificClient => {
                    let master = self.user_list.master();
                    let ghost mid = self.user_list@;
                    match master {
                        Some(master_id) => {
                            let _ = self.user_list.send_to(master_id, bytes);
                        },
                        None => {
                            assert(mid.users =~= delivered(mid.users, Set::empty(), bytes@));
                        },
                    }
                    assert(master_step(before, mid, master) && self.user_list@ == mid.with_users(
                        delivered(
                            mid.users,
                            if master is Some {
                                set![master->0]
                            } else {
                                Set::empty()
                            },
                            bytes@,
                        ),
                    ));
                },
                Strategy::Invalid => {
                    assert(before.users =~= delivered(before.users, Set::empty(), bytes@));
                },
            }
            return ;
        }
        match strategy {
            Strategy::AuraClients => {
                self.user_list.send_aura(id, bytes);
                let _ = self.user_list.send_to(id, bytes);
                assert(self.user_list@.users =~= delivered(
                    before.users,
                    before.aura_of(id).insert(id),
                    bytes@,
                ));
            },
            Strategy::AuraClientsExceptSender => {
                self.user_list.send_aura(id, bytes);
            },
            Strategy::SpecificClient => {
                let _ = self.user_list.send_to(id2, bytes);
            },
            Strategy::AllClients => {
                self.user_list.send_all(bytes);
            },
            Strategy::AllClientsExceptSender => {
                self.user_list.send_others(id, bytes);
            },
            _ => {
                assert(before.users =~= delivered(before.users, Set::empty(), bytes@));
            },
        }
    }

    /// Handles the event `event` of the user `id`. `reply` is what the
    /// script answered where the event is a chat line or a private chat
    /// line; it is not looked at for any other event. Returns the changes
    /// of the aura of `id`.
    pub fn handle_event(&mut self, id: i32, event: UserEvent, reply: Option<String>) -> (changes:
        Vec<AuraChange>)
        requires
            old(self)@.wf(),
            event@.wf(),
            reply matches Some(other) ==> byte_len(other@) <= MAX_TEXT,
        ensures
            event_step(
                old(self)@.list,
                final(self)@.list,
                old(self)@.config.aura_radius,
                id,
                event@,
                opt_text(reply),
                changes@,
            ),
            final(self)@ == old(self)@.with_list(final(self)@.list),
            final(self)@.wf(),
    {
        match event {
            UserEvent::NewUser(name, avatar) => {
                let _ = self.new_user();
            },
            UserEvent::StateChange => {},
            UserEvent::PositionUpdate(pos) => {
                return self.position_update(id, pos);
            },
            UserEvent::TransformUpdate(rot, pos) => {
                return self.transform_update(id, rot, pos);
            },
            UserEvent::ChatSend(msg) => self.chat_send(id, msg, reply),
            UserEvent::CharacterUpdate(data) => self.character_update(id, data),
            UserEvent::NameChange(name) => self.name_change(id, name),
            UserEvent::AvatarChange(avatar) => self.avatar_change(id, avatar),
            UserEvent::PrivateChat(receiver, text) => self.private_chat(id, receiver, text, reply),
            UserEvent::ApplSpecific(strategy, id2, method, strarg, intarg) => self.appl_specific(
                id,
                strategy,
                id2,
                method,
                strarg,
                intarg,
            ),
        }
        Vec::new()
    }

    /// Carries out what a script asked for; says whether the user that it
    /// is about is connected.
    pub fn apply(&mut self, action: ScriptAction) -> (found: bool)
        requires
            old(self)@.wf(),
            action@.wf(),
        ensures
            found == old(self)@.list.ids().contains(action@.target()),
            final(self)@ == old(self)@.with_list(applied(old(self)@.list, action@)),
            final(self)@.wf(),
    {
        match action {
            ScriptAction::SetPos(id, pos) => self.user_list.set_pos(id, pos),
            ScriptAction::SetRot(id, rot) => self.user_list.set_rot(id, rot),
            ScriptAction::SendMsg(id, msg) => self.user_list.send_msg(id, msg.as_str()),
            ScriptAction::SendPacket(id, bytes) => self.user_list.send_to(id, bytes.as_slice()),
            ScriptAction::Disconnect(id) => self.user_list.mark_disconnected(id),
        }
    }

    /// Ends a tick: every user that has been marked as gone is
    /// disconnected, and where there was one, those who stay are told the
    /// new count. Returns the ids that were removed.
    pub fn sweep(&mut self) -> (removed: Vec<i32>)
        requires
            old(self)@.wf(),
        ensures
            sweep_step(old(self)@.list, final(self)@.list, removed@),
            final(self)@ == old(self)@.with_list(final(self)@.list),
            final(self)@.wf(),
    {
        let ids = self.user_list.ids();
        let mut removed: Vec<i32> = Vec::new();
        let ghost before = self.user_list@;
        let mut i: usize = 0;
        while i < ids.len()
            invariant
                i <= ids.len(),
                before == old(self)@.list,
                before.wf(),
                ids@.no_duplicates(),
                ids@.to_set() == before.ids(),
                removed@.no_duplicates(),
                forall|k: i32|
                    removed@.contains(k) <==> ids@.take(i as int).contains(k) && gone(
                        before,
                    ).contains(k),
                self.user_list@ == disconnected_all(before, removed@),
                self.user_list@.wf(),
                self.user_list@.max_index == before.max_index,
                old(self)@.wf(),
                self@ == old(self)@.with_list(self.user_list@),
            decreases ids.len() - i,
        {
            let id: i32 = ids[i];
            let ghost kept = removed@;
            proof {
                lemma_take_next(ids@, i as int);
                assert(ids@.to_set().contains(id));
                assert(!removed@.contains(id));
                lemma_disconnected_all_keeps(before, removed@, id);
            }
            if !self.user_list.is_connected(id) {
                self.user_list.disconnect(id);
                proof {
                    lemma_push_fresh(removed@, id);
                    assert(removed@.push(id).drop_last() =~= removed@);
                }
                removed.push(id);
            }
            assert forall|k: i32|
                removed@.contains(k) <==> ids@.take(i + 1).contains(k) && gone(before).contains(
                    k,
                ) by {
                assert(kept.contains(k) <==> ids@.take(i as int).contains(k) && gone(
                    before,
                ).contains(k));
            }
            i = i + 1;
        }
        assert(ids@.take(ids.len() as int) =~= ids@);
        assert(removed@.to_set() =~= gone(before)) by {
            assert forall|k: i32| removed@.to_set().contains(k) <==> gone(before).contains(k) by {
                if gone(before).contains(k) {
                    assert(ids@.to_set().contains(k));
                }
            }
        }
        if removed.len() > 0 {
            self.user_list.send_user_count();
        }
        removed
    }
}

/// A name, `": "` and a text take no more bytes than two texts and two
/// more.
pub proof fn lemma_chat_line_len(name: Seq<char>, msg: Seq<char>)
    ensures
        byte_len(chat_line(name, msg)) == byte_len(name) + 2 + byte_len(msg),
{
    lemma_encode_concat(name + separator(), msg);
    lemma_encode_concat(name, separator());
    lemma_separator_len();
}

/// Disconnecting some users keeps a list well formed, and changes neither
/// whether any other user is connected nor whether it has been marked as
/// gone.
pub proof fn lemma_disconnected_all_keeps(l: UserListModel, order: Seq<i32>, k: i32)
    requires
        l.wf(),
        !order.contains(k),
    ensures
        disconnected_all(l, order).wf(),
        disconnected_all(l, order).max_index == l.max_index,
        disconnected_all(l, order).ids().contains(k) == l.ids().contains(k),
        l.ids().contains(k) ==> disconnected_all(l, order).users[k].connected
            == l.users[k].connected,
    decreases order.len(),
{
    if order.len() > 0 {
        let rest = order.drop_last();
        assert(!rest.contains(k)) by {
            if rest.contains(k) {
                let j = choose|j: int| 0 <= j < rest.len() && rest[j] == k;
                assert(order[j] == k);
            }
        }
        assert(order.last() != k) by {
            assert(order[order.len() - 1] == order.last());
        }
        lemma_disconnected_all_keeps(l, rest, k);
        lemma_disconnect_wf(disconnected_all(l, rest), order.last());
    }
}

} // verus!
