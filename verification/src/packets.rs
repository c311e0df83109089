//! Every packet that a bureau sends, as a byte sequence and as the function
//! that builds it.

use vstd::prelude::*;
use crate::math::{Mat3, Vector3};
use crate::protocol::{
    be_i32, general_message_bytes, message_common_bytes, wire_string,
    ByteWriter, MsgCommon, Opcode, Strategy,
};
use crate::text::byte_len;

verus! {

/// The most bytes that a stored or relayed text may take. Any packet built
/// from a few such texts still fits the 32-bit length field of its frame.
pub const MAX_TEXT: usize = 0x1000_0000;

/// The wire integers of `vals`, each as four big-endian bytes.
pub open spec fn fixed_bytes(vals: Seq<i32>) -> Seq<u8>
    decreases vals.len(),
{
    if vals.len() == 0 {
        Seq::empty()
    } else {
        fixed_bytes(vals.drop_last()) + be_i32(vals.last())
    }
}

/// The content of a transform update: the rotation's entries, then the
/// position.
pub open spec fn transform_bytes(rotation: Seq<i32>, pos: Vector3) -> Seq<u8> {
    fixed_bytes(rotation) + be_i32(pos.x) + be_i32(pos.y) + be_i32(pos.z)
}

/// `SMsgClientId`: tells a new client its id.
pub open spec fn client_id_packet(id: i32) -> Seq<u8> {
    general_message_bytes(0, id, Opcode::SMsgClientId, be_i32(id))
}

/// `SMsgUserJoined`: tells `to` that the user `id` is now in its aura, with
/// that user's avatar and name.
pub open spec fn user_joined_packet(to: i32, id: i32, avatar: Seq<char>, name: Seq<char>) -> Seq<
    u8,
> {
    general_message_bytes(
        to,
        to,
        Opcode::SMsgUserJoined,
        be_i32(id) + be_i32(id) + wire_string(avatar) + wire_string(name),
    )
}

/// `SMsgBroadcastId`: closes the reply to a new client.
pub open spec fn broadcast_id_packet(id: i32) -> Seq<u8> {
    general_message_bytes(id, id, Opcode::SMsgBroadcastId, be_i32(id))
}

/// `SMsgUserLeft`: tells `to` that the user `id` has left its aura.
pub open spec fn user_left_packet(to: i32, id: i32) -> Seq<u8> {
    general_message_bytes(to, to, Opcode::SMsgUserLeft, be_i32(id))
}

/// `SMsgSetMaster(1)`: tells `id` that it is the master now.
pub open spec fn set_master_packet(id: i32) -> Seq<u8> {
    general_message_bytes(id, id, Opcode::SMsgSetMaster, seq![1u8])
}

/// `SMsgUserCount`: the number of connected users.
pub open spec fn user_count_packet(count: i32) -> Seq<u8> {
    general_message_bytes(0, 0, Opcode::SMsgUserCount, seq![1u8] + be_i32(count))
}

/// A `MsgCommon` from `id1` about `id2` whose content is one string.
pub open spec fn text_packet(
    id1: i32,
    id2: i32,
    msg_type: MsgCommon,
    strategy: Strategy,
    text: Seq<char>,
) -> Seq<u8> {
    message_common_bytes(id1, id2, msg_type, strategy, wire_string(text))
}

/// The character data of the user `id`, as shown to `to` when `id` enters
/// its aura.
pub open spec fn character_packet(to: i32, id: i32, data: Seq<char>) -> Seq<u8> {
    text_packet(to, id, MsgCommon::CharacterUpdate, Strategy::AuraClientsExceptSender, data)
}

/// The transform update that the user `id` sends about itself.
pub open spec fn transform_packet(id: i32, rotation: Seq<i32>, pos: Vector3) -> Seq<u8> {
    message_common_bytes(
        id,
        id,
        MsgCommon::TransformUpdate,
        Strategy::AuraClients,
        transform_bytes(rotation, pos),
    )
}

/// A private chat line from `id`.
pub open spec fn private_chat_packet(id: i32, text: Seq<char>) -> Seq<u8> {
    message_common_bytes(
        id,
        id,
        MsgCommon::PrivateChat,
        Strategy::SpecificClient,
        be_i32(id) + wire_string(text),
    )
}

/// An application-specific call from `id` to `id2`.
pub open spec fn appl_specific_packet(
    id: i32,
    id2: i32,
    strategy: Strategy,
    method: Seq<char>,
    strarg: Seq<char>,
    intarg: i32,
) -> Seq<u8> {
    message_common_bytes(
        id,
        id2,
        MsgCommon::ApplSpecific,
        strategy,
        seq![2u8] + wire_string(method) + wire_string(strarg) + be_i32(intarg),
    )
}

/// The three packets that answer a `CMsgNewUser`.
pub open spec fn new_user_replies(id: i32, name: Seq<char>, avatar: Seq<char>) -> Seq<Seq<u8>> {
    seq![
        client_id_packet(id),
        user_joined_packet(id, id, avatar, name),
        broadcast_id_packet(id),
    ]
}

/// The greeting that admits a client: `hello`, a zero byte, and the id
/// twice.
pub open spec fn hello_bytes(id: i32) -> Seq<u8> {
    seq![0x68u8, 0x65u8, 0x6Cu8, 0x6Cu8, 0x6Fu8, 0u8] + be_i32(id) + be_i32(id)
}

/// The answer to a client for which no id is free: `reject` and eight zero
/// bytes.
pub open spec fn reject_bytes() -> Seq<u8> {
    seq![
        0x72u8, 0x65u8, 0x6Au8, 0x65u8, 0x63u8, 0x74u8, 0u8, 0u8, 0u8, 0u8, 0u8, 0u8, 0u8, 0u8,
    ]
}

/// Whether `text` is short enough to be stored or relayed.
pub fn fits(text: &str) -> (r: bool)
    ensures
        r == (byte_len(text@) <= MAX_TEXT),
{
    text.as_bytes().len() <= MAX_TEXT
}

pub fn client_id(id: i32) -> (p: Vec<u8>)
    ensures
        p@ == client_id_packet(id),
{
    let content = ByteWriter::new(4).write_i32(id);
    ByteWriter::general_message(0, id, Opcode::SMsgClientId, content.bytes.as_slice()).bytes
}

pub fn user_joined(to: i32, id: i32, avatar: &str, name: &str) -> (p: Vec<u8>)
    requires
        byte_len(avatar@) <= MAX_TEXT,
        byte_len(name@) <= MAX_TEXT,
    ensures
        p@ == user_joined_packet(to, id, avatar@, name@),
{
    let content = ByteWriter::new(8).write_i32(id).write_i32(id).write_string(avatar).write_string(
        name,
    );
    ByteWriter::general_message(to, to, Opcode::SMsgUserJoined, content.bytes.as_slice()).bytes
}

pub fn broadcast_id(id: i32) -> (p: Vec<u8>)
    ensures
        p@ == broadcast_id_packet(id),
{
    let content = ByteWriter::new(4).write_i32(id);
    ByteWriter::general_message(id, id, Opcode::SMsgBroadcastId, content.bytes.as_slice()).bytes
}

pub fn user_left(to: i32, id: i32) -> (p: Vec<u8>)
    ensures
        p@ == user_left_packet(to, id),
{
    let content = ByteWriter::new(4).write_i32(id);
    ByteWriter::general_message(to, to, Opcode::SMsgUserLeft, content.bytes.as_slice()).bytes
}

pub fn set_master(id: i32) -> (p: Vec<u8>)
    ensures
        p@ == set_master_packet(id),
{
    let content = ByteWriter::new(1).write_u8(1);
    assert(content@ =~= seq![1u8]);
    ByteWriter::general_message(id, id, Opcode::SMsgSetMaster, content.bytes.as_slice()).bytes
}

pub fn user_count(count: i32) -> (p: Vec<u8>)
    ensures
        p@ == user_count_packet(count),
{
    let content = ByteWriter::new(5).write_u8(1).write_i32(count);
    assert(content@ =~= seq![1u8] + be_i32(count));
    ByteWriter::general_message(0, 0, Opcode::SMsgUserCount, content.bytes.as_slice()).bytes
}

pub fn text_message(id1: i32, id2: i32, msg_type: MsgCommon, strategy: Strategy, text: &str) -> (p:
    Vec<u8>)
    requires
        byte_len(text@) <= 2 * MAX_TEXT + 2,
    ensures
        p@ == text_packet(id1, id2, msg_type, strategy, text@),
{
    let content = ByteWriter::new(0).write_string(text);
    ByteWriter::message_common(id1, id2, msg_type, strategy, content.bytes.as_slice()).bytes
}

pub fn character(to: i32, id: i32, data: &str) -> (p: Vec<u8>)
    requires
        byte_len(data@) <= MAX_TEXT,
    ensures
        p@ == character_packet(to, id, data@),
{
    text_message(to, id, MsgCommon::CharacterUpdate, Strategy::AuraClientsExceptSender, data)
}

/// The content of a transform update.
pub fn transform_content(rot: &Mat3, pos: &Vector3) -> (c: Vec<u8>)
    ensures
        c@ == transform_bytes(rot.data@, *pos),
{
    let mut w = ByteWriter::new(48);
    let mut i: usize = 0;
    while i < 9
        invariant
            i <= 9,
            w@ == fixed_bytes(rot.data@.take(i as int)),
        decreases 9 - i,
    {
        w = w.write_i32(rot.data[i]);
        proof {
            let next = rot.data@.take(i + 1);
            assert(next.drop_last() =~= rot.data@.take(i as int));
            assert(next.last() == rot.data@[i as int]);
        }
        i = i + 1;
    }
    assert(rot.data@.take(9) =~= rot.data@);
    w.write_i32(pos.x).write_i32(pos.y).write_i32(pos.z).bytes
}

pub fn transform(id: i32, rot: &Mat3, pos: &Vector3) -> (p: Vec<u8>)
    ensures
        p@ == transform_packet(id, rot.data@, *pos),
{
    let content = transform_content(rot, pos);
    proof {
        lemma_fixed_bytes_len(rot.data@);
    }
    ByteWriter::message_common(
        id,
        id,
        MsgCommon::TransformUpdate,
        Strategy::AuraClients,
        content.as_slice(),
    ).bytes
}

pub fn private_chat(id: i32, text: &str) -> (p: Vec<u8>)
    requires
        byte_len(text@) <= 2 * MAX_TEXT + 2,
    ensures
        p@ == private_chat_packet(id, text@),
{
    let content = ByteWriter::new(4).write_i32(id).write_string(text);
    ByteWriter::message_common(
        id,
        id,
        MsgCommon::PrivateChat,
        Strategy::SpecificClient,
        content.bytes.as_slice(),
    ).bytes
}

pub fn appl_specific(
    id: i32,
    id2: i32,
    strategy: Strategy,
    method: &str,
    strarg: &str,
    intarg: i32,
) -> (p: Vec<u8>)
    requires
        byte_len(method@) <= MAX_TEXT,
        byte_len(strarg@) <= MAX_TEXT,
    ensures
        p@ == appl_specific_packet(id, id2, strategy, method@, strarg@, intarg),
{
    let content = ByteWriter::new(1).write_u8(2).write_string(method).write_string(
        strarg,
    ).write_i32(intarg);
    assert(content@ =~= seq![2u8] + wire_string(method@) + wire_string(strarg@) + be_i32(intarg));
    ByteWriter::message_common(
        id,
        id2,
        MsgCommon::ApplSpecific,
        strategy,
        content.bytes.as_slice(),
    ).bytes
}

pub fn hello(id: i32) -> (p: Vec<u8>)
    ensures
        p@ == hello_bytes(id),
        p@.len() == 14,
{
    let w = ByteWriter::new(14).write_u8(0x68).write_u8(0x65).write_u8(0x6C).write_u8(
        0x6C,
    ).write_u8(0x6F).write_u8(0);
    assert(w@ =~= seq![0x68u8, 0x65u8, 0x6Cu8, 0x6Cu8, 0x6Fu8, 0u8]);
    w.write_i32(id).write_i32(id).bytes
}

pub fn reject() -> (p: Vec<u8>)
    ensures
        p@ == reject_bytes(),
        p@.len() == 14,
{
    let w = ByteWriter::new(14).write_u8(0x72).write_u8(0x65).write_u8(0x6A).write_u8(
        0x65,
    ).write_u8(0x63).write_u8(0x74).write_u8(0).write_u8(0).write_u8(0).write_u8(0).write_u8(
        0,
    ).write_u8(0).write_u8(0).write_u8(0);
    assert(w@ =~= reject_bytes());
    w.bytes
}

/// Every wire integer takes four bytes.
pub proof fn lemma_fixed_bytes_len(vals: Seq<i32>)
    ensures
        fixed_bytes(vals).len() == 4 * vals.len(),
    decreases vals.len(),
{
    if vals.len() > 0 {
        lemma_fixed_bytes_len(vals.drop_last());
    }
}

} // verus!
