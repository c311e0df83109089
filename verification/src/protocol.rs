//! The VSCP byte codec: big-endian primitives, NUL-terminated strings, and
//! the three packet templates.

use vstd::prelude::*;
use vstd::utf8::*;
use vstd::slice::*;
use crate::math::Vector3;

verus! {

/// The opcode of a general message.
#[derive(Clone, Copy, Debug, PartialEq, Eq, Structural)]
pub enum Opcode {
    CMsgNewUser,
    SMsgClientId,
    SMsgUserJoined,
    SMsgUserLeft,
    SMsgBroadcastId,
    MsgCommon,
    CMsgStateChange,
    SMsgSetMaster,
    SMsgUserCount,
}

impl Opcode {
    /// The number that stands for this opcode on the wire.
    pub open spec fn spec_code(self) -> u32 {
        match self {
            Opcode::CMsgNewUser => 0,
            Opcode::SMsgClientId => 1,
            Opcode::SMsgUserJoined => 2,
            Opcode::SMsgUserLeft => 3,
            Opcode::SMsgBroadcastId => 4,
            Opcode::MsgCommon => 6,
            Opcode::CMsgStateChange => 7,
            Opcode::SMsgSetMaster => 8,
            Opcode::SMsgUserCount => 11,
        }
    }

    pub fn code(self) -> (c: u32)
        ensures
            c == self.spec_code(),
    {
        match self {
            Opcode::CMsgNewUser => 0,
            Opcode::SMsgClientId => 1,
            Opcode::SMsgUserJoined => 2,
            Opcode::SMsgUserLeft => 3,
            Opcode::SMsgBroadcastId => 4,
            Opcode::MsgCommon => 6,
            Opcode::CMsgStateChange => 7,
            Opcode::SMsgSetMaster => 8,
            Opcode::SMsgUserCount => 11,
        }
    }
}

/// The sub-type carried at the head of a `MsgCommon` body.
#[derive(Clone, Copy, Debug, PartialEq, Eq, Structural)]
pub enum MsgCommon {
    TransformUpdate,
    ChatSend,
    CharacterUpdate,
    NameChange,
    AvatarChange,
    PrivateChat,
    ApplSpecific,
}

impl MsgCommon {
    /// The number that stands for this sub-type on the wire.
    pub open spec fn spec_code(self) -> u32 {
        match self {
            MsgCommon::TransformUpdate => 2,
            MsgCommon::ChatSend => 9,
            MsgCommon::CharacterUpdate => 12,
            MsgCommon::NameChange => 13,
            MsgCommon::AvatarChange => 14,
            MsgCommon::PrivateChat => 15,
            MsgCommon::ApplSpecific => 10000,
        }
    }

    pub fn code(self) -> (c: u32)
        ensures
            c == self.spec_code(),
    {
        match self {
            MsgCommon::TransformUpdate => 2,
            MsgCommon::ChatSend => 9,
            MsgCommon::CharacterUpdate => 12,
            MsgCommon::NameChange => 13,
            MsgCommon::AvatarChange => 14,
            MsgCommon::PrivateChat => 15,
            MsgCommon::ApplSpecific => 10000,
        }
    }
}

/// The audience that a `MsgCommon` asks for.
#[derive(Clone, Copy, Debug, PartialEq, Eq, Structural)]
pub enum Strategy {
    AuraClients,
    AuraClientsExceptSender,
    SpecificClient,
    AllClients,
    AllClientsExceptSender,
    Unknown5,
    Unknown6,
    Invalid,
}

impl Strategy {
    /// The strategy that a wire byte names; every byte above 6 is `Invalid`.
    pub open spec fn of_byte(value: u8) -> Strategy {
        if value == 0 {
            Strategy::AuraClients
        } else if value == 1 {
            Strategy::AuraClientsExceptSender
        } else if value == 2 {
            Strategy::SpecificClient
        } else if value == 3 {
            Strategy::AllClients
        } else if value == 4 {
            Strategy::AllClientsExceptSender
        } else if value == 5 {
            Strategy::Unknown5
        } else if value == 6 {
            Strategy::Unknown6
        } else {
            Strategy::Invalid
        }
    }

    /// The byte that stands for this strategy on the wire; `Invalid` is 255.
    pub open spec fn spec_code(self) -> u8 {
        match self {
            Strategy::AuraClients => 0,
            Strategy::AuraClientsExceptSender => 1,
            Strategy::SpecificClient => 2,
            Strategy::AllClients => 3,
            Strategy::AllClientsExceptSender => 4,
            Strategy::Unknown5 => 5,
            Strategy::Unknown6 => 6,
            Strategy::Invalid => 255,
        }
    }

    pub fn code(self) -> (c: u8)
        ensures
            c == self.spec_code(),
    {
        match self {
            Strategy::AuraClients => 0,
            Strategy::AuraClientsExceptSender => 1,
            Strategy::SpecificClient => 2,
            Strategy::AllClients => 3,
            Strategy::AllClientsExceptSender => 4,
            Strategy::Unknown5 => 5,
            Strategy::Unknown6 => 6,
            Strategy::Invalid => 255,
        }
    }
}

impl From<u8> for Strategy {
    fn from(value: u8) -> (s: Strategy) {
        match value {
            0 => Strategy::AuraClients,
            1 => Strategy::AuraClientsExceptSender,
            2 => Strategy::SpecificClient,
            3 => Strategy::AllClients,
            4 => Strategy::AllClientsExceptSender,
            5 => Strategy::Unknown5,
            6 => Strategy::Unknown6,
            _ => Strategy::Invalid,
        }
    }
}

impl vstd::std_specs::convert::FromSpecImpl<u8> for Strategy {
    open spec fn obeys_from_spec() -> bool {
        true
    }

    open spec fn from_spec(value: u8) -> Strategy {
        Strategy::of_byte(value)
    }
}

/// A strategy's byte names that strategy again, except for `Invalid`, which
/// every byte above 6 names.
pub proof fn lemma_strategy_round_trip(s: Strategy)
    ensures
        Strategy::of_byte(s.spec_code()) == s,
{
}

// ---------------------------------------------------------------------------
// Big-endian integers
// ---------------------------------------------------------------------------

/// The two bytes of `n`, high byte first.
pub open spec fn be_u16(n: u16) -> Seq<u8> {
    seq![(n / 0x100) as u8, (n % 0x100) as u8]
}

/// The four bytes of `n`, high byte first.
pub open spec fn be_u32(n: u32) -> Seq<u8> {
    seq![
        (n / 0x100_0000) as u8,
        (n / 0x1_0000 % 0x100) as u8,
        (n / 0x100 % 0x100) as u8,
        (n % 0x100) as u8,
    ]
}

/// The unsigned number with the same eight bits as `n`.
pub open spec fn twos_u8(n: i8) -> u8 {
    if n >= 0 {
        n as u8
    } else {
        (n + 0x100) as u8
    }
}

/// The unsigned number with the same sixteen bits as `n`.
pub open spec fn twos_u16(n: i16) -> u16 {
    if n >= 0 {
        n as u16
    } else {
        (n + 0x1_0000) as u16
    }
}

/// The unsigned number with the same thirty-two bits as `n`.
pub open spec fn twos_u32(n: i32) -> u32 {
    if n >= 0 {
        n as u32
    } else {
        (n + 0x1_0000_0000) as u32
    }
}

/// The signed number with the same eight bits as `u`.
pub open spec fn twos_i8(u: u8) -> i8 {
    if u < 0x80 {
        u as i8
    } else {
        (u - 0x100) as i8
    }
}

/// The signed number with the same thirty-two bits as `u`.
pub open spec fn twos_i32(u: u32) -> i32 {
    if u < 0x8000_0000 {
        u as i32
    } else {
        (u - 0x1_0000_0000) as i32
    }
}

/// The two bytes of `n` in two's complement, high byte first.
pub open spec fn be_i16(n: i16) -> Seq<u8> {
    be_u16(twos_u16(n))
}

/// The four bytes of `n` in two's complement, high byte first.
pub open spec fn be_i32(n: i32) -> Seq<u8> {
    be_u32(twos_u32(n))
}

/// The unsigned 16-bit number whose big-endian bytes start at `b[i]`.
pub open spec fn u16_at(b: Seq<u8>, i: int) -> u16 {
    (b[i] * 0x100 + b[i + 1]) as u16
}

/// The unsigned 32-bit number whose big-endian bytes start at `b[i]`.
pub open spec fn u32_at(b: Seq<u8>, i: int) -> u32 {
    (b[i] * 0x100_0000 + b[i + 1] * 0x1_0000 + b[i + 2] * 0x100 + b[i + 3]) as u32
}

/// The signed 32-bit number whose big-endian bytes start at `b[i]`.
pub open spec fn i32_at(b: Seq<u8>, i: int) -> i32 {
    twos_i32(u32_at(b, i))
}

// ---------------------------------------------------------------------------
// Strings
// ---------------------------------------------------------------------------

/// The first index at or after `from` that holds a zero byte, or the length
/// of `b` where there is none.
pub open spec fn nul_index(b: Seq<u8>, from: int) -> int
    decreases b.len() - from,
{
    if 0 <= from < b.len() && b[from] != 0 {
        nul_index(b, from + 1)
    } else {
        from
    }
}

/// The bytes of the NUL-terminated string that starts at `b[start]`, without
/// the terminator.
pub open spec fn raw_string_at(b: Seq<u8>, start: int) -> Seq<u8> {
    b.subrange(start, nul_index(b, start))
}

/// The text of the NUL-terminated string that starts at `b[start]`: its
/// characters where the bytes are UTF-8, and nothing where they are not.
pub open spec fn string_at(b: Seq<u8>, start: int) -> Seq<char> {
    if valid_utf8(raw_string_at(b, start)) {
        decode_utf8(raw_string_at(b, start))
    } else {
        Seq::empty()
    }
}

/// A string as it travels: its UTF-8 bytes and a zero byte.
pub open spec fn wire_string(s: Seq<char>) -> Seq<u8> {
    encode_utf8(s).push(0u8)
}

/// `nul_index` stays within the buffer, every byte before it is nonzero, and
/// the byte at it, if there is one, is zero.
pub proof fn lemma_nul_index(b: Seq<u8>, from: int)
    requires
        0 <= from <= b.len(),
    ensures
        from <= nul_index(b, from) <= b.len(),
        forall|k: int| from <= k < nul_index(b, from) ==> b[k] != 0,
        nul_index(b, from) < b.len() ==> b[nul_index(b, from)] == 0,
    decreases b.len() - from,
{
    if from < b.len() && b[from] != 0 {
        lemma_nul_index(b, from + 1);
    }
}

/// The string read at `start` takes no more bytes than the buffer holds from
/// `start` on; where its bytes are UTF-8 it takes exactly those bytes.
pub proof fn lemma_string_at_len(b: Seq<u8>, start: int)
    requires
        0 <= start <= b.len(),
    ensures
        encode_utf8(string_at(b, start)).len() <= b.len() - start,
        valid_utf8(raw_string_at(b, start)) ==> encode_utf8(string_at(b, start))
            == raw_string_at(b, start),
        !valid_utf8(raw_string_at(b, start)) ==> encode_utf8(string_at(b, start)).len() == 0,
{
    lemma_nul_index(b, start);
    if valid_utf8(raw_string_at(b, start)) {
        decode_utf8_encode_utf8(raw_string_at(b, start));
    } else {
        assert(encode_utf8(Seq::<char>::empty()) =~= Seq::<u8>::empty());
    }
}

/// `String::from_utf8` accepts exactly the byte strings that are UTF-8, and
/// the string it returns holds the bytes it was given.
#[verifier::external_body]
pub(crate) fn text_of_utf8(bytes: Vec<u8>) -> (r: Option<String>)
    ensures
        r is Some <==> valid_utf8(bytes@),
        r is Some ==> encode_utf8(r->0@) == bytes@,
{
    match String::from_utf8(bytes) {
        Ok(s) => Some(s),
        Err(_) => None,
    }
}

/// Readers of big-endian values and NUL-terminated strings at an offset of a
/// byte buffer.
pub trait ByteReader {
    /// The bytes that are read from.
    spec fn bytes(&self) -> Seq<u8>;

    fn read_u8(&self, start: usize) -> (r: u8)
        requires
            start < self.bytes().len(),
        ensures
            r == self.bytes()[start as int],
    ;

    fn read_i8(&self, start: usize) -> (r: i8)
        requires
            start < self.bytes().len(),
        ensures
            r == twos_i8(self.bytes()[start as int]),
    ;

    fn read_u16(&self, start: usize) -> (r: u16)
        requires
            start + 2 <= self.bytes().len(),
        ensures
            r == u16_at(self.bytes(), start as int),
    ;

    fn read_u32(&self, start: usize) -> (r: u32)
        requires
            start + 4 <= self.bytes().len(),
        ensures
            r == u32_at(self.bytes(), start as int),
    ;

    fn read_i32(&self, start: usize) -> (r: i32)
        requires
            start + 4 <= self.bytes().len(),
        ensures
            r == i32_at(self.bytes(), start as int),
    ;

    /// The string from `start` up to the first zero byte or the end of the
    /// buffer; empty where those bytes are not UTF-8.
    fn read_string(&self, start: usize) -> (r: String)
        requires
            start <= self.bytes().len(),
        ensures
            r@ == string_at(self.bytes(), start as int),
    ;
}

impl ByteReader for [u8] {
    open spec fn bytes(&self) -> Seq<u8> {
        self@
    }

    fn read_u8(&self, start: usize) -> (r: u8) {
        self[start]
    }

    fn read_i8(&self, start: usize) -> (r: i8) {
        let u: u8 = self[start];
        if u < 0x80 {
            u as i8
        } else {
            (u as i16 - 0x100) as i8
        }
    }

    fn read_u16(&self, start: usize) -> (r: u16) {
        (self[start] as u16) * 0x100 + (self[start + 1] as u16)
    }

    fn read_u32(&self, start: usize) -> (r: u32) {
        (self[start] as u32) * 0x100_0000 + (self[start + 1] as u32) * 0x1_0000 + (self[start
            + 2] as u32) * 0x100 + (self[start + 3] as u32)
    }

    fn read_i32(&self, start: usize) -> (r: i32) {
        let u: u32 = self.read_u32(start);
        if u < 0x8000_0000 {
            u as i32
        } else {
            (u as i64 - 0x1_0000_0000) as i32
        }
    }

    fn read_string(&self, start: usize) -> (r: String) {
        let mut end: usize = start;
        while end < self.len() && self[end] != 0
            invariant
                start <= end <= self.len(),
                nul_index(self@, end as int) == nul_index(self@, start as int),
            decreases self.len() - end,
        {
            end = end + 1;
        }
        let raw: Vec<u8> = slice_to_vec(slice_subrange(self, start, end));
        match text_of_utf8(raw) {
            Some(s) => {
                proof {
                    encode_utf8_decode_utf8(s@);
                }
                s
            },
            None => String::new(),
        }
    }
}

// ---------------------------------------------------------------------------
// What is written is read back
// ---------------------------------------------------------------------------

/// A byte written after `pre` is read back at offset `pre.len()`, whatever
/// follows it.
pub proof fn lemma_round_trip_u8(pre: Seq<u8>, n: u8, post: Seq<u8>)
    ensures
        (pre.push(n) + post)[pre.len() as int] == n,
{
}

/// A signed byte written after `pre` is read back at offset `pre.len()`.
pub proof fn lemma_round_trip_i8(pre: Seq<u8>, n: i8, post: Seq<u8>)
    ensures
        twos_i8((pre.push(twos_u8(n)) + post)[pre.len() as int]) == n,
{
}

/// A `u16` written after `pre` is read back at offset `pre.len()`.
pub proof fn lemma_round_trip_u16(pre: Seq<u8>, n: u16, post: Seq<u8>)
    ensures
        u16_at(pre + be_u16(n) + post, pre.len() as int) == n,
{
    let b = pre + be_u16(n) + post;
    let i = pre.len() as int;
    assert(b[i] == be_u16(n)[0]);
    assert(b[i + 1] == be_u16(n)[1]);
}

/// A `u32` written after `pre` is read back at offset `pre.len()`.
pub proof fn lemma_round_trip_u32(pre: Seq<u8>, n: u32, post: Seq<u8>)
    ensures
        u32_at(pre + be_u32(n) + post, pre.len() as int) == n,
{
    let b = pre + be_u32(n) + post;
    let i = pre.len() as int;
    assert(b[i] == be_u32(n)[0]);
    assert(b[i + 1] == be_u32(n)[1]);
    assert(b[i + 2] == be_u32(n)[2]);
    assert(b[i + 3] == be_u32(n)[3]);
}

/// An `i32` written after `pre` is read back at offset `pre.len()`.
pub proof fn lemma_round_trip_i32(pre: Seq<u8>, n: i32, post: Seq<u8>)
    ensures
        i32_at(pre + be_i32(n) + post, pre.len() as int) == n,
{
    lemma_round_trip_u32(pre, twos_u32(n), post);
}

/// The UTF-8 encoding of a character other than NUL holds no zero byte.
proof fn lemma_scalar_has_no_nul(c: u32)
    by (bit_vector)
    requires
        c != 0,
    ensures
        (c & 0x7F) as u8 != 0 || c > 0x7F,
        0xC0u8 | ((c >> 6) & 0x1F) as u8 != 0,
        0xE0u8 | ((c >> 12) & 0x0F) as u8 != 0,
        0xF0u8 | ((c >> 18) & 0x7) as u8 != 0,
        0x80u8 | (c & 0x3F) as u8 != 0,
        0x80u8 | ((c >> 6) & 0x3F) as u8 != 0,
        0x80u8 | ((c >> 12) & 0x3F) as u8 != 0,
{
}

/// The UTF-8 encoding of a text without NUL characters holds no zero byte.
pub proof fn lemma_encoding_has_no_nul(s: Seq<char>)
    requires
        forall|i: int| 0 <= i < s.len() ==> s[i] != '\0',
    ensures
        forall|k: int| 0 <= k < encode_utf8(s).len() ==> encode_utf8(s)[k] != 0,
    decreases s.len(),
{
    if s.len() > 0 {
        let c = s[0] as u32;
        assert(c != 0) by {
            if c == 0 {
                char_u32_cast(s[0], c);
                assert('\0' as u32 == 0u32);
                char_u32_cast('\0', 0u32);
            }
        }
        char_is_scalar(s[0]);
        lemma_scalar_has_no_nul(c);
        lemma_encoding_has_no_nul(s.drop_first());
        let head = encode_scalar(c);
        let tail = encode_utf8(s.drop_first());
        assert(forall|k: int| 0 <= k < head.len() ==> head[k] != 0);
        assert forall|k: int| 0 <= k < encode_utf8(s).len() implies encode_utf8(s)[k] != 0 by {
            if k >= head.len() {
                assert(encode_utf8(s)[k] == tail[k - head.len()]);
            } else {
                assert(encode_utf8(s)[k] == head[k]);
            }
        }
    }
}

/// In `pre + body + [0] + post`, where `body` holds no zero byte, the string
/// that starts after `pre` ends where `body` ends.
proof fn lemma_nul_index_after(pre: Seq<u8>, body: Seq<u8>, post: Seq<u8>, from: int)
    requires
        forall|k: int| 0 <= k < body.len() ==> body[k] != 0,
        pre.len() <= from <= pre.len() + body.len(),
    ensures
        nul_index(pre + body.push(0u8) + post, from) == pre.len() + body.len(),
    decreases pre.len() + body.len() - from,
{
    let b = pre + body.push(0u8) + post;
    if from < pre.len() + body.len() {
        assert(b[from] == body[from - pre.len()]);
        lemma_nul_index_after(pre, body, post, from + 1);
    } else {
        assert(b[from] == 0u8);
    }
}

/// A string without NUL characters, written after `pre`, is read back at
/// offset `pre.len()`, whatever follows its terminator.
pub proof fn lemma_round_trip_string(pre: Seq<u8>, s: Seq<char>, post: Seq<u8>)
    requires
        forall|i: int| 0 <= i < s.len() ==> s[i] != '\0',
    ensures
        string_at(pre + wire_string(s) + post, pre.len() as int) == s,
{
    let body = encode_utf8(s);
    let b = pre + wire_string(s) + post;
    lemma_encoding_has_no_nul(s);
    lemma_nul_index_after(pre, body, post, pre.len() as int);
    assert(raw_string_at(b, pre.len() as int) =~= body);
    encode_utf8_valid_utf8(s);
    encode_utf8_decode_utf8(s);
}

// ---------------------------------------------------------------------------
// Writer
// ---------------------------------------------------------------------------

/// The largest capacity hint that `ByteWriter::new` passes on to the
/// allocator.
pub const MAX_CAPACITY_HINT: usize = 65536;

/// An append-only builder of wire bytes. All integers are big-endian.
pub struct ByteWriter {
    pub bytes: Vec<u8>,
}

impl View for ByteWriter {
    type V = Seq<u8>;

    open spec fn view(&self) -> Seq<u8> {
        self.bytes@
    }
}

/// The general-message frame around `content`.
pub open spec fn general_message_bytes(id1: i32, id2: i32, opcode: Opcode, content: Seq<u8>) -> Seq<
    u8,
> {
    seq![0u8] + be_i32(id1) + be_i32(id2) + be_u32(opcode.spec_code()) + be_u32(
        content.len() as u32,
    ) + content
}

/// The body of a `MsgCommon`: receiver id, sub-type, strategy, content.
pub open spec fn message_common_body(id2: i32, msg_type: MsgCommon, strategy: Strategy, content: Seq<
    u8,
>) -> Seq<u8> {
    be_i32(id2) + be_u32(msg_type.spec_code()) + seq![strategy.spec_code()] + content
}

/// The `MsgCommon` packet: its body inside a general message whose two outer
/// ids are both `id1`.
pub open spec fn message_common_bytes(
    id1: i32,
    id2: i32,
    msg_type: MsgCommon,
    strategy: Strategy,
    content: Seq<u8>,
) -> Seq<u8> {
    general_message_bytes(
        id1,
        id1,
        Opcode::MsgCommon,
        message_common_body(id2, msg_type, strategy, content),
    )
}

/// The position-update packet: class byte 2, the id three times, the three
/// coordinates, and the closing bytes 1 and 0.
pub open spec fn position_update_bytes(id: i32, pos: Vector3) -> Seq<u8> {
    seq![2u8] + be_i32(id) + be_i32(id) + be_i32(id) + be_i32(pos.x) + be_i32(pos.y) + be_i32(
        pos.z,
    ) + seq![1u8, 0u8]
}

impl ByteWriter {
    /// An empty writer. `n` is the number of bytes the caller expects to
    /// write; it sizes the first allocation and changes nothing else.
    pub fn new(n: usize) -> (w: ByteWriter)
        ensures
            w@ == Seq::<u8>::empty(),
    {
        if n <= MAX_CAPACITY_HINT {
            ByteWriter { bytes: Vec::with_capacity(n) }
        } else {
            ByteWriter { bytes: Vec::new() }
        }
    }

    pub fn general_message(id1: i32, id2: i32, opcode: Opcode, content: &[u8]) -> (w: ByteWriter)
        requires
            content@.len() <= u32::MAX,
        ensures
            w@ == general_message_bytes(id1, id2, opcode, content@),
    {
        let hint: usize = if content.len() <= MAX_CAPACITY_HINT {
            17 + content.len()
        } else {
            0
        };
        ByteWriter::new(hint).write_u8(0).write_i32(id1).write_i32(id2).write_u32(
            opcode.code(),
        ).write_u32(content.len() as u32).write_arr(content)
    }

    pub fn position_update(id: i32, pos: &Vector3) -> (w: ByteWriter)
        ensures
            w@ == position_update_bytes(id, *pos),
            w@.len() == 27,
    {
        ByteWriter::new(27).write_u8(2).write_i32(id).write_i32(id).write_i32(id).write_i32(
            pos.x,
        ).write_i32(pos.y).write_i32(pos.z).write_u8(1).write_u8(0)
    }

    pub fn message_common(
        id1: i32,
        id2: i32,
        msg_type: MsgCommon,
        strategy: Strategy,
        content: &[u8],
    ) -> (w: ByteWriter)
        requires
            content@.len() + 9 <= u32::MAX,
        ensures
            w@ == message_common_bytes(id1, id2, msg_type, strategy, content@),
    {
        let hint: usize = if content.len() <= MAX_CAPACITY_HINT {
            9 + content.len()
        } else {
            0
        };
        let body = ByteWriter::new(hint).write_i32(id2).write_u32(msg_type.code()).write_u8(
            strategy.code(),
        ).write_arr(content);
        ByteWriter::general_message(id1, id1, Opcode::MsgCommon, body.bytes.as_slice())
    }

    pub fn write_i32(self, n: i32) -> (w: ByteWriter)
        ensures
            w@ == self@ + be_i32(n),
    {
        let u: u32 = if n >= 0 {
            n as u32
        } else {
            (n as i64 + 0x1_0000_0000) as u32
        };
        self.write_u32(u)
    }

    pub fn write_i16(self, n: i16) -> (w: ByteWriter)
        ensures
            w@ == self@ + be_i16(n),
    {
        let u: u16 = if n >= 0 {
            n as u16
        } else {
            (n as i32 + 0x1_0000) as u16
        };
        self.write_u16(u)
    }

    pub fn write_i8(self, n: i8) -> (w: ByteWriter)
        ensures
            w@ == self@.push(twos_u8(n)),
    {
        let u: u8 = if n >= 0 {
            n as u8
        } else {
            (n as i16 + 0x100) as u8
        };
        self.write_u8(u)
    }

    pub fn write_u32(self, n: u32) -> (w: ByteWriter)
        ensures
            w@ == self@ + be_u32(n),
    {
        let mut w = self;
        w.bytes.push((n / 0x100_0000) as u8);
        w.bytes.push((n / 0x1_0000 % 0x100) as u8);
        w.bytes.push((n / 0x100 % 0x100) as u8);
        w.bytes.push((n % 0x100) as u8);
        assert(w@ =~= self@ + be_u32(n));
        w
    }

    pub fn write_u16(self, n: u16) -> (w: ByteWriter)
        ensures
            w@ == self@ + be_u16(n),
    {
        let mut w = self;
        w.bytes.push((n / 0x100) as u8);
        w.bytes.push((n % 0x100) as u8);
        assert(w@ =~= self@ + be_u16(n));
        w
    }

    pub fn write_u8(self, n: u8) -> (w: ByteWriter)
        ensures
            w@ == self@.push(n),
    {
        let mut w = self;
        w.bytes.push(n);
        w
    }

    /// Appends every byte of `arr`.
    pub fn write_arr(self, arr: &[u8]) -> (w: ByteWriter)
        ensures
            w@ == self@ + arr@,
    {
        let mut w = self;
        w.bytes.extend_from_slice(arr);
        w
    }

    /// Appends the UTF-8 bytes of `s` and a terminating zero byte.
    pub fn write_string(self, s: &str) -> (w: ByteWriter)
        ensures
            w@ == self@ + wire_string(s@),
    {
        let mut w = self;
        w.bytes.extend_from_slice(s.as_bytes());
        w.bytes.push(0);
        assert(w@ =~= self@ + wire_string(s@));
        w
    }
}

} // verus!
