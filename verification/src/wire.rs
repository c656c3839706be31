//! Wire data model and the canonical byte form of the inner messages.
//!
//! A [`PacketWrapper`] is the outermost envelope handed to the transport: a
//! sender id, an encrypted payload and a packet kind.  The two inner
//! messages, [`MediaManagementPacket`] and [`MediaPacket`], are serialized to
//! a canonical byte form before encryption: a one-byte tag for the enum
//! field, an eight-byte little-endian value for lengths and timestamps, and
//! each character of a string as its four-byte little-endian scalar value.

use vstd::prelude::*;
use vstd::string::StrSliceExecFns;
use vstd::utf8::is_scalar;

verus! {

/// Kind of an outbound wire packet.
#[derive(Clone, Copy, Debug, PartialEq, Eq, Structural)]
pub enum PacketType {
    MediaMandatory,
    MediaManagement,
}

/// Event carried by a media-management message.
#[derive(Clone, Copy, Debug, PartialEq, Eq, Structural)]
pub enum EventType {
    Subscribe,
    Unsubscribe,
    OngoingStream,
}

/// Kind of a media packet; the core only ever builds heartbeats.
#[derive(Clone, Copy, Debug, PartialEq, Eq, Structural)]
pub enum MediaType {
    Heartbeat,
}

/// Inner message of a management packet, before encryption.
pub struct MediaManagementPacket {
    pub event_type: EventType,
    pub email: String,
}

/// Inner message of a heartbeat packet, before encryption.
pub struct MediaPacket {
    pub media_type: MediaType,
    pub email: String,
    pub timestamp: u64,
}

/// The outermost, always-encrypted envelope handed to the transport.
pub struct PacketWrapper {
    pub data: Vec<u8>,
    pub email: String,
    pub packet_type: PacketType,
}

/// Mathematical value of a wire packet.
#[verifier::ext_equal]
pub struct WirePacketView {
    pub data: Seq<u8>,
    pub email: Seq<char>,
    pub packet_type: PacketType,
}

impl View for PacketWrapper {
    type V = WirePacketView;

    open spec fn view(&self) -> WirePacketView {
        WirePacketView { data: self.data@, email: self.email@, packet_type: self.packet_type }
    }
}

/// Little-endian bytes of a 32-bit value.
pub open spec fn le_u32(n: u32) -> Seq<u8> {
    seq![
        (n & 0xff) as u8,
        ((n >> 8) & 0xff) as u8,
        ((n >> 16) & 0xff) as u8,
        ((n >> 24) & 0xff) as u8,
    ]
}

/// Little-endian bytes of a 64-bit value.
pub open spec fn le_u64(n: u64) -> Seq<u8> {
    seq![
        (n & 0xff) as u8,
        ((n >> 8) & 0xff) as u8,
        ((n >> 16) & 0xff) as u8,
        ((n >> 24) & 0xff) as u8,
        ((n >> 32) & 0xff) as u8,
        ((n >> 40) & 0xff) as u8,
        ((n >> 48) & 0xff) as u8,
        ((n >> 56) & 0xff) as u8,
    ]
}

/// Canonical bytes of one character: its scalar value, little endian.
pub open spec fn char_le(c: char) -> Seq<u8> {
    le_u32(c as u32)
}

/// Canonical bytes of a character sequence.
pub open spec fn chars_le(s: Seq<char>) -> Seq<u8>
    decreases s.len(),
{
    if s.len() == 0 {
        Seq::empty()
    } else {
        char_le(s[0]) + chars_le(s.drop_first())
    }
}

/// Canonical bytes of a string: its length, then its characters.
pub open spec fn string_bytes(s: Seq<char>) -> Seq<u8> {
    le_u64(s.len() as u64) + chars_le(s)
}

/// Tag byte of an event type.
pub open spec fn event_type_tag(e: EventType) -> u8 {
    match e {
        EventType::Subscribe => 1,
        EventType::Unsubscribe => 2,
        EventType::OngoingStream => 3,
    }
}

/// Tag byte of a media type.
pub open spec fn media_type_tag(m: MediaType) -> u8 {
    match m {
        MediaType::Heartbeat => 1,
    }
}

/// Canonical byte form of a management message.
pub open spec fn management_bytes(event: EventType, email: Seq<char>) -> Seq<u8> {
    seq![event_type_tag(event)] + string_bytes(email)
}

/// Canonical byte form of a heartbeat message.
pub open spec fn heartbeat_bytes(media: MediaType, sender: Seq<char>, timestamp: u64) -> Seq<u8> {
    seq![media_type_tag(media)] + le_u64(timestamp) + string_bytes(sender)
}

/// Appending one character extends the canonical bytes by that character.
proof fn lemma_chars_le_push(s: Seq<char>, c: char)
    ensures
        chars_le(s.push(c)) == chars_le(s) + char_le(c),
    decreases s.len(),
{
    if s.len() == 0 {
        assert(s.push(c)[0] == c);
        assert(s =~= Seq::<char>::empty());
        assert(s.push(c).drop_first() =~= Seq::<char>::empty());
        assert(chars_le(Seq::<char>::empty()) == Seq::<u8>::empty());
        assert(chars_le(s.push(c)) =~= chars_le(s) + char_le(c));
    } else {
        assert(s.push(c)[0] == s[0]);
        assert(s.push(c).drop_first() =~= s.drop_first().push(c));
        lemma_chars_le_push(s.drop_first(), c);
        assert(chars_le(s.push(c)) =~= chars_le(s) + char_le(c));
    }
}

/// The canonical bytes of a character sequence take four bytes per
/// character.
proof fn lemma_chars_le_len(s: Seq<char>)
    ensures
        chars_le(s).len() == 4 * s.len(),
    decreases s.len(),
{
    if s.len() > 0 {
        lemma_chars_le_len(s.drop_first());
    }
}

/// The four bytes at position `j` of the canonical character bytes encode
/// the character at index `j`.
proof fn lemma_chars_le_group(s: Seq<char>, j: int)
    requires
        0 <= j < s.len(),
    ensures
        chars_le(s).subrange(4 * j, 4 * j + 4) == char_le(s[j]),
    decreases j,
{
    lemma_chars_le_len(s);
    if j == 0 {
        assert(chars_le(s).subrange(0, 4) =~= char_le(s[0]));
    } else {
        let t = s.drop_first();
        lemma_chars_le_group(t, j - 1);
        lemma_chars_le_len(t);
        assert(t[j - 1] == s[j]);
        assert(chars_le(s).subrange(4 * j, 4 * j + 4) =~= chars_le(t).subrange(
            4 * (j - 1),
            4 * (j - 1) + 4,
        ));
    }
}

proof fn lemma_le_u32_injective(a: u32, b: u32)
    requires
        le_u32(a) == le_u32(b),
    ensures
        a == b,
{
    assert(le_u32(a)[0] == le_u32(b)[0] && le_u32(a)[1] == le_u32(b)[1] && le_u32(a)[2] == le_u32(
        b,
    )[2] && le_u32(a)[3] == le_u32(b)[3]);
    assert(a == b) by (bit_vector)
        requires
            (a & 0xff) as u8 == (b & 0xff) as u8,
            ((a >> 8) & 0xff) as u8 == ((b >> 8) & 0xff) as u8,
            ((a >> 16) & 0xff) as u8 == ((b >> 16) & 0xff) as u8,
            ((a >> 24) & 0xff) as u8 == ((b >> 24) & 0xff) as u8,
    ;
}

proof fn lemma_le_u64_injective(a: u64, b: u64)
    requires
        le_u64(a) == le_u64(b),
    ensures
        a == b,
{
    assert(le_u64(a)[0] == le_u64(b)[0] && le_u64(a)[1] == le_u64(b)[1] && le_u64(a)[2] == le_u64(
        b,
    )[2] && le_u64(a)[3] == le_u64(b)[3] && le_u64(a)[4] == le_u64(b)[4] && le_u64(a)[5] == le_u64(
        b,
    )[5] && le_u64(a)[6] == le_u64(b)[6] && le_u64(a)[7] == le_u64(b)[7]);
    assert(a == b) by (bit_vector)
        requires
            (a & 0xff) as u8 == (b & 0xff) as u8,
            ((a >> 8) & 0xff) as u8 == ((b >> 8) & 0xff) as u8,
            ((a >> 16) & 0xff) as u8 == ((b >> 16) & 0xff) as u8,
            ((a >> 24) & 0xff) as u8 == ((b >> 24) & 0xff) as u8,
            ((a >> 32) & 0xff) as u8 == ((b >> 32) & 0xff) as u8,
            ((a >> 40) & 0xff) as u8 == ((b >> 40) & 0xff) as u8,
            ((a >> 48) & 0xff) as u8 == ((b >> 48) & 0xff) as u8,
            ((a >> 56) & 0xff) as u8 == ((b >> 56) & 0xff) as u8,
    ;
}

/// Two characters with the same scalar value are the same character.
proof fn lemma_char_le_injective(a: char, b: char)
    requires
        char_le(a) == char_le(b),
    ensures
        a == b,
{
    lemma_le_u32_injective(a as u32, b as u32);
    vstd::utf8::char_u32_cast(a, a as u32);
    vstd::utf8::char_u32_cast(b, b as u32);
}

/// How a canonical management encoding is laid out: the event tag, the
/// character count, then four bytes per character.
proof fn lemma_management_bytes_shape(e: EventType, s: Seq<char>)
    ensures
        management_bytes(e, s).len() == 9 + 4 * s.len(),
        management_bytes(e, s)[0] == event_type_tag(e),
        management_bytes(e, s).subrange(1, 9) == le_u64(s.len() as u64),
        management_bytes(e, s).subrange(9, management_bytes(e, s).len() as int) == chars_le(s),
{
    lemma_chars_le_len(s);
    assert(management_bytes(e, s).subrange(1, 9) =~= le_u64(s.len() as u64));
    assert(management_bytes(e, s).subrange(9, management_bytes(e, s).len() as int) =~= chars_le(
        s,
    ));
}

/// Relies on `char::from_u32`: it returns `Some` exactly for Unicode scalar
/// values, and the returned character has the given scalar value.
#[verifier::external_body]
fn char_from_u32(u: u32) -> (r: Option<char>)
    ensures
        r is Some <==> is_scalar(u),
        r matches Some(c) ==> c as u32 == u,
{
    char::from_u32(u)
}

/// Relies on `String::push`: it appends exactly one character.
#[verifier::external_body]
fn string_push(s: &mut String, c: char)
    ensures
        final(s)@ == old(s)@.push(c),
{
    s.push(c);
}

fn push_le_u32(out: &mut Vec<u8>, n: u32)
    ensures
        final(out)@ == old(out)@ + le_u32(n),
{
    out.push((n & 0xff) as u8);
    out.push(((n >> 8) & 0xff) as u8);
    out.push(((n >> 16) & 0xff) as u8);
    out.push(((n >> 24) & 0xff) as u8);
    assert(out@ =~= old(out)@ + le_u32(n));
}

fn push_le_u64(out: &mut Vec<u8>, n: u64)
    ensures
        final(out)@ == old(out)@ + le_u64(n),
{
    out.push((n & 0xff) as u8);
    out.push(((n >> 8) & 0xff) as u8);
    out.push(((n >> 16) & 0xff) as u8);
    out.push(((n >> 24) & 0xff) as u8);
    out.push(((n >> 32) & 0xff) as u8);
    out.push(((n >> 40) & 0xff) as u8);
    out.push(((n >> 48) & 0xff) as u8);
    out.push(((n >> 56) & 0xff) as u8);
    assert(out@ =~= old(out)@ + le_u64(n));
}

fn push_string(out: &mut Vec<u8>, s: &str)
    ensures
        final(out)@ == old(out)@ + string_bytes(s@),
{
    let len = s.unicode_len();
    push_le_u64(out, len as u64);
    let mut i: usize = 0;
    while i < len
        invariant
            len == s@.len(),
            i <= len,
            out@ == old(out)@ + le_u64(len as u64) + chars_le(s@.take(i as int)),
        decreases len - i,
    {
        let c = s.get_char(i);
        push_le_u32(out, c as u32);
        proof {
            lemma_chars_le_push(s@.take(i as int), c);
            assert(s@.take(i + 1 as int) =~= s@.take(i as int).push(c));
            assert(out@ =~= old(out)@ + le_u64(len as u64) + chars_le(s@.take(i + 1 as int)));
        }
        i = i + 1;
    }
    assert(s@.take(len as int) =~= s@);
    assert(out@ =~= old(out)@ + string_bytes(s@));
}

/// Exec form of [`event_type_tag`].
fn event_tag_of(e: EventType) -> (r: u8)
    ensures
        r == event_type_tag(e),
{
    match e {
        EventType::Subscribe => 1,
        EventType::Unsubscribe => 2,
        EventType::OngoingStream => 3,
    }
}

/// Exec form of [`media_type_tag`].
fn media_tag_of(m: MediaType) -> (r: u8)
    ensures
        r == media_type_tag(m),
{
    match m {
        MediaType::Heartbeat => 1,
    }
}

/// Serializes a management message to its canonical byte form.
pub fn encode_management(p: &MediaManagementPacket) -> (r: Vec<u8>)
    ensures
        r@ == management_bytes(p.event_type, p.email@),
{
    let mut out: Vec<u8> = Vec::new();
    out.push(event_tag_of(p.event_type));
    push_string(&mut out, p.email.as_str());
    assert(out@ =~= management_bytes(p.event_type, p.email@));
    out
}

/// Serializes a heartbeat message to its canonical byte form.
pub fn encode_heartbeat(p: &MediaPacket) -> (r: Vec<u8>)
    ensures
        r@ == heartbeat_bytes(p.media_type, p.email@, p.timestamp),
{
    let mut out: Vec<u8> = Vec::new();
    out.push(media_tag_of(p.media_type));
    push_le_u64(&mut out, p.timestamp);
    push_string(&mut out, p.email.as_str());
    assert(out@ =~= heartbeat_bytes(p.media_type, p.email@, p.timestamp));
    out
}

proof fn lemma_le_u32_reconstruct(b0: u8, b1: u8, b2: u8, b3: u8)
    ensures
        le_u32(
            b0 as u32 | ((b1 as u32) << 8) | ((b2 as u32) << 16) | ((b3 as u32) << 24),
        ) == seq![b0, b1, b2, b3],
{
    let n: u32 = b0 as u32 | ((b1 as u32) << 8) | ((b2 as u32) << 16) | ((b3 as u32) << 24);
    assert((n & 0xff) as u8 == b0 && ((n >> 8) & 0xff) as u8 == b1 && ((n >> 16) & 0xff) as u8
        == b2 && ((n >> 24) & 0xff) as u8 == b3) by (bit_vector)
        requires
            n == b0 as u32 | ((b1 as u32) << 8) | ((b2 as u32) << 16) | ((b3 as u32) << 24),
    ;
    assert(le_u32(n) =~= seq![b0, b1, b2, b3]);
}

proof fn lemma_le_u64_reconstruct(b: Seq<u8>, n: u64)
    requires
        b.len() == 8,
        n == b[0] as u64 | ((b[1] as u64) << 8) | ((b[2] as u64) << 16) | ((b[3] as u64) << 24)
            | ((b[4] as u64) << 32) | ((b[5] as u64) << 40) | ((b[6] as u64) << 48) | ((
        b[7] as u64) << 56),
    ensures
        le_u64(n) == b,
{
    let b0 = b[0];
    let b1 = b[1];
    let b2 = b[2];
    let b3 = b[3];
    let b4 = b[4];
    let b5 = b[5];
    let b6 = b[6];
    let b7 = b[7];
    assert((n & 0xff) as u8 == b0 && ((n >> 8) & 0xff) as u8 == b1 && ((n >> 16) & 0xff) as u8
        == b2 && ((n >> 24) & 0xff) as u8 == b3 && ((n >> 32) & 0xff) as u8 == b4 && ((n >> 40)
        & 0xff) as u8 == b5 && ((n >> 48) & 0xff) as u8 == b6 && ((n >> 56) & 0xff) as u8 == b7)
        by (bit_vector)
        requires
            n == b0 as u64 | ((b1 as u64) << 8) | ((b2 as u64) << 16) | ((b3 as u64) << 24) | ((
            b4 as u64) << 32) | ((b5 as u64) << 40) | ((b6 as u64) << 48) | ((b7 as u64) << 56),
    ;
    assert(le_u64(n) =~= b);
}

fn read_le_u32(bytes: &[u8], off: usize) -> (r: u32)
    requires
        off + 4 <= bytes@.len(),
    ensures
        le_u32(r) == bytes@.subrange(off as int, off as int + 4),
{
    let r = bytes[off] as u32 | ((bytes[off + 1] as u32) << 8) | ((bytes[off + 2] as u32) << 16)
        | ((bytes[off + 3] as u32) << 24);
    proof {
        lemma_le_u32_reconstruct(
            bytes@[off as int],
            bytes@[off as int + 1],
            bytes@[off as int + 2],
            bytes@[off as int + 3],
        );
        assert(le_u32(r) =~= bytes@.subrange(off as int, off as int + 4));
    }
    r
}

fn read_le_u64(bytes: &[u8], off: usize) -> (r: u64)
    requires
        off + 8 <= bytes@.len(),
    ensures
        le_u64(r) == bytes@.subrange(off as int, off as int + 8),
{
    let r = bytes[off] as u64 | ((bytes[off + 1] as u64) << 8) | ((bytes[off + 2] as u64) << 16)
        | ((bytes[off + 3] as u64) << 24) | ((bytes[off + 4] as u64) << 32) | ((bytes[off
        + 5] as u64) << 40) | ((bytes[off + 6] as u64) << 48) | ((bytes[off + 7] as u64) << 56);
    proof {
        lemma_le_u64_reconstruct(bytes@.subrange(off as int, off as int + 8), r);
    }
    r
}

/// Parses the canonical byte form of a management message.
///
/// It succeeds exactly on the canonical encodings: when it returns a
/// message, the input was that message's encoding, and when the input is
/// the encoding of some event and target, exactly they are returned.
pub fn decode_management(bytes: &[u8]) -> (r: Option<MediaManagementPacket>)
    ensures
        r matches Some(m) ==> bytes@ == management_bytes(m.event_type, m.email@),
        forall|e: EventType, s: Seq<char>|
            bytes@ == management_bytes(e, s) ==> (r matches Some(m) && m.event_type == e
                && m.email@ == s),
{
    if bytes.len() < 9 {
        proof {
            assert forall|e: EventType, s: Seq<char>|
                bytes@ != management_bytes(e, s) by {
                lemma_management_bytes_shape(e, s);
            }
        }
        return None;
    }
    let tag = bytes[0];
    let event = if tag == 1 {
        EventType::Subscribe
    } else if tag == 2 {
        EventType::Unsubscribe
    } else if tag == 3 {
        EventType::OngoingStream
    } else {
        proof {
            assert forall|e: EventType, s: Seq<char>|
                bytes@ != management_bytes(e, s) by {
                lemma_management_bytes_shape(e, s);
                assert(event_type_tag(e) == 1 || event_type_tag(e) == 2 || event_type_tag(e) == 3);
            }
        }
        return None;
    };
    let n = read_le_u64(bytes, 1);
    let rem = bytes.len() - 9;
    if n > (usize::MAX as u64) {
        proof {
            assert forall|e: EventType, s: Seq<char>| bytes@ != management_bytes(e, s) by {
                if bytes@ == management_bytes(e, s) {
                    lemma_management_bytes_shape(e, s);
                    lemma_le_u64_injective(n, s.len() as u64);
                    assert(4 * (s.len() as int) == rem as int);
                    assert(s.len() as u64 <= usize::MAX as u64);
                }
            }
        }
        return None;
    }
    let count = n as usize;
    if rem % 4 != 0 || count != rem / 4 {
        proof {
            assert forall|e: EventType, s: Seq<char>| bytes@ != management_bytes(e, s) by {
                if bytes@ == management_bytes(e, s) {
                    lemma_management_bytes_shape(e, s);
                    lemma_le_u64_injective(n, s.len() as u64);
                    assert(4 * (s.len() as int) == rem as int);
                    assert(s.len() as int <= usize::MAX as int);
                    assert(count as int == s.len() as int);
                    assert((rem as int) % 4 == 0 && (rem as int) / 4 == s.len() as int)
                        by (nonlinear_arith)
                        requires
                            4 * (s.len() as int) == rem as int,
                    ;
                }
            }
        }
        return None;
    }
    proof {
        vstd::arithmetic::div_mod::lemma_fundamental_div_mod(rem as int, 4);
        assert(bytes@.len() == 9 + 4 * (count as int));
        assert(9 + 4 * (count as int) <= usize::MAX);
    }
    let mut email = String::new();
    proof {
        assert(chars_le(email@) =~= bytes@.subrange(9, 9));
    }
    let mut j: usize = 0;
    while j < count
        invariant
            bytes@.len() == 9 + 4 * (count as int),
            9 + 4 * (count as int) <= usize::MAX,
            j <= count,
            email@.len() == j,
            chars_le(email@) == bytes@.subrange(9, 9 + 4 * (j as int)),
        decreases count - j,
    {
        let off = 9 + 4 * j;
        let u = read_le_u32(bytes, off);
        let c = match char_from_u32(u) {
            Some(c) => c,
            None => {
                proof {
                    assert forall|e: EventType, s: Seq<char>| bytes@ != management_bytes(e, s) by {
                        if bytes@ == management_bytes(e, s) {
                            lemma_management_bytes_shape(e, s);
                            assert(s.len() == count as int);
                            lemma_chars_le_group(s, j as int);
                            assert(chars_le(s) == bytes@.subrange(9, bytes@.len() as int));
                            assert(bytes@.subrange(9, bytes@.len() as int).subrange(
                                4 * (j as int),
                                4 * (j as int) + 4,
                            ) =~= bytes@.subrange(off as int, off as int + 4));
                            lemma_le_u32_injective(u, s[j as int] as u32);
                            vstd::utf8::char_is_scalar(s[j as int]);
                        }
                    }
                }
                return None;
            },
        };
        proof {
            lemma_chars_le_push(email@, c);
            assert(char_le(c) == le_u32(u));
            assert(bytes@.subrange(9, 9 + 4 * (j as int + 1)) =~= bytes@.subrange(
                9,
                9 + 4 * (j as int),
            ) + bytes@.subrange(off as int, off as int + 4));
        }
        string_push(&mut email, c);
        j = j + 1;
        proof {
            assert(chars_le(email@) =~= bytes@.subrange(9, 9 + 4 * (j as int)));
        }
    }
    proof {
        assert(le_u64(n) == bytes@.subrange(1, 9));
        assert(email@.len() as u64 == n);
        assert(bytes@ =~= seq![bytes@[0]] + bytes@.subrange(1, 9) + bytes@.subrange(
            9,
            bytes@.len() as int,
        ));
        assert(bytes@ =~= management_bytes(event, email@));
        assert forall|e: EventType, s: Seq<char>| bytes@ == management_bytes(e, s) implies event
            == e && email@ == s by {
            lemma_management_bytes_shape(e, s);
            lemma_management_bytes_shape(event, email@);
            assert(event_type_tag(e) == event_type_tag(event));
            assert(event == e);
            assert(s.len() == email@.len());
            assert(chars_le(s) == chars_le(email@));
            assert forall|k: int| 0 <= k < s.len() implies s[k] == email@[k] by {
                lemma_chars_le_group(s, k);
                lemma_chars_le_group(email@, k);
                lemma_char_le_injective(s[k], email@[k]);
            }
            assert(s =~= email@);
        }
    }
    Some(MediaManagementPacket { event_type: event, email })
}

} // verus!
