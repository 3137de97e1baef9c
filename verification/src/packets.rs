//! The logon challenge: the first message a client sends, and its codec.
//!
//! On the wire the message is a fixed header of 34 bytes followed by the
//! account name:
//!
//! | offset | bytes | field                                   |
//! |--------|-------|-----------------------------------------|
//! | 0      | 1     | opcode                                  |
//! | 1      | 1     | protocol version                        |
//! | 2      | 2     | declared size, little-endian            |
//! | 4      | 4     | game tag, text                          |
//! | 8      | 3     | client version triplet                  |
//! | 11     | 2     | build number, little-endian             |
//! | 13     | 4     | platform tag, text                      |
//! | 17     | 4     | operating system tag, text              |
//! | 21     | 4     | locale tag, text                        |
//! | 25     | 4     | region bias, little-endian              |
//! | 29     | 4     | client address, octets as sent          |
//! | 33     | 1     | length N of the account name            |
//! | 34     | N     | account name, text                      |

use vstd::prelude::*;
use vstd::slice::slice_subrange;
use vstd::utf8::{decode_utf8, encode_utf8, valid_utf8};
use crate::text::{ascii_text, is_ascii_bytes, lemma_ascii_is_text, parse_text};
use crate::wire::{
    le_bytes_u16, le_bytes_u32, le_u16, le_u32, u16_from_le, u16_to_le, u32_from_le, u32_to_le,
};

verus! {

/// Length of the fixed part of a logon challenge.
pub const HEADER_LEN: usize = 34;

/// Why a buffer is not a logon challenge.
#[derive(Debug, Clone, Copy, PartialEq, Eq, Structural)]
pub enum MalformedPacket {
    /// The buffer ends before the fixed header does.
    ShortHeader,
    /// A text field does not hold UTF-8.
    InvalidText,
    /// The buffer ends before the account name that the header announces.
    ShortAccountName,
}

/// What a logon challenge says, as mathematical values.
pub struct LogonChallengeView {
    pub opcode: u8,
    pub protocol_version: u8,
    pub size: u16,
    pub game_name: Seq<char>,
    pub version: Seq<u8>,
    pub build: u16,
    pub platform: Seq<char>,
    pub os: Seq<char>,
    pub locale: Seq<char>,
    pub worldregion_bias: u32,
    pub ip: Seq<u8>,
    pub account_name_length: u8,
    pub account_name: Seq<char>,
}

impl LogonChallengeView {
    /// Every field has the width that the wire layout gives it.
    pub open spec fn wf(self) -> bool {
        &&& encode_utf8(self.game_name).len() == 4
        &&& self.version.len() == 3
        &&& encode_utf8(self.platform).len() == 4
        &&& encode_utf8(self.os).len() == 4
        &&& encode_utf8(self.locale).len() == 4
        &&& self.ip.len() == 4
        &&& encode_utf8(self.account_name).len() == self.account_name_length
    }

    /// The fixed header of the message.
    pub open spec fn header_bytes(self) -> Seq<u8> {
        seq![self.opcode, self.protocol_version] + le_bytes_u16(self.size) + encode_utf8(
            self.game_name,
        ) + self.version + le_bytes_u16(self.build) + encode_utf8(self.platform) + encode_utf8(
            self.os,
        ) + encode_utf8(self.locale) + le_bytes_u32(self.worldregion_bias) + self.ip
            + seq![self.account_name_length]
    }

    /// The whole message: header, then account name.
    pub open spec fn to_bytes(self) -> Seq<u8> {
        self.header_bytes() + encode_utf8(self.account_name)
    }
}

/// Number of bytes that the message at the front of `bytes` announces:
/// the header and the account name.
pub open spec fn declared_len(bytes: Seq<u8>) -> int
    recommends
        bytes.len() >= HEADER_LEN,
{
    HEADER_LEN + bytes[33] as int
}

/// The four text tags of the header hold UTF-8.
pub open spec fn header_text_valid(bytes: Seq<u8>) -> bool
    recommends
        bytes.len() >= HEADER_LEN,
{
    &&& valid_utf8(bytes.subrange(4, 8))
    &&& valid_utf8(bytes.subrange(13, 17))
    &&& valid_utf8(bytes.subrange(17, 21))
    &&& valid_utf8(bytes.subrange(21, 25))
}

/// The bytes of the account name.
pub open spec fn account_name_bytes(bytes: Seq<u8>) -> Seq<u8>
    recommends
        bytes.len() >= declared_len(bytes),
{
    bytes.subrange(HEADER_LEN as int, declared_len(bytes))
}

/// The fields read off a buffer that holds a whole message with valid text.
pub open spec fn fields_of(bytes: Seq<u8>) -> LogonChallengeView
    recommends
        bytes.len() >= HEADER_LEN,
        bytes.len() >= declared_len(bytes),
{
    LogonChallengeView {
        opcode: bytes[0],
        protocol_version: bytes[1],
        size: le_u16(bytes[2], bytes[3]) as u16,
        game_name: decode_utf8(bytes.subrange(4, 8)),
        version: bytes.subrange(8, 11),
        build: le_u16(bytes[11], bytes[12]) as u16,
        platform: decode_utf8(bytes.subrange(13, 17)),
        os: decode_utf8(bytes.subrange(17, 21)),
        locale: decode_utf8(bytes.subrange(21, 25)),
        worldregion_bias: le_u32(bytes[25], bytes[26], bytes[27], bytes[28]) as u32,
        ip: bytes.subrange(29, 33),
        account_name_length: bytes[33],
        account_name: decode_utf8(account_name_bytes(bytes)),
    }
}

/// What decoding a buffer gives: the fields, or the first reason, in wire
/// order, for which the buffer is refused. Bytes after the account name are
/// not looked at, and the declared size is not held against the buffer.
pub open spec fn decode(bytes: Seq<u8>) -> Result<LogonChallengeView, MalformedPacket> {
    if bytes.len() < HEADER_LEN {
        Err(MalformedPacket::ShortHeader)
    } else if !header_text_valid(bytes) {
        Err(MalformedPacket::InvalidText)
    } else if bytes.len() < declared_len(bytes) {
        Err(MalformedPacket::ShortAccountName)
    } else if !valid_utf8(account_name_bytes(bytes)) {
        Err(MalformedPacket::InvalidText)
    } else {
        Ok(fields_of(bytes))
    }
}

/// A decoded logon challenge.
#[derive(Debug)]
pub struct CmdAuthLogonChallenge {
    opcode: u8,
    protocol_version: u8,
    size: u16,
    game_name: String,
    version: [u8; 3],
    build: u16,
    platform: String,
    os: String,
    locale: String,
    worldregion_bias: u32,
    ip: [u8; 4],
    account_name_length: u8,
    account_name: String,
}

impl View for CmdAuthLogonChallenge {
    type V = LogonChallengeView;

    closed spec fn view(&self) -> LogonChallengeView {
        LogonChallengeView {
            opcode: self.opcode,
            protocol_version: self.protocol_version,
            size: self.size,
            game_name: self.game_name@,
            version: self.version@,
            build: self.build,
            platform: self.platform@,
            os: self.os@,
            locale: self.locale@,
            worldregion_bias: self.worldregion_bias,
            ip: self.ip@,
            account_name_length: self.account_name_length,
            account_name: self.account_name@,
        }
    }
}

impl CmdAuthLogonChallenge {
    #[verifier::type_invariant]
    spec fn well_formed(self) -> bool {
        self@.wf()
    }

    /// Decodes the logon challenge at the front of `buf`.
    pub fn new(buf: &Vec<u8>) -> (res: Result<CmdAuthLogonChallenge, MalformedPacket>)
        ensures
            match res {
                Ok(packet) => decode(buf@) == Ok::<LogonChallengeView, MalformedPacket>(packet@)
                    && packet@.wf(),
                Err(reason) => decode(buf@) == Err::<LogonChallengeView, MalformedPacket>(reason),
            },
            buf@.len() < HEADER_LEN || buf@.len() < declared_len(buf@) ==> res is Err,
            res matches Ok(packet) ==> packet@.to_bytes() == buf@.subrange(
                0,
                declared_len(buf@),
            ),
    {
        proof {
            lemma_decode_then_encode(buf@);
        }
        if buf.len() < HEADER_LEN {
            return Err(MalformedPacket::ShortHeader);
        }
        let bytes = buf.as_slice();
        let game_name = match parse_text(slice_subrange(bytes, 4, 8)) {
            Some(text) => text,
            None => { return Err(MalformedPacket::InvalidText); },
        };
        let platform = match parse_text(slice_subrange(bytes, 13, 17)) {
            Some(text) => text,
            None => { return Err(MalformedPacket::InvalidText); },
        };
        let os = match parse_text(slice_subrange(bytes, 17, 21)) {
            Some(text) => text,
            None => { return Err(MalformedPacket::InvalidText); },
        };
        let locale = match parse_text(slice_subrange(bytes, 21, 25)) {
            Some(text) => text,
            None => { return Err(MalformedPacket::InvalidText); },
        };
        let account_name_length: u8 = buf[33];
        let end: usize = HEADER_LEN + account_name_length as usize;
        if buf.len() < end {
            return Err(MalformedPacket::ShortAccountName);
        }
        let account_name = match parse_text(slice_subrange(bytes, HEADER_LEN, end)) {
            Some(text) => text,
            None => { return Err(MalformedPacket::InvalidText); },
        };
        let version: [u8; 3] = [buf[8], buf[9], buf[10]];
        let ip: [u8; 4] = [buf[29], buf[30], buf[31], buf[32]];
        assert(version@ =~= buf@.subrange(8, 11));
        assert(ip@ =~= buf@.subrange(29, 33));
        Ok(
            CmdAuthLogonChallenge {
                opcode: buf[0],
                protocol_version: buf[1],
                size: u16_from_le(buf[2], buf[3]),
                game_name,
                version,
                build: u16_from_le(buf[11], buf[12]),
                platform,
                os,
                locale,
                worldregion_bias: u32_from_le(buf[25], buf[26], buf[27], buf[28]),
                ip,
                account_name_length,
                account_name,
            },
        )
    }

    /// Encodes the message as it stands on the wire: header, then account name.
    pub fn to_bytes(&self) -> (bytes: Vec<u8>)
        ensures
            bytes@ == self@.to_bytes(),
            bytes@.len() == HEADER_LEN + self@.account_name_length,
    {
        proof {
            use_type_invariant(self);
        }
        let mut out: Vec<u8> = Vec::new();
        out.push(self.opcode);
        out.push(self.protocol_version);
        append_bytes(&mut out, u16_to_le(self.size).as_slice());
        append_bytes(&mut out, self.game_name.as_str().as_bytes());
        append_bytes(&mut out, self.version.as_slice());
        append_bytes(&mut out, u16_to_le(self.build).as_slice());
        append_bytes(&mut out, self.platform.as_str().as_bytes());
        append_bytes(&mut out, self.os.as_str().as_bytes());
        append_bytes(&mut out, self.locale.as_str().as_bytes());
        append_bytes(&mut out, u32_to_le(self.worldregion_bias).as_slice());
        append_bytes(&mut out, self.ip.as_slice());
        out.push(self.account_name_length);
        assert(out@ =~= self@.header_bytes());
        append_bytes(&mut out, self.account_name.as_str().as_bytes());
        out
    }

    /// The opcode byte, as sent.
    pub fn opcode(&self) -> (value: u8)
        ensures
            value == self@.opcode,
    {
        self.opcode
    }

    /// The protocol version byte, as sent.
    pub fn protocol_version(&self) -> (value: u8)
        ensures
            value == self@.protocol_version,
    {
        self.protocol_version
    }

    /// The size that the message declares for itself.
    pub fn size(&self) -> (value: u16)
        ensures
            value == self@.size,
    {
        self.size
    }

    /// The game tag.
    pub fn game_name(&self) -> (text: &str)
        ensures
            text@ == self@.game_name,
    {
        self.game_name.as_str()
    }

    /// The client version triplet.
    pub fn version(&self) -> (triplet: [u8; 3])
        ensures
            triplet@ == self@.version,
    {
        self.version
    }

    /// The client build number.
    pub fn build(&self) -> (value: u16)
        ensures
            value == self@.build,
    {
        self.build
    }

    /// The platform tag.
    pub fn platform(&self) -> (text: &str)
        ensures
            text@ == self@.platform,
    {
        self.platform.as_str()
    }

    /// The operating system tag.
    pub fn os(&self) -> (text: &str)
        ensures
            text@ == self@.os,
    {
        self.os.as_str()
    }

    /// The locale tag.
    pub fn locale(&self) -> (text: &str)
        ensures
            text@ == self@.locale,
    {
        self.locale.as_str()
    }

    /// The region bias.
    pub fn worldregion_bias(&self) -> (value: u32)
        ensures
            value == self@.worldregion_bias,
    {
        self.worldregion_bias
    }

    /// The client address, octets in the order in which they were sent.
    pub fn ip(&self) -> (octets: [u8; 4])
        ensures
            octets@ == self@.ip,
    {
        self.ip
    }

    /// The length in bytes of the account name.
    pub fn account_name_length(&self) -> (value: u8)
        ensures
            value == self@.account_name_length,
            value == encode_utf8(self@.account_name).len(),
    {
        proof {
            use_type_invariant(self);
        }
        self.account_name_length
    }

    /// The account name.
    pub fn account_name(&self) -> (text: &str)
        ensures
            text@ == self@.account_name,
    {
        self.account_name.as_str()
    }
}

/// Appends `bytes` to `out`.
fn append_bytes(out: &mut Vec<u8>, bytes: &[u8])
    ensures
        final(out)@ == old(out)@ + bytes@,
{
    let ghost before = out@;
    let mut i: usize = 0;
    while i < bytes.len()
        invariant
            i <= bytes@.len(),
            out@ == before + bytes@.subrange(0, i as int),
        decreases bytes@.len() - i,
    {
        out.push(bytes[i]);
        i += 1;
        assert(out@ =~= before + bytes@.subrange(0, i as int));
    }
    assert(bytes@.subrange(0, i as int) =~= bytes@);
}

/// Decoding and then encoding gives back the bytes that were read: where
/// `bytes` decode, the fields are well formed and encode to the header and
/// account name at the front of `bytes`.
pub proof fn lemma_decode_then_encode(bytes: Seq<u8>)
    ensures
        decode(bytes) matches Ok(fields) ==> fields.wf() && fields.to_bytes() == bytes.subrange(
            0,
            declared_len(bytes),
        ),
{
    if let Ok(fields) = decode(bytes) {
        let name = account_name_bytes(bytes);
        vstd::utf8::decode_utf8_encode_utf8(bytes.subrange(4, 8));
        vstd::utf8::decode_utf8_encode_utf8(bytes.subrange(13, 17));
        vstd::utf8::decode_utf8_encode_utf8(bytes.subrange(17, 21));
        vstd::utf8::decode_utf8_encode_utf8(bytes.subrange(21, 25));
        vstd::utf8::decode_utf8_encode_utf8(name);
        crate::wire::lemma_le_u16_bytes(bytes[2], bytes[3]);
        crate::wire::lemma_le_u16_bytes(bytes[11], bytes[12]);
        crate::wire::lemma_le_u32_bytes(bytes[25], bytes[26], bytes[27], bytes[28]);
        assert(fields.header_bytes() =~= bytes.subrange(0, HEADER_LEN as int));
        assert(fields.to_bytes() =~= bytes.subrange(0, declared_len(bytes)));
    }
}

/// Encoding and then decoding gives back the fields: the bytes of well-formed
/// fields, with anything at all behind them, decode to those fields.
pub proof fn lemma_encode_then_decode(fields: LogonChallengeView, rest: Seq<u8>)
    requires
        fields.wf(),
    ensures
        decode(fields.to_bytes() + rest) == Ok::<LogonChallengeView, MalformedPacket>(fields),
{
    let bytes = fields.to_bytes() + rest;
    let header = fields.header_bytes();
    assert(header.len() == HEADER_LEN);
    assert(bytes.subrange(0, HEADER_LEN as int) =~= header);
    assert(bytes[33] == fields.account_name_length);
    assert(bytes.subrange(4, 8) =~= encode_utf8(fields.game_name));
    assert(bytes.subrange(8, 11) =~= fields.version);
    assert(bytes.subrange(13, 17) =~= encode_utf8(fields.platform));
    assert(bytes.subrange(17, 21) =~= encode_utf8(fields.os));
    assert(bytes.subrange(21, 25) =~= encode_utf8(fields.locale));
    assert(bytes.subrange(29, 33) =~= fields.ip);
    assert(account_name_bytes(bytes) =~= encode_utf8(fields.account_name));
    vstd::utf8::encode_utf8_valid_utf8(fields.game_name);
    vstd::utf8::encode_utf8_valid_utf8(fields.platform);
    vstd::utf8::encode_utf8_valid_utf8(fields.os);
    vstd::utf8::encode_utf8_valid_utf8(fields.locale);
    vstd::utf8::encode_utf8_valid_utf8(fields.account_name);
    vstd::utf8::encode_utf8_decode_utf8(fields.game_name);
    vstd::utf8::encode_utf8_decode_utf8(fields.platform);
    vstd::utf8::encode_utf8_decode_utf8(fields.os);
    vstd::utf8::encode_utf8_decode_utf8(fields.locale);
    vstd::utf8::encode_utf8_decode_utf8(fields.account_name);
    crate::wire::lemma_le_bytes_u16_value(fields.size);
    crate::wire::lemma_le_bytes_u16_value(fields.build);
    crate::wire::lemma_le_bytes_u32_value(fields.worldregion_bias);
    assert(bytes[2] == le_bytes_u16(fields.size)[0]);
    assert(bytes[3] == le_bytes_u16(fields.size)[1]);
    assert(bytes[11] == le_bytes_u16(fields.build)[0]);
    assert(bytes[12] == le_bytes_u16(fields.build)[1]);
    assert(bytes[25] == le_bytes_u32(fields.worldregion_bias)[0]);
    assert(bytes[26] == le_bytes_u32(fields.worldregion_bias)[1]);
    assert(bytes[27] == le_bytes_u32(fields.worldregion_bias)[2]);
    assert(bytes[28] == le_bytes_u32(fields.worldregion_bias)[3]);
    assert(fields_of(bytes) == fields);
}

/// A buffer that ends before its header or before the account name that the
/// header announces does not decode.
pub proof fn lemma_truncated_is_refused(bytes: Seq<u8>)
    requires
        bytes.len() < HEADER_LEN || bytes.len() < declared_len(bytes),
    ensures
        decode(bytes) is Err,
{
}

/// Decoding reads the message and nothing behind it: two buffers that agree
/// on the header and on the account name it announces decode alike.
pub proof fn lemma_decode_reads_prefix(first: Seq<u8>, second: Seq<u8>)
    requires
        first.len() >= HEADER_LEN,
        second.len() >= HEADER_LEN,
        first.subrange(0, HEADER_LEN as int) == second.subrange(0, HEADER_LEN as int),
        first.len() >= declared_len(first),
        second.len() >= declared_len(first),
        first.subrange(0, declared_len(first)) == second.subrange(0, declared_len(first)),
    ensures
        decode(first) == decode(second),
{
    let n = declared_len(first);
    let a = first.subrange(0, n);
    let b = second.subrange(0, n);
    assert forall|i: int| 0 <= i < n implies first[i] == second[i] by {
        assert(a[i] == first[i]);
        assert(b[i] == second[i]);
    }
    assert(first.subrange(4, 8) =~= second.subrange(4, 8));
    assert(first.subrange(8, 11) =~= second.subrange(8, 11));
    assert(first.subrange(13, 17) =~= second.subrange(13, 17));
    assert(first.subrange(17, 21) =~= second.subrange(17, 21));
    assert(first.subrange(21, 25) =~= second.subrange(21, 25));
    assert(first.subrange(29, 33) =~= second.subrange(29, 33));
    assert(account_name_bytes(first) =~= account_name_bytes(second));
}

/// Decoding is a function of the bytes alone: two challenges decoded from
/// the same bytes agree in every field.
pub proof fn lemma_same_bytes_same_fields(
    bytes: Seq<u8>,
    first: CmdAuthLogonChallenge,
    second: CmdAuthLogonChallenge,
)
    requires
        decode(bytes) == Ok::<LogonChallengeView, MalformedPacket>(first@),
        decode(bytes) == Ok::<LogonChallengeView, MalformedPacket>(second@),
    ensures
        first@ == second@,
        first@.opcode == second@.opcode,
        first@.protocol_version == second@.protocol_version,
        first@.size == second@.size,
        first@.game_name == second@.game_name,
        first@.version == second@.version,
        first@.build == second@.build,
        first@.platform == second@.platform,
        first@.os == second@.os,
        first@.locale == second@.locale,
        first@.worldregion_bias == second@.worldregion_bias,
        first@.ip == second@.ip,
        first@.account_name_length == second@.account_name_length,
        first@.account_name == second@.account_name,
{
}

/// A whole message whose text fields are ASCII decodes, and each text field
/// then holds one character for each of its bytes.
pub proof fn lemma_ascii_challenge_decodes(bytes: Seq<u8>)
    requires
        bytes.len() >= HEADER_LEN,
        bytes.len() >= declared_len(bytes),
        is_ascii_bytes(bytes.subrange(4, 8)),
        is_ascii_bytes(bytes.subrange(13, 17)),
        is_ascii_bytes(bytes.subrange(17, 21)),
        is_ascii_bytes(bytes.subrange(21, 25)),
        is_ascii_bytes(account_name_bytes(bytes)),
    ensures
        decode(bytes) == Ok::<LogonChallengeView, MalformedPacket>(fields_of(bytes)),
        fields_of(bytes).game_name == ascii_text(bytes.subrange(4, 8)),
        fields_of(bytes).platform == ascii_text(bytes.subrange(13, 17)),
        fields_of(bytes).os == ascii_text(bytes.subrange(17, 21)),
        fields_of(bytes).locale == ascii_text(bytes.subrange(21, 25)),
        fields_of(bytes).account_name == ascii_text(account_name_bytes(bytes)),
{
    lemma_ascii_is_text(bytes.subrange(4, 8));
    lemma_ascii_is_text(bytes.subrange(13, 17));
    lemma_ascii_is_text(bytes.subrange(17, 21));
    lemma_ascii_is_text(bytes.subrange(21, 25));
    lemma_ascii_is_text(account_name_bytes(bytes));
}

} // verus!
