//! Frame codec for the wire protocol.
//!
//! A frame is `[total_length: 2 bytes, big-endian][message_type: 1 byte]
//! [payload: total_length - 1 bytes]`. The declared `total_length` covers the
//! type byte plus the payload and excludes the two length bytes themselves, so
//! a frame without payload declares length 1.

use vstd::prelude::*;

verus! {

/// Wire codes of the message types: 1 is `ChatMessage`, 2 is `Join`, 3 is
/// `Leave`, 4 is `UserRename`, 5 is `Error`; every other byte is carried
/// through unchanged as `Unknown`.
#[derive(Clone, Copy, Debug, PartialEq, Eq, Structural)]
pub enum MessageTypes {
    ChatMessage,
    Join,
    Leave,
    UserRename,
    Error,
    Unknown(u8),
}

/// The wire code of a message type.
pub open spec fn type_code(t: MessageTypes) -> u8 {
    match t {
        MessageTypes::ChatMessage => 1,
        MessageTypes::Join => 2,
        MessageTypes::Leave => 3,
        MessageTypes::UserRename => 4,
        MessageTypes::Error => 5,
        MessageTypes::Unknown(v) => v,
    }
}

/// The message type a wire code decodes to.
pub open spec fn type_of_code(c: u8) -> MessageTypes {
    if c == 1 {
        MessageTypes::ChatMessage
    } else if c == 2 {
        MessageTypes::Join
    } else if c == 3 {
        MessageTypes::Leave
    } else if c == 4 {
        MessageTypes::UserRename
    } else if c == 5 {
        MessageTypes::Error
    } else {
        MessageTypes::Unknown(c)
    }
}

/// A type is canonical when re-reading its own wire code gives it back, that
/// is, `Unknown` never shadows one of the named types.
pub open spec fn type_canonical(t: MessageTypes) -> bool {
    type_of_code(type_code(t)) == t
}

impl From<u8> for MessageTypes {
    fn from(value: u8) -> (r: Self) {
        match value {
            1 => MessageTypes::ChatMessage,
            2 => MessageTypes::Join,
            3 => MessageTypes::Leave,
            4 => MessageTypes::UserRename,
            5 => MessageTypes::Error,
            other => MessageTypes::Unknown(other),
        }
    }
}

impl vstd::std_specs::convert::FromSpecImpl<u8> for MessageTypes {
    open spec fn obeys_from_spec() -> bool {
        true
    }

    open spec fn from_spec(v: u8) -> Self {
        type_of_code(v)
    }
}

impl MessageTypes {
    /// The wire code of this type, as `type_code` gives it.
    pub fn to_byte(self) -> (r: u8)
        ensures
            r == type_code(self),
    {
        match self {
            MessageTypes::ChatMessage => 1,
            MessageTypes::Join => 2,
            MessageTypes::Leave => 3,
            MessageTypes::UserRename => 4,
            MessageTypes::Error => 5,
            MessageTypes::Unknown(v) => v,
        }
    }
}

/// The mathematical value of a frame: its type and its payload, if any.
#[verifier::ext_equal]
pub ghost struct MessageView {
    pub msg_type: MessageTypes,
    pub content: Option<Seq<u8>>,
}

/// The payload bytes of a message value; empty when the payload is absent.
pub open spec fn content_bytes(c: Option<Seq<u8>>) -> Seq<u8> {
    match c {
        Some(b) => b,
        None => Seq::empty(),
    }
}

/// The declared length of the encoded frame: the type byte plus the payload.
pub open spec fn total_len(v: MessageView) -> int {
    1 + content_bytes(v.content).len() as int
}

/// A message value that the wire format can carry: the type is canonical and
/// the payload, if present, holds between 1 and 65534 bytes, so that the
/// declared length fits the two-byte field. An absent payload and an empty
/// one encode alike, so a well-formed value never holds an empty payload.
pub open spec fn view_wf(v: MessageView) -> bool {
    &&& type_canonical(v.msg_type)
    &&& match v.content {
        Some(b) => 1 <= b.len() <= 65534,
        None => true,
    }
}

/// The encoded frame of a message value.
pub open spec fn spec_encode(v: MessageView) -> Seq<u8> {
    seq![
        (total_len(v) / 256) as u8,
        (total_len(v) % 256) as u8,
        type_code(v.msg_type),
    ] + content_bytes(v.content)
}

/// The length a frame starting with `b` declares, read big-endian from the
/// first two bytes.
pub open spec fn spec_declared_len(b: Seq<u8>) -> int {
    b[0] * 256 + b[1]
}

/// The byte length of the whole frame starting with `b`: the two length bytes
/// plus the declared length.
pub open spec fn spec_frame_len(b: Seq<u8>) -> int {
    2 + spec_declared_len(b)
}

/// What the bytes `b` decode to. `Truncated` while fewer bytes are at hand
/// than the frame declares; `InvalidFormat` when the declared length is zero,
/// which no encoder produces.
pub open spec fn spec_decode(b: Seq<u8>) -> Result<MessageView, ChatMessageError> {
    if b.len() < 2 {
        Err(ChatMessageError::Truncated)
    } else if spec_declared_len(b) == 0 {
        Err(ChatMessageError::InvalidFormat)
    } else if b.len() < spec_frame_len(b) {
        Err(ChatMessageError::Truncated)
    } else {
        Ok(
            MessageView {
                msg_type: type_of_code(b[2]),
                content: if spec_declared_len(b) == 1 {
                    None
                } else {
                    Some(b.subrange(3, spec_frame_len(b)))
                },
            },
        )
    }
}

/// One message of the wire protocol.
#[derive(Debug, Clone)]
pub struct ChatMessage {
    msg_len: u16,
    msg_type: MessageTypes,
    content: Option<Vec<u8>>,
}

/// What can go wrong building or decoding a frame: `InvalidLength` when a
/// payload is too long for the two-byte length field, `InvalidFormat` when a
/// frame declares length zero, `Truncated` while a frame's declared length
/// exceeds the bytes at hand.
#[derive(Debug, Clone, Copy, PartialEq, Eq, Structural)]
pub enum ChatMessageError {
    InvalidFormat,
    InvalidLength,
    Truncated,
}

impl View for ChatMessage {
    type V = MessageView;

    closed spec fn view(&self) -> MessageView {
        MessageView {
            msg_type: self.msg_type,
            content: match self.content {
                Some(c) => Some(c@),
                None => None,
            },
        }
    }
}

impl ChatMessage {
    /// The stored length is the declared length of this message's encoding.
    pub closed spec fn len_ok(self) -> bool {
        self.msg_len == total_len(self@)
    }

    /// The message is well-formed: its value is one the wire format carries
    /// and its stored length is the declared length of its encoding.
    pub open spec fn wf(self) -> bool {
        &&& view_wf(self@)
        &&& self.len_ok()
    }

    /// Builds a message from a type and an optional payload. The type is
    /// canonicalized (an `Unknown` carrying a named code becomes that type)
    /// and an empty payload becomes an absent one, so the result always
    /// re-decodes to itself. Fails with `InvalidLength` when the payload is
    /// longer than 65534 bytes.
    pub fn try_new(msg_type: MessageTypes, content: Option<Vec<u8>>) -> (r: Result<
        Self,
        ChatMessageError,
    >)
        ensures
            r is Ok <==> (content matches Some(v) ==> v@.len() <= 65534),
            r matches Ok(m) ==> {
                &&& m.wf()
                &&& m@.msg_type == type_of_code(type_code(msg_type))
                &&& m@.content == (match content {
                    Some(v) => if v@.len() == 0 {
                        None::<Seq<u8>>
                    } else {
                        Some(v@)
                    },
                    None => None::<Seq<u8>>,
                })
            },
            r matches Err(e) ==> e == ChatMessageError::InvalidLength,
    {
        let canonical = MessageTypes::from(msg_type.to_byte());
        match content {
            Some(data) => {
                if data.len() > 65534 {
                    Err(ChatMessageError::InvalidLength)
                } else if data.len() == 0 {
                    Ok(ChatMessage { msg_len: 1, msg_type: canonical, content: None })
                } else {
                    let msg_len: u16 = 1 + (data.len() as u16);
                    Ok(ChatMessage { msg_len, msg_type: canonical, content: Some(data) })
                }
            },
            None => Ok(ChatMessage { msg_len: 1, msg_type: canonical, content: None }),
        }
    }

    /// The message's type.
    pub fn get_type(&self) -> (t: MessageTypes)
        ensures
            t == self@.msg_type,
    {
        self.msg_type
    }

    /// The message's payload, if any.
    pub fn get_content(&self) -> (c: &Option<Vec<u8>>)
        ensures
            c matches Some(v) ==> self@.content == Some(v@),
            c is None ==> self@.content is None,
    {
        &self.content
    }

    /// The message's payload, if any, taking the message apart.
    pub fn into_content(self) -> (c: Option<Vec<u8>>)
        ensures
            c matches Some(v) ==> self@.content == Some(v@),
            c is None ==> self@.content is None,
    {
        self.content
    }

    /// The declared length of this message's encoding.
    pub fn total_length(&self) -> (l: u16)
        requires
            self.wf(),
        ensures
            l == total_len(self@),
    {
        self.msg_len
    }

    /// Encodes the message as one frame.
    pub fn encode(&self) -> (r: Vec<u8>)
        requires
            self.wf(),
        ensures
            r@ == spec_encode(self@),
    {
        let mut buf: Vec<u8> = Vec::new();
        buf.push((self.msg_len / 256) as u8);
        buf.push((self.msg_len % 256) as u8);
        buf.push(self.msg_type.to_byte());
        match &self.content {
            Some(data) => {
                let mut i: usize = 0;
                while i < data.len()
                    invariant
                        i <= data@.len(),
                        buf@ == seq![
                            (self.msg_len / 256) as u8,
                            (self.msg_len % 256) as u8,
                            type_code(self@.msg_type),
                        ] + data@.subrange(0, i as int),
                    decreases data@.len() - i,
                {
                    buf.push(data[i]);
                    assert(buf@.drop_last() + seq![data@[i as int]] == buf@);
                    i += 1;
                }
                assert(data@.subrange(0, data@.len() as int) == data@);
            },
            None => {},
        }
        assert(buf@ =~= spec_encode(self@));
        buf
    }

    /// Decodes the first frame of `buffer`. On success returns the message
    /// and how many bytes of `buffer` the frame occupied; the caller drains
    /// that many. On failure the buffer is untouched: a `Truncated` result
    /// asks the caller to keep the bytes and read more.
    pub fn decode(buffer: &Vec<u8>) -> (r: Result<(ChatMessage, usize), ChatMessageError>)
        ensures
            r matches Ok((m, consumed)) ==> {
                &&& spec_decode(buffer@) matches Ok(v) && m@ == v
                &&& m.wf()
                &&& consumed == spec_frame_len(buffer@)
                &&& consumed <= buffer@.len()
            },
            r matches Err(e) ==> spec_decode(buffer@) matches Err(e2) && e == e2,
            r is Ok <==> spec_decode(buffer@) is Ok,
    {
        if buffer.len() < 2 {
            return Err(ChatMessageError::Truncated);
        }
        let total: usize = (buffer[0] as usize) * 256 + (buffer[1] as usize);
        if total == 0 {
            return Err(ChatMessageError::InvalidFormat);
        }
        if buffer.len() < 2 + total {
            return Err(ChatMessageError::Truncated);
        }
        let msg_type = MessageTypes::from(buffer[2]);
        let content = if total == 1 {
            None
        } else {
            let mut data: Vec<u8> = Vec::new();
            let mut i: usize = 3;
            while i < 2 + total
                invariant
                    3 <= i <= 2 + total,
                    2 + total <= buffer@.len(),
                    total == spec_declared_len(buffer@),
                    data@ == buffer@.subrange(3, i as int),
                decreases 2 + total - i,
            {
                data.push(buffer[i]);
                assert(data@ =~= buffer@.subrange(3, i + 1));
                i += 1;
            }
            Some(data)
        };
        let m = ChatMessage { msg_len: total as u16, msg_type, content };
        assert(m@ =~= spec_decode(buffer@)->Ok_0);
        Ok((m, 2 + total))
    }
}

/// Round trip of the codec: every well-formed message value decodes from its
/// own encoding, an `Unknown` type keeping its code and a payload its bytes.
pub proof fn lemma_encode_decode_roundtrip(v: MessageView)
    requires
        view_wf(v),
    ensures
        spec_decode(spec_encode(v)) == Ok::<MessageView, ChatMessageError>(v),
{
    let b = spec_encode(v);
    let total = total_len(v);
    assert(1 <= total <= 65535);
    assert(b[0] == (total / 256) as u8 && b[1] == (total % 256) as u8);
    assert(0 <= total / 256 <= 255 && 0 <= total % 256 <= 255) by (nonlinear_arith)
        requires 1 <= total <= 65535;
    assert(spec_declared_len(b) == (total / 256) * 256 + total % 256);
    assert((total / 256) * 256 + total % 256 == total) by (nonlinear_arith)
        requires 0 <= total;
    assert(b.len() == 2 + total);
    assert(type_of_code(b[2]) == v.msg_type);
    match v.content {
        Some(c) => {
            assert(b.subrange(3, spec_frame_len(b)) =~= c);
            assert(spec_decode(b)->Ok_0 =~= v);
        },
        None => {
            assert(spec_decode(b)->Ok_0 =~= v);
        },
    }
}

/// A complete frame decodes the same however many bytes follow it in the
/// buffer: together with `decode`'s promise that a short buffer yields
/// `Truncated` and is left untouched, re-attempting a decode after more bytes
/// arrive parses the very frame whose prefix was already buffered.
pub proof fn lemma_decode_ignores_trailing(b: Seq<u8>, ext: Seq<u8>)
    requires
        b.len() >= 2,
        spec_declared_len(b) >= 1,
        b.len() >= spec_frame_len(b),
    ensures
        spec_decode(b + ext) == spec_decode(b),
{
    let c = b + ext;
    assert(c[0] == b[0] && c[1] == b[1] && c.len() >= 2);
    assert(spec_declared_len(c) == spec_declared_len(b));
    if spec_declared_len(b) >= 2 {
        assert(c[2] == b[2]);
        assert(c.subrange(3, spec_frame_len(c)) =~= b.subrange(3, spec_frame_len(b)));
        assert(spec_decode(c)->Ok_0 =~= spec_decode(b)->Ok_0);
    } else {
        assert(c[2] == b[2]);
        assert(spec_decode(c)->Ok_0 =~= spec_decode(b)->Ok_0);
    }
}

} // verus!
