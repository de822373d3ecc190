//! The completion status that responses carry: a kind, a message and, where
//! there is one, a call tree.
//!
//! On the wire a status is one byte for the kind, the message behind a
//! one-byte length, one byte that says whether a call tree follows, and the
//! call tree behind a one-byte length.

use crate::error::DecodeError;
use crate::wire::{
    is_short_text, lemma_concat_assoc, lemma_take_string, lemma_take_u8, put_string, put_u8,
    read_string, read_u8, short_text, string_bytes, take_string, take_u8,
};
use vstd::prelude::*;

verus! {

/// How a request ended.
#[derive(Debug, Clone, Copy, PartialEq, Eq, Structural)]
pub enum ResponseCompletionStatusEnum {
    Success,
    Warning,
    Error,
    FatalError,
}

/// The kind that a byte names, if it names one.
pub open spec fn kind_of(byte: u8) -> Option<ResponseCompletionStatusEnum> {
    if byte == 0 {
        Some(ResponseCompletionStatusEnum::Success)
    } else if byte == 1 {
        Some(ResponseCompletionStatusEnum::Warning)
    } else if byte == 2 {
        Some(ResponseCompletionStatusEnum::Error)
    } else if byte == 3 {
        Some(ResponseCompletionStatusEnum::FatalError)
    } else {
        None
    }
}

/// The byte that names a kind.
pub open spec fn kind_code(kind: ResponseCompletionStatusEnum) -> u8 {
    match kind {
        ResponseCompletionStatusEnum::Success => 0,
        ResponseCompletionStatusEnum::Warning => 1,
        ResponseCompletionStatusEnum::Error => 2,
        ResponseCompletionStatusEnum::FatalError => 3,
    }
}

impl ResponseCompletionStatusEnum {
    /// The kind that a byte names, if it names one.
    pub fn from_byte(byte: u8) -> (k: Option<ResponseCompletionStatusEnum>)
        ensures
            k == kind_of(byte),
    {
        match byte {
            0 => Some(ResponseCompletionStatusEnum::Success),
            1 => Some(ResponseCompletionStatusEnum::Warning),
            2 => Some(ResponseCompletionStatusEnum::Error),
            3 => Some(ResponseCompletionStatusEnum::FatalError),
            _ => None,
        }
    }

    /// The byte that names this kind.
    pub fn code(&self) -> (byte: u8)
        ensures
            byte == kind_code(*self),
            kind_of(byte) == Some(*self),
    {
        match self {
            ResponseCompletionStatusEnum::Success => 0,
            ResponseCompletionStatusEnum::Warning => 1,
            ResponseCompletionStatusEnum::Error => 2,
            ResponseCompletionStatusEnum::FatalError => 3,
        }
    }
}

/// What a status says.
pub struct StatusModel {
    pub response_type: ResponseCompletionStatusEnum,
    pub message: Seq<char>,
    pub call_tree: Option<Seq<char>>,
}

impl StatusModel {
    /// The message and the call tree fit behind their one-byte lengths.
    pub open spec fn encodable(self) -> bool {
        short_text(self.message) && (self.call_tree matches Some(t) ==> short_text(t))
    }

    /// The bytes of the status.
    pub open spec fn wire(self) -> Seq<u8> {
        seq![kind_code(self.response_type)] + string_bytes(self.message) + match self.call_tree {
            Some(t) => seq![1u8] + string_bytes(t),
            None => seq![0u8],
        }
    }
}

/// A call tree behind the byte that says whether there is one, and what
/// follows it.
pub open spec fn take_call_tree(s: Seq<u8>) -> Result<(Option<Seq<char>>, Seq<u8>), DecodeError> {
    match take_u8(s) {
        Err(e) => Err(e),
        Ok((flag, s1)) => if flag == 0 {
            Ok((None, s1))
        } else if flag == 1 {
            match take_string(s1) {
                Err(e) => Err(e),
                Ok((t, s2)) => Ok((Some(t), s2)),
            }
        } else {
            Err(DecodeError::InvalidKind)
        },
    }
}

/// A status, and what follows it.
pub open spec fn take_status(s: Seq<u8>) -> Result<(StatusModel, Seq<u8>), DecodeError> {
    match take_u8(s) {
        Err(e) => Err(e),
        Ok((code, s1)) => match kind_of(code) {
            None => Err(DecodeError::InvalidKind),
            Some(response_type) => match take_string(s1) {
                Err(e) => Err(e),
                Ok((message, s2)) => match take_call_tree(s2) {
                    Err(e) => Err(e),
                    Ok((call_tree, s3)) => Ok(
                        (StatusModel { response_type, message, call_tree }, s3),
                    ),
                },
            },
        },
    }
}

/// A status that was written is read back, whatever follows.
pub proof fn lemma_take_status(m: StatusModel, rest: Seq<u8>)
    requires
        m.encodable(),
    ensures
        take_status(m.wire() + rest) == Ok::<(StatusModel, Seq<u8>), DecodeError>((m, rest)),
{
    let code = kind_code(m.response_type);
    let tree = match m.call_tree {
        Some(t) => seq![1u8] + string_bytes(t),
        None => seq![0u8],
    };
    lemma_concat_assoc(seq![code] + string_bytes(m.message), tree, rest);
    lemma_concat_assoc(seq![code], string_bytes(m.message), tree + rest);
    lemma_take_u8(code, string_bytes(m.message) + (tree + rest));
    lemma_take_string(m.message, tree + rest);
    match m.call_tree {
        Some(t) => {
            lemma_concat_assoc(seq![1u8], string_bytes(t), rest);
            lemma_take_u8(1u8, string_bytes(t) + rest);
            lemma_take_string(t, rest);
        },
        None => {
            lemma_take_u8(0u8, rest);
        },
    }
}

/// The completion status of a request.
#[derive(Debug, Clone, PartialEq, Eq)]
pub struct ResponseCompletionStatus {
    /// How the request ended.
    pub response_type: ResponseCompletionStatusEnum,
    /// What there is to say about it.
    pub message: String,
    /// Where in the server it came about, if the server tells.
    pub call_tree: Option<String>,
}

impl View for ResponseCompletionStatus {
    type V = StatusModel;

    open spec fn view(&self) -> StatusModel {
        StatusModel {
            response_type: self.response_type,
            message: self.message@,
            call_tree: match self.call_tree {
                Some(t) => Some(t@),
                None => None,
            },
        }
    }
}

impl ResponseCompletionStatus {
    /// The status of a request that went well: the message `ok` and no call
    /// tree.
    pub fn ok() -> (s: ResponseCompletionStatus)
        ensures
            s.response_type == ResponseCompletionStatusEnum::Success,
            s.message@ == "ok"@,
            s.call_tree is None,
            s@.encodable(),
    {
        proof {
            reveal_strlit("ok");
            crate::wire::lemma_ascii_is_short("ok"@);
        }
        ResponseCompletionStatus {
            response_type: ResponseCompletionStatusEnum::Success,
            message: "ok".to_string(),
            call_tree: None,
        }
    }

    /// The status of a request that failed because the server has no number
    /// left for another channel.
    pub fn exhausted() -> (s: ResponseCompletionStatus)
        ensures
            s.response_type == ResponseCompletionStatusEnum::Error,
            s.message@ == "no channel number left"@,
            s.call_tree is None,
            s@.encodable(),
    {
        proof {
            reveal_strlit("no channel number left");
            crate::wire::lemma_ascii_is_short("no channel number left"@);
        }
        ResponseCompletionStatus {
            response_type: ResponseCompletionStatusEnum::Error,
            message: "no channel number left".to_string(),
            call_tree: None,
        }
    }

    /// The status of a request that failed, with the given message and no
    /// call tree.
    pub fn error(message: String) -> (s: ResponseCompletionStatus)
        ensures
            s.response_type == ResponseCompletionStatusEnum::Error,
            s.message == message,
            s.call_tree is None,
    {
        ResponseCompletionStatus {
            response_type: ResponseCompletionStatusEnum::Error,
            message,
            call_tree: None,
        }
    }

    /// Whether the message and the call tree fit behind their lengths.
    pub fn is_encodable(&self) -> (b: bool)
        ensures
            b == self@.encodable(),
    {
        if !is_short_text(self.message.as_str()) {
            return false;
        }
        match &self.call_tree {
            Some(t) => is_short_text(t.as_str()),
            None => true,
        }
    }

    /// Appends the bytes of the status.
    pub fn put(&self, out: &mut Vec<u8>)
        requires
            self@.encodable(),
        ensures
            final(out)@ == old(out)@ + self@.wire(),
    {
        let ghost before = out@;
        put_u8(out, self.response_type.code());
        put_string(out, self.message.as_str());
        match &self.call_tree {
            Some(t) => {
                put_u8(out, 1);
                put_string(out, t.as_str());
            },
            None => {
                put_u8(out, 0);
            },
        }
        assert(out@ =~= before + self@.wire());
    }

    /// Reads a status at `pos`.
    pub fn read(bytes: &[u8], pos: usize) -> (r: Result<
        (ResponseCompletionStatus, usize),
        DecodeError,
    >)
        requires
            pos <= bytes@.len(),
        ensures
            match r {
                Ok((v, next)) => pos <= next <= bytes@.len() && take_status(
                    bytes@.skip(pos as int),
                ) == Ok::<(StatusModel, Seq<u8>), DecodeError>((v@, bytes@.skip(next as int))),
                Err(e) => take_status(bytes@.skip(pos as int)) == Err::<
                    (StatusModel, Seq<u8>),
                    DecodeError,
                >(e),
            },
    {
        let (code, p1) = match read_u8(bytes, pos) {
            Ok(x) => x,
            Err(e) => return Err(e),
        };
        let response_type = match ResponseCompletionStatusEnum::from_byte(code) {
            Some(k) => k,
            None => return Err(DecodeError::InvalidKind),
        };
        let (message, p2) = match read_string(bytes, p1) {
            Ok(x) => x,
            Err(e) => return Err(e),
        };
        let (flag, p3) = match read_u8(bytes, p2) {
            Ok(x) => x,
            Err(e) => return Err(e),
        };
        if flag == 0 {
            Ok((ResponseCompletionStatus { response_type, message, call_tree: None }, p3))
        } else if flag == 1 {
            match read_string(bytes, p3) {
                Ok((t, p4)) => Ok(
                    (ResponseCompletionStatus { response_type, message, call_tree: Some(t) }, p4),
                ),
                Err(e) => Err(e),
            }
        } else {
            Err(DecodeError::InvalidKind)
        }
    }
}

/// A status that has an encoding takes at most 514 bytes.
pub proof fn lemma_status_length(m: StatusModel)
    requires
        m.encodable(),
    ensures
        m.wire().len() <= 514,
{
}

} // verus!
