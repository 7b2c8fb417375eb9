//! The client's side of the protocol: encoding what the user types into
//! requests, and decoding what the server sends back.
//!
//! The surrounding program owns the socket and the terminal: it hands raw
//! received buffers in and writes encoded requests out.

use vstd::prelude::*;

use crate::protocol::bytes_eq;
use crate::protocol::cmd_logout;
use crate::protocol::cmd_logout_bytes;
use crate::protocol::cmd_whisper;
use crate::protocol::cmd_whisper_bytes;
use crate::protocol::copy_range;
use crate::protocol::is_ws;
use crate::protocol::lemma_frame_round_trip;
use crate::protocol::op_accepted;
use crate::protocol::op_command;
use crate::protocol::op_denied;
use crate::protocol::op_message;
use crate::protocol::op_private;
use crate::protocol::op_user_joined;
use crate::protocol::opcode_is;
use crate::protocol::op_user_left;
use crate::protocol::parse_request;
use crate::protocol::req_framed;
use crate::protocol::spec_encode_join;
use crate::protocol::spec_opcode;
use crate::protocol::spec_payload;
use crate::protocol::spec_sender;
use crate::protocol::spec_token_end;
use crate::protocol::spec_trim_zeros;
use crate::protocol::tagged_message;
use crate::protocol::token_end;
use crate::protocol::trim_zeros;
use crate::protocol::SPACE;

verus! {

/// Why a typed message could not be encoded.
#[derive(Clone, Copy, Debug, PartialEq, Eq, Structural)]
pub enum ClientError {
    /// The message invokes a command this client does not know; it is never
    /// sent to the server.
    UnknownCommand,
}

/// How the server answered a join request.
#[derive(Clone, Copy, Debug, PartialEq, Eq, Structural)]
pub enum JoinReply {
    /// The trimmed reply is exactly `CAC`: the session is established.
    Accepted,
    /// The trimmed reply is exactly `CDE`: the name was refused.
    Denied,
    /// Anything else.
    Unknown,
}

/// One decoded server message, as the interactive client reacts to it.
pub enum ResponseEvent {
    /// `CDE`: the server ended the session.
    Disconnected,
    /// `MSG <sender> <text>`: a broadcast chat message.
    Public {
        /// Who sent the message.
        sender: Vec<u8>,
        /// The chat text.
        message: Vec<u8>,
    },
    /// `PRM <sender> <text>`: a private message.
    Private {
        /// Who whispered.
        sender: Vec<u8>,
        /// The whispered text.
        message: Vec<u8>,
    },
    /// `UJS <name>`: a user joined.
    Joined {
        /// The joined user's name.
        name: Vec<u8>,
    },
    /// `ULS <name>`: a user left.
    Left {
        /// The departed user's name.
        name: Vec<u8>,
    },
    /// Anything else; the client shows nothing.
    Ignored,
}

/// The trimmed message announces a forced disconnect: it opens with `CDE`.
pub open spec fn resp_disconnect(t: Seq<u8>) -> bool {
    t.len() >= 3 && t.take(3) == op_denied()
}

/// The trimmed message is a framed broadcast relay: `MSG <sender> <text>`.
pub open spec fn resp_public(t: Seq<u8>) -> bool {
    req_framed(t) && spec_opcode(t) == op_message()
}

/// The trimmed message is a framed private relay: `PRM <sender> <text>`.
pub open spec fn resp_private(t: Seq<u8>) -> bool {
    req_framed(t) && spec_opcode(t) == op_private()
}

/// The trimmed message announces a join: `UJS <name>` with a non-empty name.
pub open spec fn resp_joined(t: Seq<u8>) -> bool {
    t.len() >= 5 && t.take(3) == op_user_joined() && t[3] == SPACE
}

/// The trimmed message announces a departure: `ULS <name>` with a non-empty
/// name.
pub open spec fn resp_left(t: Seq<u8>) -> bool {
    t.len() >= 5 && t.take(3) == op_user_left() && t[3] == SPACE
}

/// The request a typed message becomes: `MSG <name> <text>` for plain chat,
/// `CMD <name> <text>` when the text invokes a known command, nothing when
/// it invokes an unknown one.
pub open spec fn spec_parse_message(name: Seq<u8>, m: Seq<u8>) -> Option<Seq<u8>> {
    if m.len() > 0 && m[0] == 47 {
        if spec_cmd_token_at_start(m) == cmd_whisper() || spec_cmd_token_at_start(m)
            == cmd_logout() {
            Some(op_command() + seq![SPACE] + name + seq![SPACE] + m)
        } else {
            None
        }
    } else {
        Some(op_message() + seq![SPACE] + name + seq![SPACE] + m)
    }
}

/// The leading whitespace-free token of `m`.
pub open spec fn spec_cmd_token_at_start(m: Seq<u8>) -> Seq<u8> {
    m.take(spec_token_end(m, 0))
}

/// Builds the join request `CON <name>` that opens the handshake.
pub fn encode_join(name: &Vec<u8>) -> (r: Vec<u8>)
    ensures
        r@ == spec_encode_join(name@),
{
    let v = tagged_message(67, 79, 78, name);
    proof {
        assert(v@ =~= spec_encode_join(name@));
    }
    v
}

/// Encodes one typed message as the request to send, or refuses it: a
/// message opening with `/` must invoke a known command (`/w` or `/exit`),
/// and anything else becomes a broadcast chat request. The encoding is
/// [`spec_parse_message`] of the client's name and the message.
pub fn parse_message(name: &Vec<u8>, message: &Vec<u8>) -> (r: Result<Vec<u8>, ClientError>)
    ensures
        match r {
            Ok(v) => spec_parse_message(name@, message@) == Some(v@),
            Err(e) => e == ClientError::UnknownCommand && spec_parse_message(name@, message@)
                is None,
        },
{
    if message.len() > 0 && message[0] == 47 {
        let cmd_end = token_end(message, 0);
        let cmd = copy_range(message, 0, cmd_end);
        if bytes_eq(&cmd, &cmd_whisper_bytes()) || bytes_eq(&cmd, &cmd_logout_bytes()) {
            let r = encode_with(67, 77, 68, name, message);
            proof {
                assert(r@ =~= op_command() + seq![SPACE] + name@ + seq![SPACE] + message@);
            }
            Ok(r)
        } else {
            Err(ClientError::UnknownCommand)
        }
    } else {
        let r = encode_with(77, 83, 71, name, message);
        proof {
            assert(r@ =~= op_message() + seq![SPACE] + name@ + seq![SPACE] + message@);
        }
        Ok(r)
    }
}

/// Builds `<opcode> <name> <m>` from the three opcode bytes.
fn encode_with(a: u8, b: u8, c: u8, name: &Vec<u8>, m: &Vec<u8>) -> (r: Vec<u8>)
    ensures
        r@ == seq![a, b, c] + seq![SPACE] + name@ + seq![SPACE] + m@,
{
    let mut v = tagged_message(a, b, c, name);
    v.push(SPACE);
    let mut i: usize = 0;
    while i < m.len()
        invariant
            i <= m@.len(),
            v@ == seq![a, b, c] + seq![SPACE] + name@ + seq![SPACE] + m@.subrange(0, i as int),
        decreases m@.len() - i,
    {
        v.push(m[i]);
        proof {
            assert(seq![a, b, c] + seq![SPACE] + name@ + seq![SPACE] + m@.subrange(
                0,
                i as int + 1,
            ) =~= (seq![a, b, c] + seq![SPACE] + name@ + seq![SPACE] + m@.subrange(
                0,
                i as int,
            )).push(m@[i as int]));
        }
        i = i + 1;
    }
    proof {
        assert(v@ =~= seq![a, b, c] + seq![SPACE] + name@ + seq![SPACE] + m@);
    }
    v
}

/// Law: an encoded chat message decodes on the server to the same sender
/// and the same text. For every whitespace-free non-empty name, whatever
/// request [`spec_parse_message`] produces is framed, bears that name as its
/// sender and the typed message as its payload, and carries the chat opcode
/// for plain text and the command opcode for a known command.
pub proof fn lemma_message_round_trip(name: Seq<u8>, m: Seq<u8>)
    requires
        name.len() > 0,
        forall|k: int| 0 <= k < name.len() ==> !is_ws(name[k]),
    ensures
        spec_parse_message(name, m) matches Some(t) ==> {
            &&& req_framed(t)
            &&& spec_sender(t) == name
            &&& spec_payload(t) == m
            &&& (m.len() > 0 && m[0] == 47 ==> spec_opcode(t) == op_command())
            &&& (!(m.len() > 0 && m[0] == 47) ==> spec_opcode(t) == op_message())
        },
{
    if m.len() > 0 && m[0] == 47 {
        lemma_frame_round_trip(op_command(), name, m);
    } else {
        lemma_frame_round_trip(op_message(), name, m);
    }
}

/// Classifies the server's answer to a join request: exactly `CAC` after
/// trimming is acceptance, exactly `CDE` is denial, anything else is
/// unknown.
pub fn classify_join_reply(raw: &Vec<u8>) -> (r: JoinReply)
    ensures
        ({
            let t = spec_trim_zeros(raw@);
            &&& (r == JoinReply::Accepted <==> t == op_accepted())
            &&& (r == JoinReply::Denied <==> t == op_denied())
        }),
{
    let t = trim_zeros(raw);
    if t.len() != 3 {
        return JoinReply::Unknown;
    }
    if t[0] == 67 && t[1] == 65 && t[2] == 67 {
        proof {
            assert(t@ =~= op_accepted());
        }
        JoinReply::Accepted
    } else if t[0] == 67 && t[1] == 68 && t[2] == 69 {
        proof {
            assert(t@ =~= op_denied());
        }
        JoinReply::Denied
    } else {
        JoinReply::Unknown
    }
}

/// Decodes one server message into the event the client reacts to. The
/// buffer is trimmed of its zero padding; the event is determined by which
/// of the response shapes ([`resp_disconnect`], [`resp_public`],
/// [`resp_private`], [`resp_joined`], [`resp_left`]) the trimmed bytes
/// match, and carries the decoded sender, text or name.
pub fn parse_response(raw: &Vec<u8>) -> (r: ResponseEvent)
    ensures
        ({
            let t = spec_trim_zeros(raw@);
            match r {
                ResponseEvent::Disconnected => resp_disconnect(t),
                ResponseEvent::Public { sender, message } => resp_public(t) && sender@
                    == spec_sender(t) && message@ == spec_payload(t),
                ResponseEvent::Private { sender, message } => resp_private(t) && sender@
                    == spec_sender(t) && message@ == spec_payload(t),
                ResponseEvent::Joined { name } => resp_joined(t) && name@ == t.skip(4),
                ResponseEvent::Left { name } => resp_left(t) && name@ == t.skip(4),
                ResponseEvent::Ignored => {
                    &&& !resp_disconnect(t)
                    &&& !resp_public(t)
                    &&& !resp_private(t)
                    &&& !resp_joined(t)
                    &&& !resp_left(t)
                },
            }
        }),
{
    let t = trim_zeros(raw);
    if t.len() < 3 {
        return ResponseEvent::Ignored;
    }
    let opcode = copy_range(&t, 0, 3);
    proof {
        assert(opcode@ =~= spec_trim_zeros(raw@).take(3));
    }
    if opcode_is(&opcode, 67, 68, 69) {
        ResponseEvent::Disconnected
    } else if opcode_is(&opcode, 77, 83, 71) {
        match parse_request(&t) {
            Some(req) => ResponseEvent::Public { sender: req.sender, message: req.payload },
            None => ResponseEvent::Ignored,
        }
    } else if opcode_is(&opcode, 80, 82, 77) {
        match parse_request(&t) {
            Some(req) => ResponseEvent::Private { sender: req.sender, message: req.payload },
            None => ResponseEvent::Ignored,
        }
    } else if opcode_is(&opcode, 85, 74, 83) {
        if t.len() >= 5 && t[3] == SPACE {
            let name = copy_range(&t, 4, t.len());
            proof {
                assert(name@ =~= spec_trim_zeros(raw@).skip(4));
            }
            ResponseEvent::Joined { name }
        } else {
            ResponseEvent::Ignored
        }
    } else if opcode_is(&opcode, 85, 76, 83) {
        if t.len() >= 5 && t[3] == SPACE {
            let name = copy_range(&t, 4, t.len());
            proof {
                assert(name@ =~= spec_trim_zeros(raw@).skip(4));
            }
            ResponseEvent::Left { name }
        } else {
            ResponseEvent::Ignored
        }
    } else {
        ResponseEvent::Ignored
    }
}

} // verus!
