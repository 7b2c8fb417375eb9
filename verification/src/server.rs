//! The server's decision logic: the join handshake and the request
//! dispatcher.
//!
//! Both take the raw bytes of one received buffer and the registry, mutate
//! the registry as the protocol demands, and return the outbound writes as
//! [`Delivery`] values together with an outcome the caller can log. The
//! caller owns the sockets: it performs the writes and serializes all access
//! to the registry.

use vstd::prelude::*;

use crate::client_list::broadcast_model;
use crate::client_list::ClientList;
use crate::client_list::conn_of;
use crate::client_list::contains_name;
use crate::client_list::deliveries_model;
use crate::client_list::Delivery;
use crate::client_list::remove_name;
use crate::protocol::bytes_eq;
use crate::protocol::cmd_logout;
use crate::protocol::cmd_logout_bytes;
use crate::protocol::cmd_whisper;
use crate::protocol::cmd_whisper_bytes;
use crate::protocol::copy_range;
use crate::protocol::is_ws;
use crate::protocol::lemma_skip_ws_is;
use crate::protocol::lemma_token_end_is;
use crate::protocol::lemma_trim_zeros_clean;
use crate::protocol::lemma_whisper_round_trip;
use crate::protocol::op_accepted;
use crate::protocol::op_command;
use crate::protocol::op_denied;
use crate::protocol::op_message;
use crate::protocol::op_user_joined;
use crate::protocol::op_user_left;
use crate::protocol::opcode_is;
use crate::protocol::parse_request;
use crate::protocol::prm_message;
use crate::protocol::req_framed;
use crate::protocol::skip_ws;
use crate::protocol::SPACE;
use crate::protocol::spec_arg_end;
use crate::protocol::spec_arg_start;
use crate::protocol::spec_arg_token;
use crate::protocol::spec_cmd_start;
use crate::protocol::spec_cmd_token;
use crate::protocol::spec_join_name;
use crate::protocol::spec_opcode;
use crate::protocol::spec_payload;
use crate::protocol::spec_prm;
use crate::protocol::spec_rest_after_arg;
use crate::protocol::spec_sender;
use crate::protocol::spec_tagged;
use crate::protocol::spec_trim_zeros;
use crate::protocol::tagged_message;
use crate::protocol::token_end;
use crate::protocol::trim_zeros;
use crate::protocol::triple;

verus! {

/// How the dispatcher disposed of one request.
#[derive(Clone, Copy, Debug, PartialEq, Eq, Structural)]
pub enum DispatchOutcome {
    /// A chat message was relayed to every session.
    Broadcast,
    /// A whisper was delivered to its target.
    Whispered,
    /// A whisper named a target no session bears; nothing was delivered.
    WhisperTargetMissing,
    /// A logout ran: notice to the leaver, announcement to all, removal.
    LoggedOut,
    /// A logout came from a name no session bears; nothing changed.
    LogoutSenderMissing,
    /// The command token is not one the protocol knows; nothing changed.
    InvalidCommand,
    /// The opcode is not one the dispatcher handles; nothing changed.
    InvalidIdentifier,
    /// The request is not framed as the protocol demands; nothing changed.
    MalformedRequest,
}

/// What the dispatcher does with one raw request against registry state `s`:
/// the deliveries to perform in order, the outcome to log, and the registry
/// state afterwards.
pub open spec fn spec_dispatch(s: Seq<(Seq<u8>, u64)>, raw: Seq<u8>) -> (
    Seq<(u64, Seq<u8>)>,
    DispatchOutcome,
    Seq<(Seq<u8>, u64)>,
) {
    let t = spec_trim_zeros(raw);
    if !req_framed(t) {
        (Seq::empty(), DispatchOutcome::MalformedRequest, s)
    } else if spec_opcode(t) == op_message() {
        (broadcast_model(s, t), DispatchOutcome::Broadcast, s)
    } else if spec_opcode(t) == op_command() {
        spec_dispatch_command(s, spec_sender(t), spec_payload(t))
    } else {
        (Seq::empty(), DispatchOutcome::InvalidIdentifier, s)
    }
}

/// The command half of [`spec_dispatch`]: what a `CMD` request from `sender`
/// with payload `c` does.
pub open spec fn spec_dispatch_command(s: Seq<(Seq<u8>, u64)>, sender: Seq<u8>, c: Seq<u8>) -> (
    Seq<(u64, Seq<u8>)>,
    DispatchOutcome,
    Seq<(Seq<u8>, u64)>,
) {
    if spec_cmd_start(c) == c.len() {
        (Seq::empty(), DispatchOutcome::MalformedRequest, s)
    } else if spec_cmd_token(c) == cmd_whisper() {
        if spec_arg_start(c) == c.len() {
            (Seq::empty(), DispatchOutcome::MalformedRequest, s)
        } else {
            let target = spec_arg_token(c);
            let text = spec_rest_after_arg(c);
            if contains_name(s, target) {
                (
                    seq![(conn_of(s, target), spec_prm(sender, text))],
                    DispatchOutcome::Whispered,
                    s,
                )
            } else {
                (Seq::empty(), DispatchOutcome::WhisperTargetMissing, s)
            }
        }
    } else if spec_cmd_token(c) == cmd_logout() {
        if contains_name(s, sender) {
            (
                seq![(conn_of(s, sender), op_denied())] + broadcast_model(
                    s,
                    spec_tagged(op_user_left(), sender),
                ),
                DispatchOutcome::LoggedOut,
                remove_name(s, sender),
            )
        } else {
            (Seq::empty(), DispatchOutcome::LogoutSenderMissing, s)
        }
    } else {
        (Seq::empty(), DispatchOutcome::InvalidCommand, s)
    }
}

/// Law: a chat message is relayed to every session. A trimmed, framed
/// request with the chat opcode dispatches to one delivery of the verbatim
/// request per registered session, in registry order, and changes nothing.
pub proof fn lemma_message_is_broadcast(s: Seq<(Seq<u8>, u64)>, raw: Seq<u8>)
    requires
        raw.len() == 0 || raw[raw.len() - 1] != 0,
        req_framed(raw),
        spec_opcode(raw) == op_message(),
    ensures
        spec_dispatch(s, raw) == (broadcast_model(s, raw), DispatchOutcome::Broadcast, s),
{
    lemma_trim_zeros_clean(raw);
}

/// Law: a whisper reaches exactly its target. A command payload
/// `/w <target> <text>` with a whitespace-free target dispatches to a single
/// delivery, of the private relay `PRM <sender> <text>`, to the connection
/// registered under `target`, and changes nothing; when no session bears
/// `target`, nothing is delivered and nothing changes.
pub proof fn lemma_whisper_reaches_only_target(
    s: Seq<(Seq<u8>, u64)>,
    sender: Seq<u8>,
    target: Seq<u8>,
    text: Seq<u8>,
)
    requires
        target.len() > 0,
        forall|k: int| 0 <= k < target.len() ==> !is_ws(target[k]),
    ensures
        ({
            let c = cmd_whisper() + seq![SPACE] + target + seq![SPACE] + text;
            &&& contains_name(s, target) ==> spec_dispatch_command(s, sender, c) == (
                seq![(conn_of(s, target), spec_prm(sender, text))],
                DispatchOutcome::Whispered,
                s,
            )
            &&& !contains_name(s, target) ==> spec_dispatch_command(s, sender, c) == (
                Seq::<(u64, Seq<u8>)>::empty(),
                DispatchOutcome::WhisperTargetMissing,
                s,
            )
        }),
{
    let c = cmd_whisper() + seq![SPACE] + target + seq![SPACE] + text;
    lemma_whisper_round_trip(target, text);
    assert(!is_ws(c[0]));
    lemma_skip_ws_is(c, 0, 0);
    assert(spec_cmd_start(c) != c.len());
    assert(spec_arg_token(c).len() > 0);
    assert(spec_arg_start(c) != c.len());
}

/// Law: a logout notifies the leaver, announces the departure to every
/// session present at that moment, and removes the leaver — in that order.
/// A `/exit` command from a registered sender dispatches to the disconnect
/// notice for the sender's own connection followed by one departure
/// announcement `ULS <sender>` per session, and the sender alone leaves the
/// registry; from an unregistered sender it delivers nothing and changes
/// nothing.
pub proof fn lemma_logout_notifies_then_removes(s: Seq<(Seq<u8>, u64)>, sender: Seq<u8>)
    ensures
        contains_name(s, sender) ==> spec_dispatch_command(s, sender, cmd_logout()) == (
            seq![(conn_of(s, sender), op_denied())] + broadcast_model(
                s,
                spec_tagged(op_user_left(), sender),
            ),
            DispatchOutcome::LoggedOut,
            remove_name(s, sender),
        ),
        !contains_name(s, sender) ==> spec_dispatch_command(s, sender, cmd_logout()) == (
            Seq::<(u64, Seq<u8>)>::empty(),
            DispatchOutcome::LogoutSenderMissing,
            s,
        ),
{
    let c = cmd_logout();
    assert(!is_ws(c[0]));
    lemma_skip_ws_is(c, 0, 0);
    assert(forall|k: int| 0 <= k < c.len() ==> !is_ws(c[k]));
    lemma_token_end_is(c, 0, c.len() as int);
    assert(spec_cmd_token(c) =~= c);
    assert(spec_cmd_token(c) != cmd_whisper());
}

/// Interprets one raw request against the registry, as the protocol's
/// dispatch rules demand, and returns the outbound writes to perform, in
/// order, with the outcome to log. The whole behaviour — which sessions
/// receive which bytes and how the registry changes — is
/// [`spec_dispatch`] of the old registry state and the raw bytes.
pub fn handle_request(clients: &mut ClientList, raw: &Vec<u8>) -> (r: (
    Vec<Delivery>,
    DispatchOutcome,
))
    requires
        old(clients).wf(),
    ensures
        final(clients).wf(),
        deliveries_model(r.0@) == spec_dispatch(old(clients)@, raw@).0,
        r.1 == spec_dispatch(old(clients)@, raw@).1,
        final(clients)@ == spec_dispatch(old(clients)@, raw@).2,
{
    proof {
        assert(deliveries_model(Seq::<Delivery>::empty()) =~= Seq::<(u64, Seq<u8>)>::empty());
    }
    let t = trim_zeros(raw);
    let req = match parse_request(&t) {
        Some(req) => req,
        None => {
            return (Vec::new(), DispatchOutcome::MalformedRequest);
        },
    };
    if opcode_is(&req.opcode, 77, 83, 71) {
        let ds = clients.send_to_all(&t);
        (ds, DispatchOutcome::Broadcast)
    } else if opcode_is(&req.opcode, 67, 77, 68) {
        handle_command(clients, &req.sender, &req.payload)
    } else {
        (Vec::new(), DispatchOutcome::InvalidIdentifier)
    }
}

/// Runs one `CMD` request from `sender` with payload `content` against the
/// registry: the command half of [`handle_request`], specified by
/// [`spec_dispatch_command`].
pub fn handle_command(clients: &mut ClientList, sender: &Vec<u8>, content: &Vec<u8>) -> (r: (
    Vec<Delivery>,
    DispatchOutcome,
))
    requires
        old(clients).wf(),
    ensures
        final(clients).wf(),
        deliveries_model(r.0@) == spec_dispatch_command(old(clients)@, sender@, content@).0,
        r.1 == spec_dispatch_command(old(clients)@, sender@, content@).1,
        final(clients)@ == spec_dispatch_command(old(clients)@, sender@, content@).2,
{
    proof {
        assert(deliveries_model(Seq::<Delivery>::empty()) =~= Seq::<(u64, Seq<u8>)>::empty());
    }
    let cmd_start = skip_ws(content, 0);
    if cmd_start == content.len() {
        return (Vec::new(), DispatchOutcome::MalformedRequest);
    }
    let cmd_end = token_end(content, cmd_start);
    let cmd = copy_range(content, cmd_start, cmd_end);
    if bytes_eq(&cmd, &cmd_whisper_bytes()) {
        let arg_start = skip_ws(content, cmd_end);
        if arg_start == content.len() {
            return (Vec::new(), DispatchOutcome::MalformedRequest);
        }
        let arg_end = token_end(content, arg_start);
        let target = copy_range(content, arg_start, arg_end);
        let text = if arg_end < content.len() {
            copy_range(content, arg_end + 1, content.len())
        } else {
            Vec::new()
        };
        proof {
            if spec_arg_end(content@) >= content@.len() {
                assert(text@ =~= spec_rest_after_arg(content@));
            }
        }
        let message = prm_message(sender, &text);
        match clients.send_to(&target, &message) {
            Ok(d) => {
                let mut ds: Vec<Delivery> = Vec::new();
                ds.push(d);
                proof {
                    assert(deliveries_model(ds@) =~= seq![
                        (conn_of(clients@, target@), spec_prm(sender@, text@)),
                    ]);
                }
                (ds, DispatchOutcome::Whispered)
            },
            Err(_) => (Vec::new(), DispatchOutcome::WhisperTargetMissing),
        }
    } else if bytes_eq(&cmd, &cmd_logout_bytes()) {
        let notice = triple(67, 68, 69);
        proof {
            assert(notice@ =~= op_denied());
        }
        match clients.send_to(sender, &notice) {
            Ok(d) => {
                let announcement = tagged_message(85, 76, 83, sender);
                proof {
                    assert(announcement@ =~= spec_tagged(op_user_left(), sender@));
                }
                let mut ds: Vec<Delivery> = Vec::new();
                ds.push(d);
                let mut rest = clients.send_to_all(&announcement);
                let ghost pre = clients@;
                ds.append(&mut rest);
                let removed = clients.remove(sender);
                proof {
                    assert(removed is Ok);
                    assert(deliveries_model(ds@) =~= seq![(conn_of(pre, sender@), op_denied())]
                        + broadcast_model(pre, spec_tagged(op_user_left(), sender@)));
                }
                (ds, DispatchOutcome::LoggedOut)
            },
            Err(_) => (Vec::new(), DispatchOutcome::LogoutSenderMissing),
        }
    } else {
        (Vec::new(), DispatchOutcome::InvalidCommand)
    }
}

/// How the acceptor answers the first message of a new connection.
pub enum HandshakeOutcome {
    /// The message is not a framed join request: drop the connection and
    /// send nothing.
    Malformed,
    /// The requested name is taken: write `reply` (`CDE`) to the new
    /// connection and close it.
    Denied {
        /// The denial to write to the new connection.
        reply: Vec<u8>,
    },
    /// The session was registered: write `reply` (`CAC`) to the new
    /// connection, perform `deliveries` (the join announcement to every
    /// session, the new one included), and start reading from the client.
    Accepted {
        /// The name the session was registered under.
        name: Vec<u8>,
        /// The acceptance to write to the new connection.
        reply: Vec<u8>,
        /// The join announcement `UJS <name>` for every session.
        deliveries: Vec<Delivery>,
    },
}

/// Decides the join handshake for one new connection from its first
/// received buffer. A trimmed message `CON <name>` with a non-empty name
/// either registers a session under that name — appended to the registry,
/// acceptance and join announcement returned — or, when the name is taken,
/// leaves the registry unchanged and returns the denial; anything else is
/// malformed and changes nothing.
pub fn handshake(clients: &mut ClientList, raw: &Vec<u8>, conn: u64) -> (r: HandshakeOutcome)
    requires
        old(clients).wf(),
    ensures
        final(clients).wf(),
        match spec_join_name(raw@) {
            Option::None => final(clients)@ == old(clients)@ && r is Malformed,
            Option::Some(name) => {
                if contains_name(old(clients)@, name) {
                    final(clients)@ == old(clients)@ && (r matches HandshakeOutcome::Denied {
                        reply,
                    } && reply@ == op_denied())
                } else {
                    final(clients)@ == old(clients)@.push((name, conn))
                        && (r matches HandshakeOutcome::Accepted { name: n, reply, deliveries }
                        && n@ == name && reply@ == op_accepted() && deliveries_model(deliveries@)
                        == broadcast_model(final(clients)@, spec_tagged(op_user_joined(), name)))
                }
            },
        },
{
    let t = trim_zeros(raw);
    if t.len() < 5 {
        return HandshakeOutcome::Malformed;
    }
    let opcode = copy_range(&t, 0, 3);
    proof {
        assert(opcode@ =~= spec_trim_zeros(raw@).take(3));
    }
    if !opcode_is(&opcode, 67, 79, 78) {
        return HandshakeOutcome::Malformed;
    }
    if t[3] != SPACE {
        return HandshakeOutcome::Malformed;
    }
    let name = copy_range(&t, 4, t.len());
    proof {
        assert(name@ =~= spec_trim_zeros(raw@).skip(4));
    }
    match clients.add(name, conn) {
        Err(_) => {
            let reply = triple(67, 68, 69);
            proof {
                assert(reply@ =~= op_denied());
            }
            HandshakeOutcome::Denied { reply }
        },
        Ok(_) => {
            let name_again = copy_range(&t, 4, t.len());
            proof {
                assert(name_again@ =~= spec_trim_zeros(raw@).skip(4));
            }
            let announcement = tagged_message(85, 74, 83, &name_again);
            proof {
                assert(announcement@ =~= spec_tagged(op_user_joined(), name_again@));
            }
            let deliveries = clients.send_to_all(&announcement);
            let reply = triple(67, 65, 67);
            proof {
                assert(reply@ =~= op_accepted());
            }
            HandshakeOutcome::Accepted { name: name_again, reply, deliveries }
        },
    }
}

} // verus!
