//! The wire protocol: three-letter opcodes, zero-padded fixed buffers, and
//! whitespace-token framing shared by the server and the client.
//!
//! A message is `<opcode> <sender> <payload>` where the opcode is exactly
//! three bytes, a single space follows it, the sender token runs to the first
//! ASCII whitespace byte, and the payload is everything after one separator.
//! Receive buffers are zero-padded: trailing zero bytes are stripped before
//! any parsing.

use vstd::prelude::*;

verus! {

/// The space byte, the only separator the protocol writes.
pub const SPACE: u8 = 32;

/// ASCII whitespace, as token separators on the wire.
pub open spec fn is_ws(b: u8) -> bool {
    b == 32 || b == 9 || b == 10 || b == 13 || b == 12
}

/// Runtime test for [`is_ws`].
pub fn byte_is_ws(b: u8) -> (r: bool)
    ensures
        r == is_ws(b),
{
    b == 32 || b == 9 || b == 10 || b == 13 || b == 12
}

/// `s` with every trailing zero byte removed.
pub open spec fn spec_trim_zeros(s: Seq<u8>) -> Seq<u8>
    decreases s.len(),
{
    if s.len() > 0 && s[s.len() - 1] == 0 {
        spec_trim_zeros(s.drop_last())
    } else {
        s
    }
}

/// The end of the whitespace-free token starting at `from`: the first
/// position at or after `from` holding whitespace, or the end of `s`.
pub open spec fn spec_token_end(s: Seq<u8>, from: int) -> int
    decreases s.len() - from when 0 <= from <= s.len()
{
    if from >= s.len() {
        s.len() as int
    } else if is_ws(s[from]) {
        from
    } else {
        spec_token_end(s, from + 1)
    }
}

/// The first position at or after `from` holding a non-whitespace byte, or
/// the end of `s`.
pub open spec fn spec_skip_ws(s: Seq<u8>, from: int) -> int
    decreases s.len() - from when 0 <= from <= s.len()
{
    if from >= s.len() {
        s.len() as int
    } else if is_ws(s[from]) {
        spec_skip_ws(s, from + 1)
    } else {
        from
    }
}

/// What [`spec_token_end`] returns: the token is whitespace-free and runs up
/// to whitespace or the end of the sequence.
pub proof fn lemma_token_end(s: Seq<u8>, from: int)
    requires
        0 <= from <= s.len(),
    ensures
        from <= spec_token_end(s, from) <= s.len(),
        forall|k: int| from <= k < spec_token_end(s, from) ==> !is_ws(s[k]),
        spec_token_end(s, from) < s.len() ==> is_ws(s[spec_token_end(s, from)]),
    decreases s.len() - from,
{
    if from < s.len() && !is_ws(s[from]) {
        lemma_token_end(s, from + 1);
    }
}

/// A position with the token-end properties is the token end.
pub proof fn lemma_token_end_is(s: Seq<u8>, from: int, e: int)
    requires
        0 <= from <= e <= s.len(),
        forall|k: int| from <= k < e ==> !is_ws(s[k]),
        e < s.len() ==> is_ws(s[e]),
    ensures
        spec_token_end(s, from) == e,
    decreases e - from,
{
    if from < e {
        lemma_token_end_is(s, from + 1, e);
    }
}

/// A position with the skip-whitespace properties is where skipping stops.
pub proof fn lemma_skip_ws_is(s: Seq<u8>, from: int, e: int)
    requires
        0 <= from <= e <= s.len(),
        forall|k: int| from <= k < e ==> is_ws(s[k]),
        e < s.len() ==> !is_ws(s[e]),
    ensures
        spec_skip_ws(s, from) == e,
    decreases e - from,
{
    if from < e {
        lemma_skip_ws_is(s, from + 1, e);
    }
}

/// Trimming a sequence whose last byte is not zero changes nothing.
pub proof fn lemma_trim_zeros_clean(s: Seq<u8>)
    requires
        s.len() == 0 || s[s.len() - 1] != 0,
    ensures
        spec_trim_zeros(s) == s,
{
}

/// Strips the zero padding a fixed-size receive buffer carries after the
/// message proper.
pub fn trim_zeros(raw: &Vec<u8>) -> (r: Vec<u8>)
    ensures
        r@ == spec_trim_zeros(raw@),
{
    let mut end: usize = raw.len();
    proof {
        assert(raw@.take(raw@.len() as int) =~= raw@);
    }
    while end > 0 && raw[end - 1] == 0
        invariant
            end <= raw@.len(),
            spec_trim_zeros(raw@) == spec_trim_zeros(raw@.take(end as int)),
        decreases end,
    {
        proof {
            assert(raw@.take(end as int).drop_last() =~= raw@.take(end as int - 1));
        }
        end = end - 1;
    }
    copy_range(raw, 0, end)
}

/// Copies `v[a..b]` out as a fresh vector.
pub fn copy_range(v: &Vec<u8>, a: usize, b: usize) -> (r: Vec<u8>)
    requires
        a <= b <= v@.len(),
    ensures
        r@ == v@.subrange(a as int, b as int),
{
    let mut r: Vec<u8> = Vec::new();
    let mut i: usize = a;
    while i < b
        invariant
            a <= i <= b <= v@.len(),
            r@ == v@.subrange(a as int, i as int),
        decreases b - i,
    {
        r.push(v[i]);
        proof {
            assert(r@ =~= v@.subrange(a as int, i as int + 1));
        }
        i = i + 1;
    }
    r
}

/// Byte-for-byte equality of two byte vectors.
pub fn bytes_eq(a: &Vec<u8>, b: &Vec<u8>) -> (r: bool)
    ensures
        r <==> a@ == b@,
{
    if a.len() != b.len() {
        return false;
    }
    let mut i: usize = 0;
    while i < a.len()
        invariant
            i <= a@.len(),
            a@.len() == b@.len(),
            forall|k: int| 0 <= k < i ==> a@[k] == b@[k],
        decreases a@.len() - i,
    {
        if a[i] != b[i] {
            return false;
        }
        i = i + 1;
    }
    proof {
        assert(a@ =~= b@);
    }
    true
}

/// Appends `src` to the end of `dst`.
pub fn append_bytes(dst: &mut Vec<u8>, src: &Vec<u8>)
    ensures
        final(dst)@ == old(dst)@ + src@,
{
    let mut i: usize = 0;
    while i < src.len()
        invariant
            i <= src@.len(),
            dst@ == old(dst)@ + src@.subrange(0, i as int),
        decreases src@.len() - i,
    {
        dst.push(src[i]);
        proof {
            assert(old(dst)@ + src@.subrange(0, i as int + 1) =~= (old(dst)@ + src@.subrange(
                0,
                i as int,
            )).push(src@[i as int]));
        }
        i = i + 1;
    }
    proof {
        assert(src@.subrange(0, src@.len() as int) =~= src@);
    }
}

/// Whether a three-byte opcode equals the given bytes.
pub fn opcode_is(op: &Vec<u8>, a: u8, b: u8, c: u8) -> (r: bool)
    requires
        op@.len() == 3,
    ensures
        r <==> op@ == seq![a, b, c],
{
    let r = op[0] == a && op[1] == b && op[2] == c;
    proof {
        let s = seq![a, b, c];
        assert(s[0] == a && s[1] == b && s[2] == c);
        if r {
            assert(op@ =~= s);
        }
    }
    r
}

/// A three-byte vector, for opcode values.
pub fn triple(a: u8, b: u8, c: u8) -> (r: Vec<u8>)
    ensures
        r@ == seq![a, b, c],
{
    let mut v: Vec<u8> = Vec::new();
    v.push(a);
    v.push(b);
    v.push(c);
    proof {
        assert(v@ =~= seq![a, b, c]);
    }
    v
}

/// Opcode of a join request, the bytes of `CON`.
pub open spec fn op_connect() -> Seq<u8> {
    seq![67u8, 79u8, 78u8]
}

/// Opcode of a broadcast chat message, the bytes of `MSG`.
pub open spec fn op_message() -> Seq<u8> {
    seq![77u8, 83u8, 71u8]
}

/// Opcode of a command invocation, the bytes of `CMD`.
pub open spec fn op_command() -> Seq<u8> {
    seq![67u8, 77u8, 68u8]
}

/// Opcode telling a client its connection was accepted, the bytes of `CAC`.
pub open spec fn op_accepted() -> Seq<u8> {
    seq![67u8, 65u8, 67u8]
}

/// Opcode telling a client its connection was denied or ended, the bytes of
/// `CDE`.
pub open spec fn op_denied() -> Seq<u8> {
    seq![67u8, 68u8, 69u8]
}

/// Opcode announcing that a user joined, the bytes of `UJS`.
pub open spec fn op_user_joined() -> Seq<u8> {
    seq![85u8, 74u8, 83u8]
}

/// Opcode announcing that a user left, the bytes of `ULS`.
pub open spec fn op_user_left() -> Seq<u8> {
    seq![85u8, 76u8, 83u8]
}

/// Opcode of a private message relay, the bytes of `PRM`.
pub open spec fn op_private() -> Seq<u8> {
    seq![80u8, 82u8, 77u8]
}

/// The whisper command token, the bytes of `/w`.
pub open spec fn cmd_whisper() -> Seq<u8> {
    seq![47u8, 119u8]
}

/// The logout command token, the bytes of `/exit`.
pub open spec fn cmd_logout() -> Seq<u8> {
    seq![47u8, 101u8, 120u8, 105u8, 116u8]
}

/// The bytes of the whisper command token `/w`.
pub fn cmd_whisper_bytes() -> (r: Vec<u8>)
    ensures
        r@ == cmd_whisper(),
{
    let mut v: Vec<u8> = Vec::new();
    v.push(47);
    v.push(119);
    proof {
        assert(v@ =~= cmd_whisper());
    }
    v
}

/// The bytes of the logout command token `/exit`.
pub fn cmd_logout_bytes() -> (r: Vec<u8>)
    ensures
        r@ == cmd_logout(),
{
    let mut v: Vec<u8> = Vec::new();
    v.push(47);
    v.push(101);
    v.push(120);
    v.push(105);
    v.push(116);
    proof {
        assert(v@ =~= cmd_logout());
    }
    v
}

/// A trimmed message is framed when it carries a three-byte opcode, one
/// space, and a sender token that starts right after the space.
pub open spec fn req_framed(t: Seq<u8>) -> bool {
    &&& t.len() >= 5
    &&& t[3] == SPACE
    &&& !is_ws(t[4])
}

/// The opcode of a framed message: its first three bytes.
pub open spec fn spec_opcode(t: Seq<u8>) -> Seq<u8> {
    t.take(3)
}

/// Where the sender token of a framed message ends.
pub open spec fn spec_sender_end(t: Seq<u8>) -> int {
    spec_token_end(t, 4)
}

/// The sender token of a framed message: from position 4 to the first
/// whitespace byte.
pub open spec fn spec_sender(t: Seq<u8>) -> Seq<u8> {
    t.subrange(4, spec_sender_end(t))
}

/// The payload of a framed message: everything after the sender token and
/// one separator byte; empty when nothing follows the sender.
pub open spec fn spec_payload(t: Seq<u8>) -> Seq<u8> {
    if spec_sender_end(t) + 1 <= t.len() {
        t.subrange(spec_sender_end(t) + 1, t.len() as int)
    } else {
        Seq::empty()
    }
}

/// A request decoded from one trimmed wire message.
pub struct Request {
    /// The three-byte message-type tag.
    pub opcode: Vec<u8>,
    /// The name of the client the message speaks for.
    pub sender: Vec<u8>,
    /// The rest of the message after the sender token and one separator.
    pub payload: Vec<u8>,
}

/// Splits a trimmed message into opcode, sender and payload, or reports that
/// the message is not framed as the protocol demands.
pub fn parse_request(t: &Vec<u8>) -> (r: Option<Request>)
    ensures
        match r {
            Some(req) => {
                &&& req_framed(t@)
                &&& req.opcode@ == spec_opcode(t@)
                &&& req.sender@ == spec_sender(t@)
                &&& req.payload@ == spec_payload(t@)
            },
            None => !req_framed(t@),
        },
{
    if t.len() < 5 {
        return None;
    }
    if t[3] != SPACE {
        return None;
    }
    if byte_is_ws(t[4]) {
        return None;
    }
    let opcode = copy_range(t, 0, 3);
    proof {
        assert(opcode@ =~= spec_opcode(t@));
        lemma_token_end(t@, 4);
    }
    let send_end = token_end(t, 4);
    let sender = copy_range(t, 4, send_end);
    let payload = if send_end < t.len() {
        copy_range(t, send_end + 1, t.len())
    } else {
        Vec::new()
    };
    proof {
        assert(spec_payload(t@) == Seq::<u8>::empty() || spec_payload(t@) == t@.subrange(
            spec_sender_end(t@) + 1,
            t@.len() as int,
        ));
        if spec_sender_end(t@) + 1 > t@.len() {
            assert(payload@ =~= spec_payload(t@));
        }
    }
    Some(Request { opcode, sender, payload })
}

/// The first whitespace position at or after `from`, as [`spec_token_end`]
/// defines it.
pub fn token_end(v: &Vec<u8>, from: usize) -> (r: usize)
    requires
        from <= v@.len(),
    ensures
        r == spec_token_end(v@, from as int),
        from <= r <= v@.len(),
{
    let mut i: usize = from;
    while i < v.len() && !byte_is_ws(v[i])
        invariant
            from <= i <= v@.len(),
            spec_token_end(v@, from as int) == spec_token_end(v@, i as int),
        decreases v@.len() - i,
    {
        i = i + 1;
    }
    i
}

/// An opcode, one space, and the rest: how every server announcement is
/// framed.
pub open spec fn spec_tagged(op: Seq<u8>, rest: Seq<u8>) -> Seq<u8> {
    op + seq![SPACE] + rest
}

/// A private-message relay: `PRM <sender> <text>`.
pub open spec fn spec_prm(sender: Seq<u8>, text: Seq<u8>) -> Seq<u8> {
    op_private() + seq![SPACE] + sender + seq![SPACE] + text
}

/// A join request: `CON <name>`.
pub open spec fn spec_encode_join(name: Seq<u8>) -> Seq<u8> {
    spec_tagged(op_connect(), name)
}

/// The name a join request carries: after trimming, the message must open
/// with `CON` and one space, and the name is everything that follows.
pub open spec fn spec_join_name(raw: Seq<u8>) -> Option<Seq<u8>> {
    let t = spec_trim_zeros(raw);
    if t.len() >= 5 && t.take(3) == op_connect() && t[3] == SPACE {
        Some(t.skip(4))
    } else {
        None
    }
}

/// Where the command token of a command payload starts: after any leading
/// whitespace.
pub open spec fn spec_cmd_start(c: Seq<u8>) -> int {
    spec_skip_ws(c, 0)
}

/// Where the command token of a command payload ends.
pub open spec fn spec_cmd_end(c: Seq<u8>) -> int {
    spec_token_end(c, spec_cmd_start(c))
}

/// The command token of a command payload, such as `/w` or `/exit`.
pub open spec fn spec_cmd_token(c: Seq<u8>) -> Seq<u8> {
    c.subrange(spec_cmd_start(c), spec_cmd_end(c))
}

/// Where the argument token after the command starts.
pub open spec fn spec_arg_start(c: Seq<u8>) -> int {
    spec_skip_ws(c, spec_cmd_end(c))
}

/// Where the argument token after the command ends.
pub open spec fn spec_arg_end(c: Seq<u8>) -> int {
    spec_token_end(c, spec_arg_start(c))
}

/// The argument token after the command, such as a whisper's target name.
pub open spec fn spec_arg_token(c: Seq<u8>) -> Seq<u8> {
    c.subrange(spec_arg_start(c), spec_arg_end(c))
}

/// Everything after the argument token and one separator byte; empty when
/// nothing follows the argument.
pub open spec fn spec_rest_after_arg(c: Seq<u8>) -> Seq<u8> {
    if spec_arg_end(c) < c.len() {
        c.subrange(spec_arg_end(c) + 1, c.len() as int)
    } else {
        Seq::empty()
    }
}

/// Builds `<opcode> <rest>` from the three opcode bytes and the rest.
pub fn tagged_message(a: u8, b: u8, c: u8, rest: &Vec<u8>) -> (r: Vec<u8>)
    ensures
        r@ == spec_tagged(seq![a, b, c], rest@),
{
    let mut v = triple(a, b, c);
    v.push(SPACE);
    append_bytes(&mut v, rest);
    proof {
        assert(v@ =~= spec_tagged(seq![a, b, c], rest@));
    }
    v
}

/// Builds the private-message relay `PRM <sender> <text>`.
pub fn prm_message(sender: &Vec<u8>, text: &Vec<u8>) -> (r: Vec<u8>)
    ensures
        r@ == spec_prm(sender@, text@),
{
    let mut v = triple(80, 82, 77);
    v.push(SPACE);
    append_bytes(&mut v, sender);
    v.push(SPACE);
    append_bytes(&mut v, text);
    proof {
        assert(v@ =~= spec_prm(sender@, text@));
    }
    v
}

/// Law: a join request round-trips. Encoding a join request for a name and
/// decoding the result yields that very name again, for every name that a
/// zero-padded buffer can carry faithfully (non-empty, not ending in a zero
/// byte).
pub proof fn lemma_join_round_trip(name: Seq<u8>)
    requires
        name.len() > 0,
        name[name.len() - 1] != 0,
    ensures
        spec_join_name(spec_encode_join(name)) == Some(name),
{
    let m = spec_encode_join(name);
    assert(m[m.len() - 1] == name[name.len() - 1]);
    lemma_trim_zeros_clean(m);
    assert(m.take(3) =~= op_connect());
    assert(m.skip(4) =~= name);
}

/// Law: a framed message round-trips. A message built as
/// `<opcode> <sender> <payload>` from a whitespace-free sender decodes to
/// exactly that opcode, sender and payload.
pub proof fn lemma_frame_round_trip(op: Seq<u8>, sender: Seq<u8>, payload: Seq<u8>)
    requires
        op.len() == 3,
        sender.len() > 0,
        forall|k: int| 0 <= k < sender.len() ==> !is_ws(sender[k]),
    ensures
        ({
            let t = op + seq![SPACE] + sender + seq![SPACE] + payload;
            &&& req_framed(t)
            &&& spec_opcode(t) == op
            &&& spec_sender(t) == sender
            &&& spec_payload(t) == payload
        }),
{
    let t = op + seq![SPACE] + sender + seq![SPACE] + payload;
    assert(t[3] == SPACE);
    assert(t[4] == sender[0]);
    assert forall|k: int| 4 <= k < 4 + sender.len() as int implies !is_ws(t[k]) by {
        assert(t[k] == sender[k - 4]);
    }
    assert(t[4 + sender.len() as int] == SPACE);
    lemma_token_end_is(t, 4, 4 + sender.len() as int);
    assert(spec_opcode(t) =~= op);
    assert(spec_sender(t) =~= sender);
    assert(spec_payload(t) =~= payload);
}

/// Law: a whisper command round-trips. The payload `/w <target> <text>`
/// parses back to the whisper token, that target and that text, for every
/// whitespace-free target.
pub proof fn lemma_whisper_round_trip(target: Seq<u8>, text: Seq<u8>)
    requires
        target.len() > 0,
        forall|k: int| 0 <= k < target.len() ==> !is_ws(target[k]),
    ensures
        ({
            let c = cmd_whisper() + seq![SPACE] + target + seq![SPACE] + text;
            &&& spec_cmd_token(c) == cmd_whisper()
            &&& spec_arg_token(c) == target
            &&& spec_rest_after_arg(c) == text
        }),
{
    let c = cmd_whisper() + seq![SPACE] + target + seq![SPACE] + text;
    assert(c[0] == 47u8 && c[1] == 119u8 && c[2] == SPACE);
    assert(!is_ws(47u8) && !is_ws(119u8));
    lemma_skip_ws_is(c, 0, 0);
    lemma_token_end_is(c, 0, 2);
    assert(spec_cmd_token(c) =~= cmd_whisper());
    assert(c[3] == target[0]);
    lemma_skip_ws_is(c, 2, 3);
    assert forall|k: int| 3 <= k < 3 + target.len() as int implies !is_ws(c[k]) by {
        assert(c[k] == target[k - 3]);
    }
    assert(c[3 + target.len() as int] == SPACE);
    lemma_token_end_is(c, 3, 3 + target.len() as int);
    assert(spec_arg_token(c) =~= target);
    assert(spec_rest_after_arg(c) =~= text);
}

/// The first non-whitespace position at or after `from`, as
/// [`spec_skip_ws`] defines it.
pub fn skip_ws(v: &Vec<u8>, from: usize) -> (r: usize)
    requires
        from <= v@.len(),
    ensures
        r == spec_skip_ws(v@, from as int),
        from <= r <= v@.len(),
{
    let mut i: usize = from;
    while i < v.len() && byte_is_ws(v[i])
        invariant
            from <= i <= v@.len(),
            spec_skip_ws(v@, from as int) == spec_skip_ws(v@, i as int),
        decreases v@.len() - i,
    {
        i = i + 1;
    }
    i
}

} // verus!
