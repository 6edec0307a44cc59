//! The protected channel: a hybrid X25519 + Kyber1024 handshake whose
//! transcript SHAKE256 turns into a 64-byte secret and a 16-byte
//! confirmation tag, and the sync requests that the secret's first 32
//! bytes then protect with XChaCha20-Poly1305.
use vstd::prelude::*;
use crate::crypto::{
    aead_max_blocks, aead_open, aead_seal, kyber1024_encaps, kyber_encapsulate, random_bytes, shake256,
    shake256_output, x25519, x25519_basepoint, x25519_result, xchacha20poly1305_open,
    xchacha20poly1305_seal,
};
use crate::registration::{i32_le_bytes, Session};
use crate::sessions::{session_known, verify_session};
use crate::status::HttpStatus;
use crate::text::{
    channel_key, channel_key_text, upload_path, upload_path_text, user_dir, user_dir_text,
    version_path, version_path_text,
};
use crate::wire::{
    bytes_to_array, decode_record, encode_pull_reply, encode_push_reply, encode_record, encode_versions,
    parse_record, record_roundtrip, pull_reply_layout, push_raw, push_reply_layout, record_layout,
    versions_layout,
};

verus! {

/// A client's handshake: its session and its two ephemeral public keys.
pub struct HandshakeRequest {
    pub session: Session,
    pub kyber_pub: [u8; 1568],
    pub x25519_pub: [u8; 32],
}

/// The server's handshake answer: its X25519 public key, the Kyber
/// ciphertext for the client's key, and the confirmation tag.
pub struct HandshakeResponse {
    pub x25519_pub: [u8; 32],
    pub cipher_text: [u8; 1568],
    pub auth_tag: [u8; 16],
}

/// An encrypted sync command.
pub struct SyncRequest {
    pub session: Session,
    pub nonce: [u8; 24],
    pub ciphertext: Vec<u8>,
    pub timestamp: u64,
}

/// An encrypted sync answer.
pub struct SyncResponse {
    pub nonce: [u8; 24],
    pub ciphertext: Vec<u8>,
}

/// What the handshake leaves in the cache for later sync requests: the
/// derived secret and the user it was derived for.
pub struct RedisInternal {
    pub kdf: [u8; 64],
    pub user_id: [u8; 16],
}

impl RedisInternal {
    /// The stored form of this record.
    pub fn to_bytes(&self) -> (b: Vec<u8>)
        ensures
            b@ == record_layout(self.kdf@, self.user_id@),
    {
        encode_record(&self.kdf, &self.user_id)
    }

    /// The record stored as `b`, or `None` where `b` is not one.
    pub fn from_bytes(b: &[u8]) -> (r: Option<RedisInternal>)
        ensures
            match parse_record(b@) {
                Some((k, u)) => r matches Some(rec) && rec.kdf@ == k && rec.user_id@ == u,
                None => r is None,
            },
    {
        match decode_record(b) {
            Some((kdf, user_id)) => Some(RedisInternal { kdf, user_id }),
            None => None,
        }
    }
}

/// A fresh ephemeral X25519 secret: 32 bytes from the operating system's
/// random source.
///
/// Nothing is stated of the bytes beyond their number: which bytes are
/// drawn and their freshness rest on the random source.
pub fn generate_x25519_sec() -> (r: Option<[u8; 32]>)
    ensures
        r is Some,
{
    match random_bytes(32) {
        Some(raw) => bytes_to_array(raw.as_slice()),
        None => None,
    }
}

/// The domain label that starts every handshake transcript:
/// `BICE_v1_Handshake_SHAKE256`.
pub open spec fn handshake_label() -> Seq<u8> {
    seq![
        0x42u8, 0x49, 0x43, 0x45, 0x5f, 0x76, 0x31, 0x5f, 0x48, 0x61, 0x6e, 0x64, 0x73,
        0x68, 0x61, 0x6b, 0x65, 0x5f, 0x53, 0x48, 0x41, 0x4b, 0x45, 0x32, 0x35, 0x36,
    ]
}

/// What the handshake hashes: the label, the X25519 shared secret, the
/// Kyber shared secret, then the session's token, id and user id.
pub open spec fn transcript(x_ss: Seq<u8>, k_ss: Seq<u8>, s: Session) -> Seq<u8> {
    handshake_label() + x_ss + k_ss + s.session_token@ + i32_le_bytes(s.session_id) + s.user_id@
}

/// The 80 bytes SHAKE256 squeezes from the transcript: the 64-byte channel
/// secret followed by the 16-byte confirmation tag.
pub open spec fn channel_secret(x_ss: Seq<u8>, k_ss: Seq<u8>, s: Session) -> Seq<u8> {
    shake256_output(transcript(x_ss, k_ss, s), 80)
}

proof fn lemma_le_bytes_recompose(u: u32)
    ensures
        (u % 256) + 256 * ((u / 256) % 256) + 65536 * ((u / 65536) % 256) + 16777216 * (u / 16777216) == u,
{
    assert((u % 256) + 256 * ((u / 256) % 256) + 65536 * ((u / 65536) % 256) + 16777216 * (u / 16777216)
        == u) by (bit_vector);
}

/// Where each part of the session stands in the handshake transcript, for
/// 32-byte shared secrets: the 26-byte label, the X25519 secret, the Kyber
/// secret, the 16 token bytes, then four bytes that read back, least
/// significant first, as the whole session id in two's complement, then the
/// 16 bytes of the user id, and nothing more.
pub proof fn transcript_holds_session(x_ss: Seq<u8>, k_ss: Seq<u8>, s: Session)
    requires
        x_ss.len() == 32,
        k_ss.len() == 32,
    ensures
        ({
            let t = transcript(x_ss, k_ss, s);
            &&& t.len() == 126
            &&& t.subrange(26, 58) == x_ss
            &&& t.subrange(58, 90) == k_ss
            &&& t.subrange(90, 106) == s.session_token@
            &&& t[106] + 256 * t[107] + 65536 * t[108] + 16777216 * t[109] == (if s.session_id < 0 {
                s.session_id + 0x1_0000_0000
            } else {
                s.session_id as int
            })
            &&& t.subrange(110, 126) == s.user_id@
        }),
{
    let t = transcript(x_ss, k_ss, s);
    let id = i32_le_bytes(s.session_id);
    assert(t =~= handshake_label() + x_ss + k_ss + s.session_token@ + id + s.user_id@);
    assert(t.subrange(26, 58) =~= x_ss);
    assert(t.subrange(58, 90) =~= k_ss);
    assert(t.subrange(90, 106) =~= s.session_token@);
    assert(t.subrange(110, 126) =~= s.user_id@);
    let u: int = if s.session_id < 0 {
        s.session_id + 0x1_0000_0000
    } else {
        s.session_id as int
    };
    assert(0 <= u < 0x1_0000_0000);
    let w: u32 = u as u32;
    assert(w == u);
    lemma_le_bytes_recompose(w);
    assert(t[106] == id[0] && t[107] == id[1] && t[108] == id[2] && t[109] == id[3]);
}

/// Two sessions that differ only in their id give different handshake
/// transcripts, so the id is bound into the channel secret.
pub proof fn transcript_binds_session_id(x_ss: Seq<u8>, k_ss: Seq<u8>, s1: Session, s2: Session)
    requires
        x_ss.len() == 32,
        k_ss.len() == 32,
        s1.session_id != s2.session_id,
    ensures
        transcript(x_ss, k_ss, s1) != transcript(x_ss, k_ss, s2),
{
    transcript_holds_session(x_ss, k_ss, s1);
    transcript_holds_session(x_ss, k_ss, s2);
}

/// The transcript bytes of a handshake, as the key schedule hashes them.
pub fn handshake_transcript(x_ss: &[u8; 32], k_ss: &[u8], session: &Session) -> (t: Vec<u8>)
    ensures
        t@ == transcript(x_ss@, k_ss@, *session),
{
    let label: [u8; 26] = [
        0x42u8, 0x49, 0x43, 0x45, 0x5f, 0x76, 0x31, 0x5f, 0x48, 0x61, 0x6e, 0x64, 0x73,
        0x68, 0x61, 0x6b, 0x65, 0x5f, 0x53, 0x48, 0x41, 0x4b, 0x45, 0x32, 0x35, 0x36,
    ];
    assert(label@ =~= handshake_label());
    let mut t: Vec<u8> = Vec::new();
    push_raw(&mut t, label.as_slice());
    push_raw(&mut t, x_ss.as_slice());
    push_raw(&mut t, k_ss);
    push_raw(&mut t, session.token_as_bytes().as_slice());
    let id = session.id_as_bytes();
    push_raw(&mut t, id.as_slice());
    push_raw(&mut t, session.uid_as_bytes().as_slice());
    assert(t@ =~= transcript(x_ss@, k_ss@, *session));
    t
}

/// Splits the 80 squeezed bytes into the 64-byte channel secret and the
/// 16-byte confirmation tag that follows it.
pub fn split_channel_secret(out: &[u8]) -> (r: ([u8; 64], [u8; 16]))
    requires
        out@.len() == 80,
    ensures
        r.0@ == out@.subrange(0, 64),
        r.1@ == out@.subrange(64, 80),
{
    let mut kdf: [u8; 64] = [0u8; 64];
    let mut i: usize = 0;
    while i < 64
        invariant
            out@.len() == 80,
            i <= 64,
            forall|j: int| 0 <= j < i ==> kdf@[j] == out@[j],
        decreases 64 - i,
    {
        kdf[i] = out[i];
        i = i + 1;
    }
    let mut tag: [u8; 16] = [0u8; 16];
    let mut j: usize = 0;
    while j < 16
        invariant
            out@.len() == 80,
            j <= 16,
            forall|k: int| 0 <= k < j ==> tag@[k] == out@[64 + k],
        decreases 16 - j,
    {
        tag[j] = out[64 + j];
        j = j + 1;
    }
    assert(kdf@ =~= out@.subrange(0, 64));
    assert(tag@ =~= out@.subrange(64, 80));
    (kdf, tag)
}

/// The channel secret and confirmation tag for the given shared secrets and
/// session.
pub fn derive_channel(x_ss: &[u8; 32], k_ss: &[u8], session: &Session) -> (r: ([u8; 64], [u8; 16]))
    ensures
        channel_secret(x_ss@, k_ss@, *session).len() == 80,
        r.0@ == channel_secret(x_ss@, k_ss@, *session).subrange(0, 64),
        r.1@ == channel_secret(x_ss@, k_ss@, *session).subrange(64, 80),
{
    let t = handshake_transcript(x_ss, k_ss, session);
    let out = shake256(t.as_slice(), 80);
    split_channel_secret(out.as_slice())
}

/// The handshake's answer and stored record for the server secret
/// `own_secret`, the Kyber shared secret `k_ss` and the Kyber ciphertext `ct`:
/// the answer carries the server's X25519 public key, `ct`, and the tag of
/// the key schedule run over the X25519 agreement with the client's key and
/// `k_ss`; the record holds that run's 64-byte secret and the session's user.
pub open spec fn handshake_outcome(
    req: HandshakeRequest,
    own_secret: Seq<u8>,
    k_ss: Seq<u8>,
    ct: Seq<u8>,
    resp: HandshakeResponse,
    record: Seq<u8>,
) -> bool {
    let secret = channel_secret(x25519_result(own_secret, req.x25519_pub@), k_ss, req.session);
    &&& secret.len() == 80
    &&& resp.x25519_pub@ == x25519_result(own_secret, x25519_basepoint())
    &&& resp.cipher_text@ == ct
    &&& resp.auth_tag@ == secret.subrange(64, 80)
    &&& record == record_layout(secret.subrange(0, 64), req.session.user_id@)
}

/// Every client secret whose public key the request carries agrees with the
/// answer's public key on the same X25519 secret the server used.
pub open spec fn client_agrees(req: HandshakeRequest, own_secret: Seq<u8>, resp: HandshakeResponse) -> bool {
    forall|c: Seq<u8>|
        c.len() == 32 && req.x25519_pub@ == x25519_result(c, x25519_basepoint()) ==> #[trigger] x25519_result(
            c,
            resp.x25519_pub@,
        ) == x25519_result(own_secret, req.x25519_pub@)
}

/// Completes the handshake for `req` with the drawn server secret
/// `own_secret` and the Kyber encapsulation `(k_ss, ct)`: computes the
/// server's public key and the X25519 agreement, runs the key schedule, and
/// gives the answer and the record to keep. A ciphertext that is not 1568
/// bytes long is `InternalServerError`.
pub fn finish_handshake(req: &HandshakeRequest, own_secret: &[u8; 32], k_ss: &[u8], ct: &[u8]) -> (r: Result<
    (HandshakeResponse, Vec<u8>),
    HttpStatus,
>)
    ensures
        r is Ok <==> ct@.len() == 1568,
        r is Err ==> r == Err::<(HandshakeResponse, Vec<u8>), HttpStatus>(HttpStatus::InternalServerError),
        r matches Ok((resp, record)) ==> handshake_outcome(*req, own_secret@, k_ss@, ct@, resp, record@)
            && client_agrees(*req, own_secret@, resp),
{
    let cipher_text: [u8; 1568] = match bytes_to_array(ct) {
        Some(a) => a,
        None => return Err(HttpStatus::InternalServerError),
    };
    let base: [u8; 32] = [9u8, 0, 0, 0, 0, 0, 0, 0, 0, 0, 0, 0, 0, 0, 0, 0, 0, 0, 0, 0, 0, 0, 0, 0, 0, 0, 0, 0, 0, 0, 0, 0];
    assert(base@ =~= x25519_basepoint());
    let own_pub = x25519(own_secret, &base);
    let x_ss = x25519(own_secret, &req.x25519_pub);
    let (kdf, tag) = derive_channel(&x_ss, k_ss, &req.session);
    let record = encode_record(&kdf, &req.session.user_id);
    let resp = HandshakeResponse { x25519_pub: own_pub, cipher_text, auth_tag: tag };
    proof {
        assert forall|c: Seq<u8>|
            c.len() == 32 && req.x25519_pub@ == x25519_result(c, x25519_basepoint()) implies #[trigger] x25519_result(
                c,
                resp.x25519_pub@,
            ) == x25519_result(own_secret@, req.x25519_pub@) by {
            assert(x25519_result(c, own_pub@) == x25519_result(own_secret@, x25519_result(c, base@)));
        }
    }
    Ok((resp, record))
}

/// The handshake and the sync requests that follow agree on the key: the
/// record a handshake keeps reads back, whatever follows it in the cache
/// value, as the 64-byte secret of the key schedule run whose tag the
/// answer carries, and the session's user; sync requests then decrypt under
/// the first 32 bytes of that secret.
pub proof fn handshake_record_reads_back(
    req: HandshakeRequest,
    own_secret: Seq<u8>,
    k_ss: Seq<u8>,
    ct: Seq<u8>,
    resp: HandshakeResponse,
    record: Seq<u8>,
    trailing: Seq<u8>,
)
    requires
        handshake_outcome(req, own_secret, k_ss, ct, resp, record),
    ensures
        ({
            let secret = channel_secret(x25519_result(own_secret, req.x25519_pub@), k_ss, req.session);
            &&& parse_record(record + trailing) == Some((secret.subrange(0, 64), req.session.user_id@))
            &&& secret.subrange(64, 80) == resp.auth_tag@
        }),
{
    let secret = channel_secret(x25519_result(own_secret, req.x25519_pub@), k_ss, req.session);
    record_roundtrip(secret.subrange(0, 64), req.session.user_id@, trailing);
}

/// What a client holding the X25519 secret `c` behind the request's public
/// key and the Kyber shared secret `k_ss` derives from the answer: the same
/// 80 bytes as the server, whose first 64 are what the record holds and whose
/// last 16 are the tag it was sent.
pub proof fn client_derives_server_secret(
    req: HandshakeRequest,
    own_secret: Seq<u8>,
    k_ss: Seq<u8>,
    ct: Seq<u8>,
    resp: HandshakeResponse,
    record: Seq<u8>,
    c: Seq<u8>,
)
    requires
        handshake_outcome(req, own_secret, k_ss, ct, resp, record),
        client_agrees(req, own_secret, resp),
        c.len() == 32,
        req.x25519_pub@ == x25519_result(c, x25519_basepoint()),
    ensures
        ({
            let client = channel_secret(x25519_result(c, resp.x25519_pub@), k_ss, req.session);
            &&& client.subrange(64, 80) == resp.auth_tag@
            &&& parse_record(record) == Some((client.subrange(0, 64), req.session.user_id@))
        }),
{
    assert(x25519_result(c, resp.x25519_pub@) == x25519_result(own_secret, req.x25519_pub@));
    let secret = channel_secret(x25519_result(own_secret, req.x25519_pub@), k_ss, req.session);
    record_roundtrip(secret.subrange(0, 64), req.session.user_id@, Seq::empty());
    assert(record + Seq::<u8>::empty() =~= record);
}

/// The values drawn for the handshake of `req` fit it: a 32-byte Kyber
/// shared secret and a 1568-byte ciphertext that are an encapsulation to the
/// client's Kyber key `req.kyber_pub` with some 32 random bytes.
pub open spec fn well_drawn(req: HandshakeRequest, d: Option<([u8; 32], Vec<u8>, Vec<u8>)>) -> bool {
    d matches Some((own, k_ss, ct)) ==> k_ss@.len() == 32 && ct@.len() == 1568 && exists|m: Seq<u8>|
        m.len() == 32 && #[trigger] kyber1024_encaps(req.kyber_pub@, m) == (k_ss@, ct@)
}

/// What may be drawn for a handshake step: values that fit the request
/// while the session is being checked, nothing at any other step.
pub open spec fn drawn_for(state: ChannelStep, d: Option<([u8; 32], Vec<u8>, Vec<u8>)>) -> bool {
    match state {
        ChannelStep::CheckingSession(req) => well_drawn(req, d),
        _ => d is None,
    }
}

/// The values a handshake draws: the server's X25519 secret and a Kyber
/// encapsulation to the client's key, or `None` when the X25519 draw fails
/// (a failure of the random source during the Kyber encapsulation aborts
/// the process instead).
fn draw_handshake(req: &HandshakeRequest) -> (r: Option<([u8; 32], Vec<u8>, Vec<u8>)>)
    ensures
        r is Some,
        well_drawn(*req, r),
{
    let own = match generate_x25519_sec() {
        Some(s) => s,
        None => return None,
    };
    match kyber_encapsulate(&req.kyber_pub) {
        Ok((k_ss, ct)) => Some((own, k_ss, ct)),
        Err(_) => None,
    }
}

/// Where a handshake stands.
pub enum ChannelStep {
    /// Nothing done yet.
    Start(HandshakeRequest),
    /// Waiting for the number of session rows with the request's token.
    CheckingSession(HandshakeRequest),
    /// Waiting for the cache to keep the record; the answer is ready.
    Storing(HandshakeResponse),
    /// The reply has been given.
    Finished,
}

/// What the caller reports back to a handshake.
pub enum ChannelEvent {
    /// Start the flow.
    Begin,
    /// Session rows counted with the request's token (`None`: database error).
    SessionCount(Option<i64>),
    /// Whether the cache kept the record.
    Stored(bool),
}

/// What a handshake asks the caller to do next.
pub enum ChannelAction {
    /// Count the session rows with this token.
    CheckSession { session_token: [u8; 16] },
    /// Keep `record` in the cache under `key` for `ttl_secs` seconds.
    StoreChannel { key: String, record: Vec<u8>, ttl_secs: u64 },
    /// Answer the client.
    Reply(Result<HandshakeResponse, HttpStatus>),
}

/// Seconds for which the cache keeps a handshake.
pub open spec fn channel_ttl() -> u64 {
    600
}

/// The handshake's answer once it has reached `Finished`.
pub open spec fn channel_failed(out: (ChannelStep, ChannelAction), status: HttpStatus) -> bool {
    out.0 is Finished && out.1 == ChannelAction::Reply(Err(status))
}

/// One handshake step, given the values drawn for it (used only once the
/// session is known): only a known session gets a key exchange, whose record
/// is kept in the cache under the session's key for ten minutes; the answer
/// is sent only once the cache has kept it.
pub open spec fn channel_next(
    state: ChannelStep,
    event: ChannelEvent,
    drawn: Option<([u8; 32], Vec<u8>, Vec<u8>)>,
    out: (ChannelStep, ChannelAction),
) -> bool {
    match (state, event) {
        (ChannelStep::Start(req), ChannelEvent::Begin) => out == (
            ChannelStep::CheckingSession(req),
            ChannelAction::CheckSession { session_token: req.session.session_token },
        ),
        (ChannelStep::CheckingSession(req), ChannelEvent::SessionCount(count)) => match session_known(count) {
            Err(st) => channel_failed(out, st),
            Ok(false) => channel_failed(out, HttpStatus::Unauthorized),
            Ok(true) => match drawn {
                None => channel_failed(out, HttpStatus::InternalServerError),
                Some((own, k_ss, ct)) => if ct@.len() != 1568 {
                    channel_failed(out, HttpStatus::InternalServerError)
                } else {
                    (out.1 matches ChannelAction::StoreChannel { key, record, ttl_secs } && (key@
                        == channel_key_text(req.session.session_token@) && ttl_secs == channel_ttl()
                        && (out.0 matches ChannelStep::Storing(resp) && handshake_outcome(
                        req,
                        own@,
                        k_ss@,
                        ct@,
                        resp,
                        record@,
                    ) && client_agrees(req, own@, resp))))
                },
            },
        },
        (ChannelStep::Storing(resp), ChannelEvent::Stored(kept)) => if kept {
            out == (ChannelStep::Finished, ChannelAction::Reply(Ok(resp)))
        } else {
            channel_failed(out, HttpStatus::InternalServerError)
        },
        _ => channel_failed(out, HttpStatus::InternalServerError),
    }
}

/// One step of a handshake, with the values drawn for it given: from where
/// it stands and what the caller reports, where it goes and what the caller
/// must do next.
pub fn secure_channel_with(
    state: ChannelStep,
    event: ChannelEvent,
    drawn: Option<([u8; 32], Vec<u8>, Vec<u8>)>,
) -> (out: (ChannelStep, ChannelAction))
    ensures
        channel_next(state, event, drawn, out),
{
    match (state, event) {
        (ChannelStep::Start(req), ChannelEvent::Begin) => {
            let token = req.session.session_token;
            (ChannelStep::CheckingSession(req), ChannelAction::CheckSession { session_token: token })
        },
        (ChannelStep::CheckingSession(req), ChannelEvent::SessionCount(count)) => {
            match verify_session(count) {
                Err(st) => (ChannelStep::Finished, ChannelAction::Reply(Err(st))),
                Ok(false) => (
                    ChannelStep::Finished,
                    ChannelAction::Reply(Err(HttpStatus::Unauthorized)),
                ),
                Ok(true) => match drawn {
                    None => (
                        ChannelStep::Finished,
                        ChannelAction::Reply(Err(HttpStatus::InternalServerError)),
                    ),
                    Some((own, k_ss, ct)) => match finish_handshake(
                        &req,
                        &own,
                        k_ss.as_slice(),
                        ct.as_slice(),
                    ) {
                        Err(st) => (ChannelStep::Finished, ChannelAction::Reply(Err(st))),
                        Ok((resp, record)) => {
                            let key = channel_key(&req.session.session_token);
                            (
                                ChannelStep::Storing(resp),
                                ChannelAction::StoreChannel { key, record, ttl_secs: 600 },
                            )
                        },
                    },
                },
            }
        },
        (ChannelStep::Storing(resp), ChannelEvent::Stored(kept)) => {
            if kept {
                (ChannelStep::Finished, ChannelAction::Reply(Ok(resp)))
            } else {
                (ChannelStep::Finished, ChannelAction::Reply(Err(HttpStatus::InternalServerError)))
            }
        },
        _ => (ChannelStep::Finished, ChannelAction::Reply(Err(HttpStatus::InternalServerError))),
    }
}

/// One step of a handshake: from where it stands and what the caller
/// reports, where it goes and what the caller must do next. The server's
/// secret and the Kyber encapsulation are drawn only once the session is
/// known; the step is then the one `secure_channel_with` takes for them.
pub fn secure_channel(state: ChannelStep, event: ChannelEvent) -> (out: (ChannelStep, ChannelAction))
    ensures
        exists|d: Option<([u8; 32], Vec<u8>, Vec<u8>)>|
            drawn_for(state, d) && #[trigger] channel_next(state, event, d, out) && ((state is CheckingSession
                && (event matches ChannelEvent::SessionCount(Some(n)) && n > 0)) ==> d is Some),
{
    let drawn = match (&state, &event) {
        (ChannelStep::CheckingSession(req), ChannelEvent::SessionCount(Some(n))) => {
            if *n > 0 {
                draw_handshake(req)
            } else {
                None
            }
        },
        _ => None,
    };
    let ghost before = state;
    let out = secure_channel_with(state, event, drawn);
    assert(drawn_for(before, drawn));
    out
}

/// A decrypted sync command.
pub enum SyncCommand {
    /// Fetch a stored version of the database.
    Pull { version: i32 },
    /// Store a new version of the database.
    Push { encrypted_blob: Vec<u8> },
    /// Delete the account (not offered).
    DeleteAccount,
    /// List the stored versions.
    GetVersions,
}

/// The XChaCha20-Poly1305 key of a channel: the first 32 bytes of its
/// secret.
pub fn channel_cipher_key(kdf: &[u8; 64]) -> (k: [u8; 32])
    ensures
        k@ == kdf@.subrange(0, 32),
{
    let mut k: [u8; 32] = [0u8; 32];
    let mut i: usize = 0;
    while i < 32
        invariant
            i <= 32,
            forall|j: int| 0 <= j < i ==> k@[j] == kdf@[j],
        decreases 32 - i,
    {
        k[i] = kdf[i];
        i = i + 1;
    }
    assert(k@ =~= kdf@.subrange(0, 32));
    k
}

/// The nonce read from `raw`: exactly its bytes when there are 24 of them,
/// `InternalServerError` otherwise.
pub fn nonce_from_bytes(raw: &[u8]) -> (r: Result<[u8; 24], HttpStatus>)
    ensures
        r is Ok <==> raw@.len() == 24,
        r matches Ok(n) ==> n@ == raw@,
        r is Err ==> r == Err::<[u8; 24], HttpStatus>(HttpStatus::InternalServerError),
{
    match bytes_to_array(raw) {
        Some(n) => Ok(n),
        None => Err(HttpStatus::InternalServerError),
    }
}

/// A fresh nonce of 24 bytes from the operating system's random source;
/// `InternalServerError` when that source fails. Which bytes are drawn, and
/// that they differ from earlier nonces, rest on the random source and are
/// not stated.
pub fn generate_nonce() -> (r: Result<[u8; 24], HttpStatus>)
    ensures
        r is Ok,
        r is Err ==> r == Err::<[u8; 24], HttpStatus>(HttpStatus::InternalServerError),
{
    match random_bytes(24) {
        Some(raw) => nonce_from_bytes(raw.as_slice()),
        None => Err(HttpStatus::InternalServerError),
    }
}

/// The reply that seals `payload` under `key` with the nonce `nonce`: the
/// nonce and the XChaCha20-Poly1305 ciphertext, which opens to the payload;
/// `InternalServerError` when the payload is too long for the cipher.
pub open spec fn sealed_with(r: Result<SyncResponse, HttpStatus>, key: Seq<u8>, nonce: [u8; 24], payload: Seq<u8>) -> bool {
    if payload.len() / 64 < aead_max_blocks() {
        r matches Ok(resp) && resp.nonce == nonce && resp.ciphertext@ == xchacha20poly1305_seal(
            key,
            nonce@,
            payload,
        ) && xchacha20poly1305_open(key, nonce@, resp.ciphertext@) == Some(payload)
    } else {
        r == Err::<SyncResponse, HttpStatus>(HttpStatus::InternalServerError)
    }
}

/// The reply that seals `payload` under `key` with the drawn nonce, or
/// `InternalServerError` when no nonce could be drawn.
pub open spec fn sealed_as(r: Result<SyncResponse, HttpStatus>, key: Seq<u8>, drawn: Option<[u8; 24]>, payload: Seq<u8>) -> bool {
    match drawn {
        None => r == Err::<SyncResponse, HttpStatus>(HttpStatus::InternalServerError),
        Some(n) => sealed_with(r, key, n, payload),
    }
}

/// Seals `payload` for the client under `key` with the nonce `nonce`.
pub fn seal_with_nonce(key: &[u8; 32], nonce: [u8; 24], payload: &[u8]) -> (r: Result<SyncResponse, HttpStatus>)
    ensures
        r is Ok <==> payload@.len() / 64 < aead_max_blocks(),
        sealed_with(r, key@, nonce, payload@),
{
    match aead_seal(key, &nonce, payload) {
        Ok(ciphertext) => Ok(SyncResponse { nonce, ciphertext }),
        Err(_) => Err(HttpStatus::InternalServerError),
    }
}

fn draw_nonce() -> (r: Option<[u8; 24]>)
    ensures
        r is Some,
{
    match generate_nonce() {
        Ok(n) => Some(n),
        Err(_) => None,
    }
}

/// Where a sync request stands.
pub enum SyncStep {
    /// Nothing done yet.
    Start(SyncRequest),
    /// Waiting for the cached handshake of the request's session.
    FetchingChannel(SyncRequest),
    /// Waiting for the decrypted command to be parsed.
    ReadingCommand { session: Session, key: [u8; 32], user_id: [u8; 16] },
    /// Pull: waiting to learn whether the user's directory can be listed.
    ListingDir { key: [u8; 32], user_id: [u8; 16], version: i32 },
    /// Pull: waiting for the stored file.
    ReadingFile { key: [u8; 32] },
    /// Push: waiting for the user's directory to be created.
    CreatingDir { session: Session, key: [u8; 32], user_id: [u8; 16], blob: Vec<u8> },
    /// Push: waiting for the upload to be written.
    WritingUpload { session: Session, key: [u8; 32], user_id: [u8; 16], upload: String },
    /// Push: waiting for the database to number the new version.
    RegisteringVersion { key: [u8; 32], user_id: [u8; 16], upload: String },
    /// Push: waiting for the upload to be renamed after its version.
    Renaming { key: [u8; 32], version: i32, server_time: i64 },
    /// Waiting for the list of versions.
    FetchingVersions { key: [u8; 32] },
    /// The reply has been given.
    Finished,
}

/// What the caller reports back to a sync request.
pub enum SyncEvent {
    /// Start the flow.
    Begin,
    /// The cached record (`None`: cache error; `Some(None)`: no entry).
    ChannelFetched(Option<Option<Vec<u8>>>),
    /// The parsed command (`None`: the plaintext is not a command).
    CommandParsed(Option<SyncCommand>),
    /// Whether the directory could be listed.
    DirListed(bool),
    /// The file's contents (`None`: it could not be read) and the time now.
    FileRead { contents: Option<Vec<u8>>, now: i64 },
    /// Whether the directory was created.
    DirCreated(bool),
    /// Whether the upload was written.
    UploadWritten(bool),
    /// The new version's number and time (`None`: database error).
    VersionRegistered(Option<(i32, i64)>),
    /// Whether the upload was renamed.
    Renamed(bool),
    /// The user's versions in ascending order (`None`: database error).
    VersionsFetched(Option<Vec<i32>>),
}

/// What a sync request asks the caller to do next.
pub enum SyncAction {
    /// Read the cache entry under `key`.
    FetchChannel { key: String },
    /// Parse the decrypted command.
    ParseCommand { plaintext: Vec<u8> },
    /// List the directory `path`.
    ListDir { path: String },
    /// Read the file `path`.
    ReadFile { path: String },
    /// Create the directory `path` and its parents.
    CreateDirAll { path: String },
    /// Write `contents` to the file `path`.
    WriteFile { path: String, contents: Vec<u8> },
    /// Record a new version of `user_id`'s database stored at `file_path`.
    RegisterVersion { user_id: [u8; 16], file_path: String },
    /// Rename the file `from` to `to`.
    Rename { from: String, to: String },
    /// List the stored versions of `user_id`.
    FetchVersions { user_id: [u8; 16] },
    /// Answer the client.
    Reply(Result<SyncResponse, HttpStatus>),
}

/// The sync request's answer once it has reached `Finished`.
pub open spec fn sync_failed(out: (SyncStep, SyncAction), status: HttpStatus) -> bool {
    out.0 is Finished && out.1 == SyncAction::Reply(Err(status))
}

/// The sync request has reached `Finished` with `payload` sealed under `key`.
pub open spec fn sync_sealed(out: (SyncStep, SyncAction), key: Seq<u8>, drawn: Option<[u8; 24]>, payload: Seq<u8>) -> bool {
    out.0 is Finished && (out.1 matches SyncAction::Reply(r) && sealed_as(r, key, drawn, payload))
}

/// What follows from the cached record: a missing entry is `Unauthorized`,
/// an unreadable record or a command that does not decrypt under the
/// record's key is `InternalServerError`, and otherwise the plaintext goes
/// to be parsed.
pub open spec fn after_channel_fetched(req: SyncRequest, fetched: Option<Option<Vec<u8>>>, out: (SyncStep, SyncAction)) -> bool {
    match fetched {
        None => sync_failed(out, HttpStatus::Unauthorized),
        Some(None) => sync_failed(out, HttpStatus::Unauthorized),
        Some(Some(bytes)) => match parse_record(bytes@) {
            None => sync_failed(out, HttpStatus::InternalServerError),
            Some((kdf, uid)) => match xchacha20poly1305_open(kdf.subrange(0, 32), req.nonce@, req.ciphertext@) {
                None => sync_failed(out, HttpStatus::InternalServerError),
                Some(plain) => (out.1 matches SyncAction::ParseCommand { plaintext } && plaintext@
                    == plain) && (out.0 matches SyncStep::ReadingCommand { session, key, user_id }
                    && session == req.session && key@ == kdf.subrange(0, 32) && user_id@ == uid),
            },
        },
    }
}

fn on_channel_fetched(req: SyncRequest, fetched: Option<Option<Vec<u8>>>) -> (out: (SyncStep, SyncAction))
    ensures
        after_channel_fetched(req, fetched, out),
{
    let bytes = match fetched {
        None => return (SyncStep::Finished, SyncAction::Reply(Err(HttpStatus::Unauthorized))),
        Some(None) => return (SyncStep::Finished, SyncAction::Reply(Err(HttpStatus::Unauthorized))),
        Some(Some(b)) => b,
    };
    let record = match RedisInternal::from_bytes(bytes.as_slice()) {
        Some(r) => r,
        None => return (SyncStep::Finished, SyncAction::Reply(Err(HttpStatus::InternalServerError))),
    };
    let key = channel_cipher_key(&record.kdf);
    match aead_open(&key, &req.nonce, req.ciphertext.as_slice()) {
        Err(_) => (SyncStep::Finished, SyncAction::Reply(Err(HttpStatus::InternalServerError))),
        Ok(plaintext) => (
            SyncStep::ReadingCommand { session: req.session, key, user_id: record.user_id },
            SyncAction::ParseCommand { plaintext },
        ),
    }
}

/// What follows from the parsed command: pull lists the user's directory,
/// push creates it, a version listing asks the database for the session
/// user's versions; account deletion is not offered and anything that is
/// not a command is `BadRequest`.
pub open spec fn after_command(session: Session, key: [u8; 32], uid: [u8; 16], cmd: Option<SyncCommand>, out: (SyncStep, SyncAction)) -> bool {
    match cmd {
        None => sync_failed(out, HttpStatus::BadRequest),
        Some(SyncCommand::Pull { version }) => (out.1 matches SyncAction::ListDir { path } && path@
            == user_dir_text(uid@)) && out.0 == SyncStep::ListingDir { key, user_id: uid, version },
        Some(SyncCommand::Push { encrypted_blob }) => (out.1 matches SyncAction::CreateDirAll { path }
            && path@ == user_dir_text(uid@)) && out.0 == SyncStep::CreatingDir {
            session,
            key,
            user_id: uid,
            blob: encrypted_blob,
        },
        Some(SyncCommand::GetVersions) => out == (
            SyncStep::FetchingVersions { key },
            SyncAction::FetchVersions { user_id: session.user_id },
        ),
        Some(SyncCommand::DeleteAccount) => sync_failed(out, HttpStatus::NotImplemented),
    }
}

fn on_command(session: Session, key: [u8; 32], uid: [u8; 16], cmd: Option<SyncCommand>) -> (out: (SyncStep, SyncAction))
    ensures
        after_command(session, key, uid, cmd, out),
{
    match cmd {
        None => (SyncStep::Finished, SyncAction::Reply(Err(HttpStatus::BadRequest))),
        Some(SyncCommand::Pull { version }) => {
            let path = user_dir(&uid);
            (SyncStep::ListingDir { key, user_id: uid, version }, SyncAction::ListDir { path })
        },
        Some(SyncCommand::Push { encrypted_blob }) => {
            let path = user_dir(&uid);
            (
                SyncStep::CreatingDir { session, key, user_id: uid, blob: encrypted_blob },
                SyncAction::CreateDirAll { path },
            )
        },
        Some(SyncCommand::GetVersions) => {
            let user_id = session.user_id;
            (SyncStep::FetchingVersions { key }, SyncAction::FetchVersions { user_id })
        },
        Some(SyncCommand::DeleteAccount) => (
            SyncStep::Finished,
            SyncAction::Reply(Err(HttpStatus::NotImplemented)),
        ),
    }
}

/// The step a sync request takes, given the nonce drawn for a sealed reply
/// (`None` when the random source failed). Every reply that
/// carries data is sealed under the first 32 bytes of the secret cached for
/// the request's session with the drawn nonce; pull reads
/// `storage/<user>/<version>.bin`, push writes
/// `storage/<user>/upload_<token>.bin` and renames it after the version the
/// database assigns.
pub open spec fn sync_next(
    state: SyncStep,
    event: SyncEvent,
    drawn: Option<[u8; 24]>,
    out: (SyncStep, SyncAction),
) -> bool {
    match (state, event) {
        (SyncStep::Start(req), SyncEvent::Begin) => (out.1 matches SyncAction::FetchChannel { key }
            && key@ == channel_key_text(req.session.session_token@)) && out.0
            == SyncStep::FetchingChannel(req),
        (SyncStep::FetchingChannel(req), SyncEvent::ChannelFetched(fetched)) => after_channel_fetched(
            req,
            fetched,
            out,
        ),
        (
            SyncStep::ReadingCommand { session, key, user_id },
            SyncEvent::CommandParsed(cmd),
        ) => after_command(session, key, user_id, cmd, out),
        (SyncStep::ListingDir { key, user_id, version }, SyncEvent::DirListed(listed)) => if listed {
            (out.1 matches SyncAction::ReadFile { path } && path@ == version_path_text(
                user_id@,
                version as int,
            )) && out.0 == SyncStep::ReadingFile { key }
        } else {
            sync_failed(out, HttpStatus::NotFound)
        },
        (SyncStep::ReadingFile { key }, SyncEvent::FileRead { contents, now }) => match contents {
            None => sync_failed(out, HttpStatus::NotFound),
            Some(file) => sync_sealed(out, key@, drawn, pull_reply_layout(file@, now as int)),
        },
        (
            SyncStep::CreatingDir { session, key, user_id, blob },
            SyncEvent::DirCreated(created),
        ) => if created {
            (out.1 matches SyncAction::WriteFile { path, contents } && path@ == upload_path_text(
                user_id@,
                session.session_token@,
            ) && contents == blob) && (out.0 matches SyncStep::WritingUpload {
                session: s2,
                key: k2,
                user_id: u2,
                upload,
            } && s2 == session && k2 == key && u2 == user_id && upload@ == upload_path_text(
                user_id@,
                session.session_token@,
            ))
        } else {
            sync_failed(out, HttpStatus::InternalServerError)
        },
        (
            SyncStep::WritingUpload { session, key, user_id, upload },
            SyncEvent::UploadWritten(written),
        ) => if written {
            out == (
                SyncStep::RegisteringVersion { key, user_id, upload },
                SyncAction::RegisterVersion { user_id: session.user_id, file_path: upload },
            )
        } else {
            sync_failed(out, HttpStatus::InternalServerError)
        },
        (
            SyncStep::RegisteringVersion { key, user_id, upload },
            SyncEvent::VersionRegistered(registered),
        ) => match registered {
            None => sync_failed(out, HttpStatus::InternalServerError),
            Some((version, server_time)) => (out.1 matches SyncAction::Rename { from, to } && from
                == upload && to@ == version_path_text(user_id@, version as int)) && out.0
                == SyncStep::Renaming { key, version, server_time },
        },
        (SyncStep::Renaming { key, version, server_time }, SyncEvent::Renamed(renamed)) => if renamed {
            sync_sealed(out, key@, drawn, push_reply_layout(version as int, server_time as int))
        } else {
            sync_failed(out, HttpStatus::InternalServerError)
        },
        (SyncStep::FetchingVersions { key }, SyncEvent::VersionsFetched(versions)) => match versions {
            None => sync_failed(out, HttpStatus::InternalServerError),
            Some(vs) => sync_sealed(out, key@, drawn, versions_layout(vs@)),
        },
        _ => sync_failed(out, HttpStatus::InternalServerError),
    }
}

fn seal_drawn(key: &[u8; 32], drawn: Option<[u8; 24]>, payload: &[u8]) -> (r: Result<SyncResponse, HttpStatus>)
    ensures
        sealed_as(r, key@, drawn, payload@),
{
    match drawn {
        None => Err(HttpStatus::InternalServerError),
        Some(n) => seal_with_nonce(key, n, payload),
    }
}

/// One step of a sync request, with the nonce drawn for a sealed reply
/// given: from where it stands and what the caller reports, where it goes
/// and what the caller must do next.
pub fn sync_with_nonce(state: SyncStep, event: SyncEvent, drawn: Option<[u8; 24]>) -> (out: (SyncStep, SyncAction))
    ensures
        sync_next(state, event, drawn, out),
{
    match (state, event) {
        (SyncStep::Start(req), SyncEvent::Begin) => {
            let key = channel_key(&req.session.session_token);
            (SyncStep::FetchingChannel(req), SyncAction::FetchChannel { key })
        },
        (SyncStep::FetchingChannel(req), SyncEvent::ChannelFetched(fetched)) => on_channel_fetched(
            req,
            fetched,
        ),
        (SyncStep::ReadingCommand { session, key, user_id }, SyncEvent::CommandParsed(cmd)) => {
            on_command(session, key, user_id, cmd)
        },
        (SyncStep::ListingDir { key, user_id, version }, SyncEvent::DirListed(listed)) => {
            if listed {
                let path = version_path(&user_id, version);
                (SyncStep::ReadingFile { key }, SyncAction::ReadFile { path })
            } else {
                (SyncStep::Finished, SyncAction::Reply(Err(HttpStatus::NotFound)))
            }
        },
        (SyncStep::ReadingFile { key }, SyncEvent::FileRead { contents, now }) => match contents {
            None => (SyncStep::Finished, SyncAction::Reply(Err(HttpStatus::NotFound))),
            Some(file) => {
                let payload = encode_pull_reply(file.as_slice(), now);
                (SyncStep::Finished, SyncAction::Reply(seal_drawn(&key, drawn, payload.as_slice())))
            },
        },
        (SyncStep::CreatingDir { session, key, user_id, blob }, SyncEvent::DirCreated(created)) => {
            if created {
                let path = upload_path(&user_id, &session.session_token);
                let upload = path.clone();
                (
                    SyncStep::WritingUpload { session, key, user_id, upload },
                    SyncAction::WriteFile { path, contents: blob },
                )
            } else {
                (SyncStep::Finished, SyncAction::Reply(Err(HttpStatus::InternalServerError)))
            }
        },
        (SyncStep::WritingUpload { session, key, user_id, upload }, SyncEvent::UploadWritten(written)) => {
            if written {
                let file_path = upload.clone();
                (
                    SyncStep::RegisteringVersion { key, user_id, upload },
                    SyncAction::RegisterVersion { user_id: session.user_id, file_path },
                )
            } else {
                (SyncStep::Finished, SyncAction::Reply(Err(HttpStatus::InternalServerError)))
            }
        },
        (
            SyncStep::RegisteringVersion { key, user_id, upload },
            SyncEvent::VersionRegistered(registered),
        ) => match registered {
            None => (SyncStep::Finished, SyncAction::Reply(Err(HttpStatus::InternalServerError))),
            Some((version, server_time)) => {
                let to = version_path(&user_id, version);
                (
                    SyncStep::Renaming { key, version, server_time },
                    SyncAction::Rename { from: upload, to },
                )
            },
        },
        (SyncStep::Renaming { key, version, server_time }, SyncEvent::Renamed(renamed)) => {
            if renamed {
                let payload = encode_push_reply(version, server_time);
                (SyncStep::Finished, SyncAction::Reply(seal_drawn(&key, drawn, payload.as_slice())))
            } else {
                (SyncStep::Finished, SyncAction::Reply(Err(HttpStatus::InternalServerError)))
            }
        },
        (SyncStep::FetchingVersions { key }, SyncEvent::VersionsFetched(versions)) => match versions {
            None => (SyncStep::Finished, SyncAction::Reply(Err(HttpStatus::InternalServerError))),
            Some(vs) => {
                let payload = encode_versions(vs.as_slice());
                (SyncStep::Finished, SyncAction::Reply(seal_drawn(&key, drawn, payload.as_slice())))
            },
        },
        _ => (SyncStep::Finished, SyncAction::Reply(Err(HttpStatus::InternalServerError))),
    }
}

/// One step of a sync request: from where it stands and what the caller
/// reports, where it goes and what the caller must do next. A nonce is drawn
/// only for a step that answers with sealed data; the step is then the one
/// `sync_with_nonce` takes for that nonce. That the nonce is fresh rests on
/// the random source and is not stated.
pub fn sync(state: SyncStep, event: SyncEvent) -> (out: (SyncStep, SyncAction))
    ensures
        exists|drawn: Option<[u8; 24]>|
            #[trigger] sync_next(state, event, drawn, out) && ((state is ReadingFile
                && event matches SyncEvent::FileRead { contents: Some(_), now: _ }) || (state is Renaming
                && event == SyncEvent::Renamed(true)) || (state is FetchingVersions
                && event matches SyncEvent::VersionsFetched(Some(_))) ==> drawn is Some),
{
    let seals: bool = match (&state, &event) {
        (SyncStep::ReadingFile { .. }, SyncEvent::FileRead { contents: Some(_), .. }) => true,
        (SyncStep::Renaming { .. }, SyncEvent::Renamed(true)) => true,
        (SyncStep::FetchingVersions { .. }, SyncEvent::VersionsFetched(Some(_))) => true,
        _ => false,
    };
    let drawn = if seals {
        draw_nonce()
    } else {
        None
    };
    sync_with_nonce(state, event, drawn)
}

/// A sync request whose command the client sealed under the key of a
/// handshake reads that command: given the record the handshake kept for
/// the session, the step that follows the cache read asks for exactly the
/// client's plaintext to be parsed, and goes on with the first 32 bytes of
/// the handshake's secret as its key and the session's user.
pub proof fn sync_reads_command_sealed_under_handshake_key(
    hreq: HandshakeRequest,
    own_secret: Seq<u8>,
    k_ss: Seq<u8>,
    ct: Seq<u8>,
    resp: HandshakeResponse,
    record: Seq<u8>,
    sreq: SyncRequest,
    cached: Vec<u8>,
    command: Seq<u8>,
    drawn: Option<[u8; 24]>,
    out: (SyncStep, SyncAction),
)
    requires
        handshake_outcome(hreq, own_secret, k_ss, ct, resp, record),
        cached@ == record,
        xchacha20poly1305_open(
            channel_secret(x25519_result(own_secret, hreq.x25519_pub@), k_ss, hreq.session).subrange(0, 32),
            sreq.nonce@,
            sreq.ciphertext@,
        ) == Some(command),
        sync_next(SyncStep::FetchingChannel(sreq), SyncEvent::ChannelFetched(Some(Some(cached))), drawn, out),
    ensures
        out.1 matches SyncAction::ParseCommand { plaintext } && plaintext@ == command,
        out.0 matches SyncStep::ReadingCommand { session, key, user_id } && session == sreq.session
            && key@ == channel_secret(x25519_result(own_secret, hreq.x25519_pub@), k_ss, hreq.session).subrange(0, 32)
            && user_id@ == hreq.session.user_id@,
{
    let secret = channel_secret(x25519_result(own_secret, hreq.x25519_pub@), k_ss, hreq.session);
    handshake_record_reads_back(hreq, own_secret, k_ss, ct, resp, record, Seq::empty());
    assert(record + Seq::<u8>::empty() =~= record);
    assert(secret.subrange(0, 64).subrange(0, 32) =~= secret.subrange(0, 32));
}

/// A version listing with a drawn nonce is answered with the list sealed
/// under the channel key and that nonce, whatever the list (an empty one
/// too), as long as it fits the cipher: opening the reply gives the list's
/// layout back.
pub proof fn versions_listing_is_answered(
    key: [u8; 32],
    vs: Vec<i32>,
    n: [u8; 24],
    out: (SyncStep, SyncAction),
)
    requires
        sync_next(SyncStep::FetchingVersions { key }, SyncEvent::VersionsFetched(Some(vs)), Some(n), out),
        versions_layout(vs@).len() / 64 < aead_max_blocks(),
    ensures
        out.0 is Finished,
        out.1 matches SyncAction::Reply(Ok(resp)) && resp.nonce == n && xchacha20poly1305_open(
            key@,
            n@,
            resp.ciphertext@,
        ) == Some(versions_layout(vs@)),
{
}

/// A pull whose file was read, with a drawn nonce, is answered with the file
/// and the time sealed under the channel key and that nonce, as long as it
/// fits the cipher.
pub proof fn pull_is_answered(
    key: [u8; 32],
    file: Vec<u8>,
    now: i64,
    n: [u8; 24],
    out: (SyncStep, SyncAction),
)
    requires
        sync_next(SyncStep::ReadingFile { key }, SyncEvent::FileRead { contents: Some(file), now }, Some(n), out),
        pull_reply_layout(file@, now as int).len() / 64 < aead_max_blocks(),
    ensures
        out.0 is Finished,
        out.1 matches SyncAction::Reply(Ok(resp)) && resp.nonce == n && xchacha20poly1305_open(
            key@,
            n@,
            resp.ciphertext@,
        ) == Some(pull_reply_layout(file@, now as int)),
{
}

/// A push whose upload was renamed, with a drawn nonce, is answered with the
/// new version and the time sealed under the channel key and that nonce.
pub proof fn push_is_answered(
    key: [u8; 32],
    version: i32,
    server_time: i64,
    n: [u8; 24],
    out: (SyncStep, SyncAction),
)
    requires
        sync_next(SyncStep::Renaming { key, version, server_time }, SyncEvent::Renamed(true), Some(n), out),
        push_reply_layout(version as int, server_time as int).len() / 64 < aead_max_blocks(),
    ensures
        out.0 is Finished,
        out.1 matches SyncAction::Reply(Ok(resp)) && resp.nonce == n && xchacha20poly1305_open(
            key@,
            n@,
            resp.ciphertext@,
        ) == Some(push_reply_layout(version as int, server_time as int)),
{
}

} // verus!
