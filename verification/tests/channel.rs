use bice_server::api::{error_reply, get_user, ApiError};
use bice_server::registration::Session;
use bice_server::status::HttpStatus;
use bice_server::wire::bytes_to_array;
use bice_server::trust_channel::{
    derive_channel, finish_handshake, generate_nonce, generate_x25519_sec,
    handshake_transcript, nonce_from_bytes, seal_with_nonce, secure_channel, secure_channel_with,
    split_channel_secret, sync, sync_with_nonce, ChannelAction, ChannelEvent, ChannelStep,
    HandshakeRequest, RedisInternal, SyncAction, SyncCommand, SyncEvent, SyncRequest, SyncStep,
};
use chacha20poly1305::aead::{Aead, KeyInit, OsRng};
use chacha20poly1305::{Key, XChaCha20Poly1305, XNonce};
use pqcrypto_traits::kem::{Ciphertext, PublicKey, SharedSecret};
use tiny_keccak::{Hasher, Shake, Xof};

fn session() -> Session {
    Session {
        session_token: *uuid::Uuid::parse_str("0192f3a4-b5c6-4d7e-8f90-a1b2c3d4e5f6").unwrap().as_bytes(),
        session_id: 42,
        user_id: *uuid::Uuid::parse_str("67e55044-10b1-426f-9247-bb680e5fe0c8").unwrap().as_bytes(),
    }
}

fn client_kdf(x_ss: &[u8], k_ss: &[u8], s: &Session) -> ([u8; 64], [u8; 16]) {
    let mut h = Shake::v256();
    h.update(b"BICE_v1_Handshake_SHAKE256");
    h.update(x_ss);
    h.update(k_ss);
    h.update(&s.session_token);
    h.update(&s.session_id.to_le_bytes());
    h.update(&s.user_id);
    let mut kdf = [0u8; 64];
    h.squeeze(&mut kdf);
    let mut tag = [0u8; 16];
    h.squeeze(&mut tag);
    (kdf, tag)
}

#[test]
fn key_schedule_matches_two_squeezes() {
    let s = session();
    let x_ss = [3u8; 32];
    let k_ss = [4u8; 32];
    let (kdf, tag) = derive_channel(&x_ss, &k_ss, &s);
    assert_eq!((kdf, tag), client_kdf(&x_ss, &k_ss, &s));
    let (kdf2, _) = derive_channel(&[5u8; 32], &k_ss, &s);
    assert_ne!(kdf, kdf2);
}

#[test]
fn transcript_bytes() {
    let s = session();
    let t = handshake_transcript(&[1u8; 32], &[2u8; 32], &s);
    let mut expected = b"BICE_v1_Handshake_SHAKE256".to_vec();
    expected.extend_from_slice(&[1u8; 32]);
    expected.extend_from_slice(&[2u8; 32]);
    expected.extend_from_slice(&s.session_token);
    expected.extend_from_slice(&42i32.to_le_bytes());
    expected.extend_from_slice(&s.user_id);
    assert_eq!(t, expected);
    assert_eq!(t.len(), 26 + 32 + 32 + 16 + 4 + 16);
}

#[test]
fn secret_split() {
    let out: Vec<u8> = (0u8..80).collect();
    let (kdf, tag) = split_channel_secret(&out);
    assert_eq!(&kdf[..], &out[..64]);
    assert_eq!(&tag[..], &out[64..]);
}

/// Runs a handshake as a client would, and returns the key the server kept.
fn handshake() -> [u8; 64] {
    let s = session();
    let client_x = x25519_dalek::EphemeralSecret::random_from_rng(OsRng);
    let client_x_pub = x25519_dalek::PublicKey::from(&client_x);
    let (kyber_pk, kyber_sk) = pqcrypto_kyber::kyber1024::keypair();
    let mut kyber_pub = [0u8; 1568];
    kyber_pub.copy_from_slice(kyber_pk.as_bytes());
    let req = HandshakeRequest { session: session(), kyber_pub, x25519_pub: *client_x_pub.as_bytes() };

    let (state, action) = secure_channel(ChannelStep::Start(req), ChannelEvent::Begin);
    match action {
        ChannelAction::CheckSession { session_token } => assert_eq!(session_token, s.session_token),
        _ => panic!("expected a session check"),
    }
    let (state, action) = secure_channel(state, ChannelEvent::SessionCount(Some(1)));
    let record = match action {
        ChannelAction::StoreChannel { key, record, ttl_secs } => {
            assert_eq!(key, "bice:hs:0192f3a4-b5c6-4d7e-8f90-a1b2c3d4e5f6");
            assert_eq!(ttl_secs, 600);
            record
        }
        _ => panic!("expected the channel to be stored"),
    };
    let (state, action) = secure_channel(state, ChannelEvent::Stored(true));
    assert!(matches!(state, ChannelStep::Finished));
    let resp = match action {
        ChannelAction::Reply(Ok(resp)) => resp,
        _ => panic!("expected the handshake answer"),
    };

    // the client derives the same secret and checks the tag
    let x_ss = client_x.diffie_hellman(&x25519_dalek::PublicKey::from(resp.x25519_pub));
    let ct = pqcrypto_kyber::kyber1024::Ciphertext::from_bytes(&resp.cipher_text).unwrap();
    let k_ss = pqcrypto_kyber::kyber1024::decapsulate(&ct, &kyber_sk);
    let (kdf, tag) = client_kdf(x_ss.as_bytes(), k_ss.as_bytes(), &s);
    assert_eq!(resp.auth_tag, tag);

    // what the server kept reads back as that secret and the session's user
    let kept = RedisInternal::from_bytes(&record).unwrap();
    assert_eq!(kept.kdf, kdf);
    assert_eq!(kept.user_id, s.user_id);
    assert_eq!(kept.to_bytes(), record);
    kdf
}

#[test]
fn handshake_refuses_unknown_sessions() {
    let req = HandshakeRequest { session: session(), kyber_pub: [0; 1568], x25519_pub: [0; 32] };
    let (state, _) = secure_channel(ChannelStep::Start(req), ChannelEvent::Begin);
    let (state, action) = secure_channel(state, ChannelEvent::SessionCount(Some(0)));
    assert!(matches!(state, ChannelStep::Finished));
    assert!(matches!(action, ChannelAction::Reply(Err(HttpStatus::Unauthorized))));
    let req = HandshakeRequest { session: session(), kyber_pub: [0; 1568], x25519_pub: [0; 32] };
    let (state, _) = secure_channel(ChannelStep::Start(req), ChannelEvent::Begin);
    let (_, action) = secure_channel(state, ChannelEvent::SessionCount(None));
    assert!(matches!(action, ChannelAction::Reply(Err(HttpStatus::InternalServerError))));
}

#[test]
fn handshake_fails_when_the_cache_does() {
    let client_x = x25519_dalek::EphemeralSecret::random_from_rng(OsRng);
    let (kyber_pk, _) = pqcrypto_kyber::kyber1024::keypair();
    let mut kyber_pub = [0u8; 1568];
    kyber_pub.copy_from_slice(kyber_pk.as_bytes());
    let req = HandshakeRequest {
        session: session(),
        kyber_pub,
        x25519_pub: *x25519_dalek::PublicKey::from(&client_x).as_bytes(),
    };
    let (state, _) = secure_channel(ChannelStep::Start(req), ChannelEvent::Begin);
    let (state, _) = secure_channel(state, ChannelEvent::SessionCount(Some(2)));
    let (_, action) = secure_channel(state, ChannelEvent::Stored(false));
    assert!(matches!(action, ChannelAction::Reply(Err(HttpStatus::InternalServerError))));
}

fn client_encrypt(kdf: &[u8; 64], nonce: &[u8; 24], plain: &[u8]) -> Vec<u8> {
    XChaCha20Poly1305::new(Key::from_slice(&kdf[..32])).encrypt(XNonce::from_slice(nonce), plain).unwrap()
}

fn client_decrypt(kdf: &[u8; 64], nonce: &[u8; 24], ct: &[u8]) -> Vec<u8> {
    XChaCha20Poly1305::new(Key::from_slice(&kdf[..32])).decrypt(XNonce::from_slice(nonce), ct).unwrap()
}

/// Starts a sync request carrying `command` and brings it to the point
/// where the command is parsed.
fn sync_until_command(kdf: &[u8; 64], command: &[u8]) -> SyncStep {
    let nonce = [11u8; 24];
    let req = SyncRequest { session: session(), nonce, ciphertext: client_encrypt(kdf, &nonce, command), timestamp: 0 };
    let (state, action) = sync(SyncStep::Start(req), SyncEvent::Begin);
    match action {
        SyncAction::FetchChannel { key } => assert_eq!(key, "bice:hs:0192f3a4-b5c6-4d7e-8f90-a1b2c3d4e5f6"),
        _ => panic!("expected a cache read"),
    }
    let record = RedisInternal { kdf: *kdf, user_id: session().user_id }.to_bytes();
    let (state, action) = sync(state, SyncEvent::ChannelFetched(Some(Some(record))));
    match action {
        SyncAction::ParseCommand { plaintext } => assert_eq!(plaintext, command),
        _ => panic!("expected the command to be parsed"),
    }
    state
}

#[test]
fn pull_after_handshake() {
    let kdf = handshake();
    let state = sync_until_command(&kdf, br#"{"type":"Pull","version":3}"#);
    let (state, action) = sync(state, SyncEvent::CommandParsed(Some(SyncCommand::Pull { version: 3 })));
    match action {
        SyncAction::ListDir { path } => assert_eq!(path, "storage/67e55044-10b1-426f-9247-bb680e5fe0c8"),
        _ => panic!("expected a directory listing"),
    }
    let (state, action) = sync(state, SyncEvent::DirListed(true));
    match action {
        SyncAction::ReadFile { path } => assert_eq!(path, "storage/67e55044-10b1-426f-9247-bb680e5fe0c8/3.bin"),
        _ => panic!("expected a file read"),
    }
    let (state, action) = sync(state, SyncEvent::FileRead { contents: Some(vec![1, 2, 3]), now: 1_700_000_000 });
    assert!(matches!(state, SyncStep::Finished));
    match action {
        SyncAction::Reply(Ok(resp)) => {
            let plain = client_decrypt(&kdf, &resp.nonce, &resp.ciphertext);
            assert_eq!(plain, postcard::to_allocvec(&("OK", vec![1u8, 2, 3], 1_700_000_000i64)).unwrap());
        }
        _ => panic!("expected a sealed reply"),
    }
}

#[test]
fn pull_of_missing_file_is_not_found() {
    let kdf = [8u8; 64];
    let state = sync_until_command(&kdf, b"pull");
    let (state, _) = sync(state, SyncEvent::CommandParsed(Some(SyncCommand::Pull { version: 1 })));
    let (_, action) = sync(state, SyncEvent::DirListed(false));
    assert!(matches!(action, SyncAction::Reply(Err(HttpStatus::NotFound))));
    let state = sync_until_command(&kdf, b"pull");
    let (state, _) = sync(state, SyncEvent::CommandParsed(Some(SyncCommand::Pull { version: 1 })));
    let (state, _) = sync(state, SyncEvent::DirListed(true));
    let (_, action) = sync(state, SyncEvent::FileRead { contents: None, now: 0 });
    assert!(matches!(action, SyncAction::Reply(Err(HttpStatus::NotFound))));
}

#[test]
fn push_flow() {
    let kdf = [21u8; 64];
    let state = sync_until_command(&kdf, b"push");
    let (state, action) = sync(state, SyncEvent::CommandParsed(Some(SyncCommand::Push { encrypted_blob: vec![4, 5] })));
    match action {
        SyncAction::CreateDirAll { path } => assert_eq!(path, "storage/67e55044-10b1-426f-9247-bb680e5fe0c8"),
        _ => panic!("expected directory creation"),
    }
    let (state, action) = sync(state, SyncEvent::DirCreated(true));
    let upload = "storage/67e55044-10b1-426f-9247-bb680e5fe0c8/upload_0192f3a4-b5c6-4d7e-8f90-a1b2c3d4e5f6.bin";
    match action {
        SyncAction::WriteFile { path, contents } => {
            assert_eq!(path, upload);
            assert_eq!(contents, vec![4, 5]);
        }
        _ => panic!("expected the upload"),
    }
    let (state, action) = sync(state, SyncEvent::UploadWritten(true));
    match action {
        SyncAction::RegisterVersion { user_id, file_path } => {
            assert_eq!(user_id, session().user_id);
            assert_eq!(file_path, upload);
        }
        _ => panic!("expected the version to be registered"),
    }
    let (state, action) = sync(state, SyncEvent::VersionRegistered(Some((4, 1_700_000_123))));
    match action {
        SyncAction::Rename { from, to } => {
            assert_eq!(from, upload);
            assert_eq!(to, "storage/67e55044-10b1-426f-9247-bb680e5fe0c8/4.bin");
        }
        _ => panic!("expected the rename"),
    }
    let (_, action) = sync(state, SyncEvent::Renamed(true));
    match action {
        SyncAction::Reply(Ok(resp)) => {
            let plain = client_decrypt(&kdf, &resp.nonce, &resp.ciphertext);
            assert_eq!(plain, postcard::to_allocvec(&("OK", 4i32, 1_700_000_123i64)).unwrap());
        }
        _ => panic!("expected a sealed reply"),
    }
}

#[test]
fn versions_and_unsupported_commands() {
    let kdf = [33u8; 64];
    let state = sync_until_command(&kdf, b"versions");
    let (state, action) = sync(state, SyncEvent::CommandParsed(Some(SyncCommand::GetVersions)));
    match action {
        SyncAction::FetchVersions { user_id } => assert_eq!(user_id, session().user_id),
        _ => panic!("expected the versions query"),
    }
    let (_, action) = sync(state, SyncEvent::VersionsFetched(Some(vec![1, 2, 5])));
    match action {
        SyncAction::Reply(Ok(resp)) => {
            let plain = client_decrypt(&kdf, &resp.nonce, &resp.ciphertext);
            assert_eq!(plain, postcard::to_allocvec(&vec![1i32, 2, 5]).unwrap());
        }
        _ => panic!("expected a sealed reply"),
    }
    let state = sync_until_command(&kdf, b"delete");
    let (_, action) = sync(state, SyncEvent::CommandParsed(Some(SyncCommand::DeleteAccount)));
    assert!(matches!(action, SyncAction::Reply(Err(HttpStatus::NotImplemented))));
    let state = sync_until_command(&kdf, b"garbage");
    let (_, action) = sync(state, SyncEvent::CommandParsed(None));
    assert!(matches!(action, SyncAction::Reply(Err(HttpStatus::BadRequest))));
}

#[test]
fn sync_without_channel_or_with_bad_ciphertext() {
    let req = || SyncRequest { session: session(), nonce: [0; 24], ciphertext: vec![1, 2, 3], timestamp: 0 };
    let (state, _) = sync(SyncStep::Start(req()), SyncEvent::Begin);
    let (_, action) = sync(state, SyncEvent::ChannelFetched(Some(None)));
    assert!(matches!(action, SyncAction::Reply(Err(HttpStatus::Unauthorized))));
    let (state, _) = sync(SyncStep::Start(req()), SyncEvent::Begin);
    let (_, action) = sync(state, SyncEvent::ChannelFetched(None));
    assert!(matches!(action, SyncAction::Reply(Err(HttpStatus::Unauthorized))));
    let (state, _) = sync(SyncStep::Start(req()), SyncEvent::Begin);
    let (_, action) = sync(state, SyncEvent::ChannelFetched(Some(Some(vec![64, 1]))));
    assert!(matches!(action, SyncAction::Reply(Err(HttpStatus::InternalServerError))));
    let record = RedisInternal { kdf: [1; 64], user_id: [2; 16] }.to_bytes();
    let (state, _) = sync(SyncStep::Start(req()), SyncEvent::Begin);
    let (_, action) = sync(state, SyncEvent::ChannelFetched(Some(Some(record))));
    assert!(matches!(action, SyncAction::Reply(Err(HttpStatus::InternalServerError))));
}

#[test]
fn sealed_replies_open_with_the_channel_key() {
    let key = [6u8; 32];
    let nonce = generate_nonce().ok().unwrap();
    let other = generate_nonce().ok().unwrap();
    assert_ne!(nonce, other);
    let resp = seal_with_nonce(&key, nonce, b"payload").ok().unwrap();
    assert_eq!(resp.nonce, nonce);
    assert_eq!(resp.ciphertext.len(), 7 + 16);
    assert_ne!(&resp.ciphertext[..7], b"payload");
    let expected = XChaCha20Poly1305::new(Key::from_slice(&key))
        .encrypt(XNonce::from_slice(&nonce), &b"payload"[..])
        .unwrap();
    assert_eq!(resp.ciphertext, expected);
    let opened = XChaCha20Poly1305::new(Key::from_slice(&key))
        .decrypt(XNonce::from_slice(&resp.nonce), resp.ciphertext.as_slice())
        .unwrap();
    assert_eq!(opened, b"payload");
}

#[test]
fn nonce_and_array_reading() {
    let raw: Vec<u8> = (0u8..24).collect();
    assert_eq!(nonce_from_bytes(&raw).ok().unwrap().to_vec(), raw);
    assert_eq!(nonce_from_bytes(&raw[..23]).err(), Some(HttpStatus::InternalServerError));
    assert_eq!(bytes_to_array::<3>(&[1, 2, 3]), Some([1, 2, 3]));
    assert_eq!(bytes_to_array::<3>(&[1, 2]), None);
    let a = generate_x25519_sec().unwrap();
    let b = generate_x25519_sec().unwrap();
    assert_ne!(a, b);
}

#[test]
fn finish_handshake_is_exact() {
    let s = session();
    let client_secret = [0x55u8; 32];
    let client_pub = x25519_dalek::x25519(client_secret, x25519_dalek::X25519_BASEPOINT_BYTES);
    let req = HandshakeRequest { session: session(), kyber_pub: [0; 1568], x25519_pub: client_pub };
    let own = [0x21u8; 32];
    let k_ss = [0x77u8; 32];
    let ct: Vec<u8> = (0..1568).map(|i| (i % 251) as u8).collect();
    let (resp, record) = finish_handshake(&req, &own, &k_ss, &ct).ok().unwrap();
    assert_eq!(resp.x25519_pub, x25519_dalek::x25519(own, x25519_dalek::X25519_BASEPOINT_BYTES));
    assert_eq!(resp.cipher_text.to_vec(), ct);
    let x_ss = x25519_dalek::x25519(own, client_pub);
    let (kdf, tag) = client_kdf(&x_ss, &k_ss, &s);
    assert_eq!(resp.auth_tag, tag);
    let kept = RedisInternal::from_bytes(&record).unwrap();
    assert_eq!(kept.kdf, kdf);
    assert_eq!(kept.user_id, s.user_id);
    // the client's own agreement gives the same secret
    assert_eq!(x25519_dalek::x25519(client_secret, resp.x25519_pub), x_ss);
    assert!(finish_handshake(&req, &own, &k_ss, &ct[..1567]).is_err());
}

#[test]
fn handshake_step_with_given_draw() {
    let req = HandshakeRequest { session: session(), kyber_pub: [0; 1568], x25519_pub: [3; 32] };
    let (state, _) = secure_channel_with(ChannelStep::Start(req), ChannelEvent::Begin, None);
    let own = [1u8; 32];
    let ct = vec![5u8; 1568];
    let (state, action) =
        secure_channel_with(state, ChannelEvent::SessionCount(Some(1)), Some((own, vec![2u8; 32], ct.clone())));
    match action {
        ChannelAction::StoreChannel { record, ttl_secs, .. } => {
            assert_eq!(ttl_secs, 600);
            let x_ss = x25519_dalek::x25519(own, [3; 32]);
            let (kdf, _) = client_kdf(&x_ss, &[2u8; 32], &session());
            assert_eq!(RedisInternal::from_bytes(&record).unwrap().kdf, kdf);
        }
        _ => panic!("expected the store"),
    }
    match state {
        ChannelStep::Storing(resp) => assert_eq!(resp.cipher_text.to_vec(), ct),
        _ => panic!("expected the answer to be kept"),
    }
    let req = HandshakeRequest { session: session(), kyber_pub: [0; 1568], x25519_pub: [3; 32] };
    let (state, _) = secure_channel_with(ChannelStep::Start(req), ChannelEvent::Begin, None);
    let (_, action) = secure_channel_with(state, ChannelEvent::SessionCount(Some(1)), None);
    assert!(matches!(action, ChannelAction::Reply(Err(HttpStatus::InternalServerError))));
}

#[test]
fn sync_reply_uses_the_given_nonce() {
    let kdf = [44u8; 64];
    let state = sync_until_command(&kdf, b"versions");
    let (state, _) = sync(state, SyncEvent::CommandParsed(Some(SyncCommand::GetVersions)));
    let nonce = [13u8; 24];
    let (_, action) = sync_with_nonce(state, SyncEvent::VersionsFetched(Some(vec![7])), Some(nonce));
    match action {
        SyncAction::Reply(Ok(resp)) => {
            assert_eq!(resp.nonce, nonce);
            assert_eq!(client_decrypt(&kdf, &nonce, &resp.ciphertext), postcard::to_allocvec(&vec![7i32]).unwrap());
        }
        _ => panic!("expected a sealed reply"),
    }
    let state = sync_until_command(&kdf, b"versions");
    let (state, _) = sync(state, SyncEvent::CommandParsed(Some(SyncCommand::GetVersions)));
    let (_, action) = sync_with_nonce(state, SyncEvent::VersionsFetched(Some(vec![7])), None);
    assert!(matches!(action, SyncAction::Reply(Err(HttpStatus::InternalServerError))));
}

#[test]
fn api_errors_and_user_lookup() {
    let (status, msg) = error_reply(ApiError::NotFound);
    assert_eq!((status, msg.as_str()), (HttpStatus::NotFound, "Data not found"));
    let (status, msg) = error_reply(ApiError::InvalidInput("bad id".to_string()));
    assert_eq!((status, msg.as_str()), (HttpStatus::BadRequest, "bad id"));
    let (status, msg) = error_reply(ApiError::InternalError);
    assert_eq!((status, msg.as_str()), (HttpStatus::InternalServerError, "Internal server error"));
    let known = *uuid::Uuid::parse_str("1e55044a-10b1-426f-9247-bb680e5fe0c8").unwrap().as_bytes();
    assert!(matches!(get_user(known), Ok(id) if id == known));
    let unknown = *uuid::Uuid::parse_str("67e55044-10b1-426f-9247-bb680e5fe0c8").unwrap().as_bytes();
    assert!(matches!(get_user(unknown), Err(ApiError::NotFound)));
}
