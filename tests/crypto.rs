use pomegranate::crypto::INITIALIZER_PAIR_LEN;
use pomegranate::{
    client_channels, client_key_exchange, encode_frame, inc_multibyte, server_channels,
    server_hello, server_key_exchange, server_read_initializers, AES256GCMInitializer,
    AES256GCMInitializerPair, AES256GCMMsgReceiver, AES256GCMMsgSender, AESGCMNonceCounter,
    ChannelError, EncChannelSetupError, LenU64EncapsMsgReceiver, RsaKeyPair,
    ServerPublicKeyValidator,
};
use rsa::pkcs1::EncodeRsaPublicKey;
use rsa::{BigUint, RsaPrivateKey, RsaPublicKey};

#[test]
fn test_inc_multibyte() {
    let tests = [
        (vec![0x10], vec![0x11]),
        (vec![0xFF], vec![0x00]),
        (vec![0x00, 0x00], vec![0x00, 0x01]),
        (vec![0x00, 0xFF], vec![0x01, 0x00]),
        (vec![0xFF, 0xFF], vec![0x00, 0x00]),
        (
            vec![0xDA; 12],
            vec![
                0xDA, 0xDA, 0xDA, 0xDA, 0xDA, 0xDA, 0xDA, 0xDA, 0xDA, 0xDA, 0xDA, 0xDB,
            ],
        ),
    ];

    for (val, exp) in tests {
        let mut val = val;
        inc_multibyte(&mut val);
        assert_eq!(val, exp);
    }
}

fn der(key: &RsaPublicKey) -> Vec<u8> {
    key.to_pkcs1_der().unwrap().as_bytes().to_vec()
}

#[test]
fn server_key_validation() {
    let mut key_validator = ServerPublicKeyValidator::new();

    let key1 = RsaPrivateKey::from_p_q(
        BigUint::from_bytes_be(&vec![0x02]),
        BigUint::from_bytes_be(&vec![0x03]),
        BigUint::from_bytes_be(&vec![0x01]),
    )
    .unwrap();
    let key1 = RsaPublicKey::from(key1);

    let key2 = RsaPrivateKey::from_p_q(
        BigUint::from_bytes_be(&vec![0x05]),
        BigUint::from_bytes_be(&vec![0x07]),
        BigUint::from_bytes_be(&vec![0x01]),
    )
    .unwrap();
    let key2 = RsaPublicKey::from(key2);

    assert_eq!(key1, key1);
    assert_ne!(key1, key2);

    // First time validation
    key_validator.validate(&der(&key1)).unwrap();

    // Second validation with correct key
    key_validator.validate(&der(&key1)).unwrap();

    // Validation with incorrect key
    key_validator.validate(&der(&key2)).unwrap_err();
}

#[test]
fn nonce_increment_examples() {
    let mut a = vec![0xFFu8; 12];
    inc_multibyte(&mut a);
    assert_eq!(a, vec![0u8; 12]);
    let mut e: Vec<u8> = vec![];
    inc_multibyte(&mut e);
    assert!(e.is_empty());
    let mut b = vec![0x01, 0xFF, 0xFF];
    inc_multibyte(&mut b);
    assert_eq!(b, vec![0x02, 0x00, 0x00]);
}

#[test]
fn nonce_counter_hands_out_then_advances() {
    let mut init = [0u8; 12];
    init[11] = 0xFE;
    let mut c = AESGCMNonceCounter::new(init);
    assert_eq!(c.next()[11], 0xFE);
    let second = c.next();
    assert_eq!(second[11], 0xFF);
    let third = c.next();
    assert_eq!(third[10], 0x01);
    assert_eq!(third[11], 0x00);
}

#[test]
fn pinning_rejects_changed_key_and_keeps_first() {
    let mut v = ServerPublicKeyValidator::new();
    assert_eq!(v.validate(&[1, 2, 3]), Ok(()));
    assert_eq!(v.validate(&[1, 2, 4]), Err(EncChannelSetupError::ServerPublicKeyChanged));
    assert_eq!(v.validate(&[1, 2]), Err(EncChannelSetupError::ServerPublicKeyChanged));
    assert_eq!(v.validate(&[1, 2, 3]), Ok(()));
    assert_eq!(v.validate(&[1, 2, 3]), Ok(()));
}

#[test]
fn bypassing_validator_accepts_any_key() {
    let mut v = ServerPublicKeyValidator::bypassing();
    assert_eq!(v.validate(&[1]), Ok(()));
    assert_eq!(v.validate(&[2]), Ok(()));
    assert_eq!(v.validate(&[3, 4]), Ok(()));
}

fn sample_pair() -> AES256GCMInitializerPair {
    let mut cts_key = [0u8; 32];
    let mut stc_key = [0u8; 32];
    for i in 0..32 {
        cts_key[i] = i as u8;
        stc_key[i] = 0xA0 ^ (i as u8);
    }
    AES256GCMInitializerPair {
        cts: AES256GCMInitializer { key: cts_key, nonce: [7u8; 12] },
        stc: AES256GCMInitializer { key: stc_key, nonce: [9u8; 12] },
    }
}

#[test]
fn initializer_layout_is_fixed_and_reads_back() {
    let p = sample_pair();
    let b = p.to_bytes();
    assert_eq!(b.len(), INITIALIZER_PAIR_LEN);
    assert_eq!(&b[0..32], &p.cts.key[..]);
    assert_eq!(&b[32..44], &[7u8; 12][..]);
    assert_eq!(&b[44..76], &p.stc.key[..]);
    assert_eq!(&b[76..88], &[9u8; 12][..]);
    let q = AES256GCMInitializerPair::from_bytes(&b).unwrap();
    assert_eq!(q.cts.key, p.cts.key);
    assert_eq!(q.cts.nonce, p.cts.nonce);
    assert_eq!(q.stc.key, p.stc.key);
    assert_eq!(q.stc.nonce, p.stc.nonce);
    assert!(AES256GCMInitializerPair::from_bytes(&b[..87]).is_none());
    assert_eq!(
        server_read_initializers(&[0u8; 89]).unwrap_err(),
        EncChannelSetupError::InvalidInitializer
    );
}

#[test]
fn random_initializers_differ() {
    let a = AES256GCMInitializerPair::new_rand();
    let b = AES256GCMInitializerPair::new_rand();
    assert_ne!(a.to_bytes(), b.to_bytes());
    assert_ne!(a.cts.key, a.stc.key);
}

#[test]
fn sealed_message_opens_on_paired_end() {
    let p = sample_pair();
    let mut s = AES256GCMMsgSender::new((), &p.cts);
    let mut r = AES256GCMMsgReceiver::new((), &p.cts);
    for i in 0..5u8 {
        let msg = vec![i; (i as usize) * 3];
        let ct = s.seal(&msg).unwrap();
        assert_eq!(ct.len(), msg.len() + 16);
        assert_eq!(r.open(&ct).unwrap(), msg);
    }
}

#[test]
fn sealing_changes_bytes_and_nonce() {
    let p = sample_pair();
    let mut s = AES256GCMMsgSender::new((), &p.cts);
    let msg = b"same message".to_vec();
    let c1 = s.seal(&msg).unwrap();
    let c2 = s.seal(&msg).unwrap();
    assert_ne!(&c1[..msg.len()], &msg[..]);
    assert_ne!(c1, c2);
}

#[test]
fn tampered_frame_fails_to_open() {
    let p = sample_pair();
    let msg = b"Hello from server, 0".to_vec();
    let ct = AES256GCMMsgSender::new((), &p.stc).seal(&msg).unwrap();
    for i in 0..ct.len() {
        let mut bad = ct.clone();
        bad[i] ^= 0x01;
        let mut r = AES256GCMMsgReceiver::new((), &p.stc);
        assert_eq!(r.open(&bad), Err(ChannelError::Decryption));
    }
}

#[test]
fn out_of_step_receiver_fails() {
    let p = sample_pair();
    let mut s = AES256GCMMsgSender::new((), &p.cts);
    let mut r = AES256GCMMsgReceiver::new((), &p.cts);
    let _lost = s.seal(b"first").unwrap();
    let ct = s.seal(b"second").unwrap();
    assert_eq!(r.open(&ct), Err(ChannelError::Decryption));
    let mut wrong_key = AES256GCMMsgReceiver::new((), &p.stc);
    let ct = AES256GCMMsgSender::new((), &p.cts).seal(b"x").unwrap();
    assert_eq!(wrong_key.open(&ct), Err(ChannelError::Decryption));
}

fn small_keypair() -> RsaKeyPair {
    let mut rng = aes_gcm_siv::aead::OsRng;
    let private = RsaPrivateKey::new(&mut rng, 1024).unwrap();
    let public = RsaPublicKey::from(&private);
    RsaKeyPair { private, public }
}

fn through_frames(rx: &mut LenU64EncapsMsgReceiver<()>, payload: &[u8]) -> Vec<u8> {
    let frame = encode_frame(payload);
    rx.feed(&frame);
    rx.take_frame().unwrap().unwrap()
}

#[test]
fn handshake_round_trip_in_both_directions() {
    let kp = small_keypair();
    let mut to_client = LenU64EncapsMsgReceiver::new(());
    let mut to_server = LenU64EncapsMsgReceiver::new(());

    let hello = server_hello(&kp).unwrap();
    let hello = through_frames(&mut to_client, &hello);
    let pair = AES256GCMInitializerPair::new_rand();
    let mut validator = ServerPublicKeyValidator::new();
    let answer = client_key_exchange(&hello, &pair, &mut validator).unwrap();
    let answer = through_frames(&mut to_server, &answer);
    let server_pair = server_key_exchange(&kp, &answer).unwrap();

    let (mut cs, mut cr) = client_channels((), (), &pair);
    let (mut ss, mut sr) = server_channels((), (), &server_pair);
    for i in 0..8 {
        let m = format!("client message {}", i).into_bytes();
        let ct = through_frames(&mut to_server, &cs.seal(&m).unwrap());
        assert_eq!(sr.open(&ct).unwrap(), m);
        let m = format!("server message {}", i).into_bytes();
        let ct = through_frames(&mut to_client, &ss.seal(&m).unwrap());
        assert_eq!(cr.open(&ct).unwrap(), m);
    }

    // A second server key is refused once the first is pinned.
    let other = small_keypair();
    let other_hello = server_hello(&other).unwrap();
    assert_eq!(
        client_key_exchange(&other_hello, &pair, &mut validator),
        Err(EncChannelSetupError::ServerPublicKeyChanged)
    );
    assert!(client_key_exchange(&hello, &pair, &mut validator).is_ok());
}

#[test]
fn end_to_end_server_hello_messages() {
    let kp = RsaKeyPair::generate().unwrap();
    let hello = server_hello(&kp).unwrap();
    let pair = AES256GCMInitializerPair::new_rand();
    let mut validator = ServerPublicKeyValidator::new();
    let answer = client_key_exchange(&hello, &pair, &mut validator).unwrap();
    assert_eq!(answer.len(), 256);
    let server_pair = server_key_exchange(&kp, &answer).unwrap();
    let (mut ss, _sr) = server_channels((), (), &server_pair);
    let (_cs, mut cr) = client_channels((), (), &pair);

    let mut wire = LenU64EncapsMsgReceiver::new(());
    for i in 0..2 {
        let m = format!("Hello from server, {}", i);
        wire.feed(&encode_frame(&ss.seal(m.as_bytes()).unwrap()));
    }
    let first = wire.take_frame().unwrap().unwrap();
    let second = wire.take_frame().unwrap().unwrap();
    assert_eq!(String::from_utf8(cr.open(&first).unwrap()).unwrap(), "Hello from server, 0");
    assert_eq!(String::from_utf8(cr.open(&second).unwrap()).unwrap(), "Hello from server, 1");
    assert_eq!(wire.take_frame(), Ok(None));
}

#[test]
fn malformed_key_frame_is_refused() {
    let pair = sample_pair();
    let mut validator = ServerPublicKeyValidator::new();
    assert_eq!(
        client_key_exchange(&[1, 2, 3], &pair, &mut validator),
        Err(EncChannelSetupError::InvalidPublicKey)
    );
    // Nothing was pinned: any key may still be accepted.
    assert_eq!(validator.validate(&[9]), Ok(()));
}

#[test]
fn undecryptable_answer_is_refused() {
    let kp = small_keypair();
    assert_eq!(
        server_key_exchange(&kp, &[0u8; 128]).unwrap_err(),
        EncChannelSetupError::KeyDecryption
    );
}

#[test]
fn small_counters_have_full_period() {
    for seed in [vec![0x00u8], vec![0x7F], vec![0xFF], vec![0x12, 0x34], vec![0xFF, 0xFF]] {
        let period = 1usize << (8 * seed.len());
        let mut v = seed.clone();
        for step in 1..=period {
            inc_multibyte(&mut v);
            if step < period {
                assert_ne!(v, seed, "seed {:?} came back after {} steps", seed, step);
            }
        }
        assert_eq!(v, seed);
    }
}

#[test]
fn too_small_server_key_is_refused_and_not_pinned() {
    let tiny = RsaPublicKey::new(BigUint::from(15u32), BigUint::from(3u32)).unwrap();
    let pair = sample_pair();
    let mut validator = ServerPublicKeyValidator::new();
    assert_eq!(
        client_key_exchange(&der(&tiny), &pair, &mut validator),
        Err(EncChannelSetupError::PublicKeyTooSmall)
    );
    assert_eq!(validator.validate(&[9]), Ok(()));
}

#[test]
fn server_hello_is_the_public_key_der() {
    let kp = small_keypair();
    assert_eq!(server_hello(&kp).unwrap(), der(&kp.public));
}

#[test]
fn changed_key_is_refused_before_its_size_is_checked() {
    let kp = small_keypair();
    let pair = sample_pair();
    let mut validator = ServerPublicKeyValidator::new();
    let hello = server_hello(&kp).unwrap();
    assert!(client_key_exchange(&hello, &pair, &mut validator).is_ok());
    let tiny = RsaPublicKey::new(BigUint::from(15u32), BigUint::from(3u32)).unwrap();
    assert_eq!(
        client_key_exchange(&der(&tiny), &pair, &mut validator),
        Err(EncChannelSetupError::ServerPublicKeyChanged)
    );
    assert!(client_key_exchange(&hello, &pair, &mut validator).is_ok());
}

#[test]
fn accepts_does_not_pin() {
    let mut v = ServerPublicKeyValidator::new();
    assert!(v.accepts(&[1]));
    assert!(v.accepts(&[2]));
    assert_eq!(v.validate(&[2]), Ok(()));
    assert!(!v.accepts(&[1]));
    assert!(v.accepts(&[2]));
}
