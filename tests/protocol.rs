use shadow_tls::{
    authenticate, kdf, route, support_tls13, tag, tagged_prefix, verify, xor_slice, AuthOutcome,
    ConnectionPlan, Direction, HashedReadStream, HashedWriteStream, ParseError, RelayAction,
    RelayEvent, RelayState, Route, ShadowTlsServer, TlsAddrs, TlsExtConfig, TlsNames, V3Mode,
    WildcardSNI, HMAC_SIZE, window_rest,
};

fn hex(bytes: &[u8]) -> String {
    bytes.iter().map(|b| format!("{:02x}", b)).collect()
}

fn table(spec: &str, policy: WildcardSNI) -> TlsAddrs {
    let mut t = TlsAddrs::try_from(spec).unwrap();
    t.set_wildcard_sni(policy);
    t
}

#[test]
fn cover_identity_two_names() {
    let names = TlsNames::try_from("a.com;b.com").unwrap();
    assert_eq!(names.len(), 2);
    assert_eq!(names.get(0), "a.com");
    assert_eq!(names.get(1), "b.com");
}

#[test]
fn cover_identity_trims_pieces() {
    let names = TlsNames::try_from(" a.com ; 10.0.0.1").unwrap();
    assert_eq!(names.len(), 2);
    assert_eq!(names.get(0), "a.com");
    assert_eq!(names.get(1), "10.0.0.1");
}

#[test]
fn cover_identity_empty_fails() {
    assert_eq!(TlsNames::try_from("").unwrap_err(), ParseError::InvalidName);
    assert_eq!(TlsNames::try_from(";;").unwrap_err(), ParseError::InvalidName);
    assert_eq!(TlsNames::try_from("a.com;").unwrap_err(), ParseError::InvalidName);
}

#[test]
fn cover_identity_malformed_fails() {
    assert_eq!(TlsNames::try_from("a.com;bad name!").unwrap_err(), ParseError::InvalidName);
}

#[test]
fn cover_identity_choose_hits_every_entry() {
    let names = TlsNames::try_from("a.com;b.com;c.com").unwrap();
    let mut seen = [0usize; 3];
    for _ in 0..3000 {
        let n = names.random_choose();
        let i = (0..3).find(|&i| names.get(i) == n).unwrap();
        seen[i] += 1;
    }
    assert!(seen.iter().all(|&c| c > 0));
}

#[test]
fn alpn_offer_as_bytes() {
    let cfg = TlsExtConfig::from(Some(vec!["h2".to_string(), "http/1.1".to_string()]));
    assert_eq!(cfg.alpn(), &Some(vec![b"h2".to_vec(), b"http/1.1".to_vec()]));
    let none = TlsExtConfig::from(None);
    assert_eq!(none.alpn(), &None);
}

#[test]
fn dispatch_exact_key_and_fallback() {
    let t = TlsAddrs::try_from("x.com=10.0.0.1:1;fallback.com:443").unwrap();
    assert_eq!(t.len(), 1);
    assert_eq!(t.fallback(), "fallback.com:443");
    assert_eq!(t.wildcard_sni(), WildcardSNI::Off);
    assert_eq!(t.resolve(Some("x.com")), "10.0.0.1:1");
    assert_eq!(t.resolve(Some("X.Com")), "10.0.0.1:1");
    assert_eq!(t.resolve(Some("y.com")), "fallback.com:443");
    assert_eq!(t.resolve(None), "fallback.com:443");
}

#[test]
fn dispatch_keys_are_case_folded() {
    let t = TlsAddrs::try_from("X.COM=10.0.0.1:1;fb.com:443").unwrap();
    assert_eq!(t.resolve_lowered(Some("x.com")), "10.0.0.1:1");
    assert_eq!(
        TlsAddrs::try_from("a.com=1.1.1.1:1;A.COM=2.2.2.2:2;fb.com:443").unwrap_err(),
        ParseError::DuplicateName
    );
}

#[test]
fn dispatch_missing_fallback() {
    assert_eq!(TlsAddrs::try_from("x.com=10.0.0.1:1").unwrap_err(), ParseError::MissingFallback);
    assert_eq!(TlsAddrs::try_from("").unwrap_err(), ParseError::MissingFallback);
    assert_eq!(TlsAddrs::try_from(" ; ").unwrap_err(), ParseError::MissingFallback);
}

#[test]
fn dispatch_bare_name_gets_port() {
    let t = TlsAddrs::try_from("fallback.com").unwrap();
    assert_eq!(t.fallback(), "fallback.com:443");
}

#[test]
fn dispatch_invalid_entries() {
    assert_eq!(TlsAddrs::try_from("=1.1.1.1:1;fb:443").unwrap_err(), ParseError::InvalidEntry);
    assert_eq!(TlsAddrs::try_from("a.com=;fb:443").unwrap_err(), ParseError::InvalidEntry);
    assert_eq!(TlsAddrs::try_from("fb:443;other:443").unwrap_err(), ParseError::MultipleFallback);
}

#[test]
fn wildcard_on_resolves_one_label() {
    let t = table("*.example.com=10.0.0.2:443;fallback.com:443", WildcardSNI::On);
    assert_eq!(t.resolve(Some("a.example.com")), "10.0.0.2:443");
    assert_eq!(t.resolve(Some("A.Example.COM")), "10.0.0.2:443");
    assert_eq!(t.resolve(Some("example.org")), "fallback.com:443");
    assert_eq!(t.resolve(Some("example.com")), "fallback.com:443");
    assert_eq!(t.resolve(Some("a.b.example.com")), "fallback.com:443");
}

#[test]
fn wildcard_off_matches_exact_only() {
    let t = table("*.example.com=10.0.0.2:443;fallback.com:443", WildcardSNI::Off);
    assert_eq!(t.resolve(Some("a.example.com")), "fallback.com:443");
    assert_eq!(t.resolve(Some("*.example.com")), "10.0.0.2:443");
}

#[test]
fn wildcard_auto_needs_registrable_suffix() {
    let spec = "*.com=1.1.1.1:1;*.example.com=2.2.2.2:2;fb.com:443";
    let auto = table(spec, WildcardSNI::Auto);
    assert_eq!(auto.resolve(Some("a.com")), "fb.com:443");
    assert_eq!(auto.resolve(Some("x.example.com")), "2.2.2.2:2");
    let on = table(spec, WildcardSNI::On);
    assert_eq!(on.resolve(Some("a.com")), "1.1.1.1:1");
}

#[test]
fn exact_key_beats_wildcard() {
    let t = table("*.example.com=1.1.1.1:1;a.example.com=2.2.2.2:2;fb.com:443", WildcardSNI::On);
    assert_eq!(t.resolve(Some("a.example.com")), "2.2.2.2:2");
    assert_eq!(t.resolve(Some("b.example.com")), "1.1.1.1:1");
}

#[test]
fn wildcard_policy_words() {
    for w in ["off", "FALSE", "0"] {
        assert_eq!(WildcardSNI::from_str(w, true), Ok(WildcardSNI::Off));
    }
    for w in ["On", "true", "1"] {
        assert_eq!(WildcardSNI::from_str(w, true), Ok(WildcardSNI::On));
    }
    assert_eq!(WildcardSNI::from_str("AUTO", true), Ok(WildcardSNI::Auto));
    assert_eq!(WildcardSNI::from_str("maybe", true), Err("Invalid wildcard SNI value"));
    assert_eq!(WildcardSNI::from_str("", false), Err("Invalid wildcard SNI value"));
    assert_eq!(WildcardSNI::from_str("TRUE", false), Ok(WildcardSNI::On));
    assert_eq!(WildcardSNI::from_str("0", true), Ok(WildcardSNI::Off));
    assert_eq!(WildcardSNI::from_lowercase("ON"), None);
    assert_eq!(WildcardSNI::Auto.as_str(), "auto");
    assert_eq!(WildcardSNI::Off.as_str(), "off");
}

#[test]
fn mode_words() {
    assert_eq!(V3Mode::Disabled.as_str(), "disabled");
    assert_eq!(V3Mode::Lossy.as_str(), "lossy");
    assert_eq!(V3Mode::Strict.as_str(), "strict");
}

#[test]
fn kdf_known_value() {
    let key = kdf(b"password", b"salt");
    assert_eq!(hex(&key), "f9390f1d997b03438a033b2ac835d9dde5aad834db7217b00dc7dc3c4affd6fd");
}

#[test]
fn tag_known_value() {
    let t = tag(b"key", b"The quick brown fox jumps over the lazy dog");
    assert_eq!(hex(&t), "f7bc83f430538424b13298e6aa6fb143ef4d59a14946175997479dbc2d1a3cd8");
    let key = kdf(b"password", b"salt");
    assert_eq!(
        hex(&tag(&key, b"salt")),
        "893a435a8e0890ba1f37292ceff442171df5be85f51ab3dc8cb8f3b8954b9e56"
    );
}

fn pseudo_random_bytes(seed: u64, len: usize) -> Vec<u8> {
    let mut x = seed.wrapping_mul(6364136223846793005).wrapping_add(1442695040888963407);
    (0..len)
        .map(|_| {
            x = x.wrapping_mul(6364136223846793005).wrapping_add(1442695040888963407);
            (x >> 33) as u8
        })
        .collect()
}

#[test]
fn tag_is_deterministic_and_bit_sensitive() {
    let key = kdf(b"secret", b"salt");
    for seed in 0..64u64 {
        let payload = pseudo_random_bytes(seed, 1 + (seed as usize * 7) % 200);
        let t1 = tag(&key, &payload);
        let t2 = tag(&key, &payload);
        assert_eq!(t1, t2);
        let mut flipped = payload.clone();
        let pos = (seed as usize) % flipped.len();
        flipped[pos] ^= 1 << (seed % 8);
        assert_ne!(tag(&key, &flipped), t1);
    }
}

#[test]
fn verification_symmetry() {
    for seed in 0..32u64 {
        let secret = pseudo_random_bytes(seed, 12);
        let salt = pseudo_random_bytes(seed + 1000, 32);
        let payload = pseudo_random_bytes(seed + 2000, 64);
        let key = kdf(&secret, &salt);
        let t = tag(&key, &payload);
        assert!(verify(&key, &payload, &t));
        let wrong = kdf(b"not the secret", &salt);
        assert!(!verify(&wrong, &payload, &t));
        assert!(!verify(&key, &payload, &t[..HMAC_SIZE - 1]));
    }
}

#[test]
fn kdf_split_between_inputs_matters() {
    assert_ne!(kdf(b"ab", b"c"), kdf(b"a", b"bc"));
    assert_ne!(kdf(b"", b"abc"), kdf(b"abc", b""));
}

#[test]
fn kdf_depends_on_both_inputs() {
    assert_ne!(kdf(b"password", b"salt"), kdf(b"password", b"salu"));
    assert_ne!(kdf(b"password", b"salt"), kdf(b"passwore", b"salt"));
}

#[test]
fn xor_slice_shorter_operand() {
    let mut a = vec![0xffu8, 0x0f, 0xaa, 0x01];
    xor_slice(&mut a, &[0x0f, 0xff]);
    assert_eq!(a, vec![0xf0, 0xf0, 0xaa, 0x01]);
    let mut b = vec![0x12u8, 0x34];
    xor_slice(&mut b, &[0x12, 0x34, 0x56]);
    assert_eq!(b, vec![0, 0]);
}

#[test]
fn tagged_prefix_layout() {
    let key = kdf(b"pw", b"salt");
    let sent = tagged_prefix(&key, b"salt", b"hello");
    assert_eq!(sent.len(), HMAC_SIZE + 5);
    assert_eq!(&sent[..HMAC_SIZE], &tag(&key, b"salt")[..]);
    assert_eq!(&sent[HMAC_SIZE..], b"hello");
    assert_eq!(window_rest(&sent), b"hello");
}

#[test]
fn truncated_window_by_mode() {
    let key = kdf(b"pw", b"salt");
    let sent = tagged_prefix(&key, b"salt", b"");
    let short = &sent[..HMAC_SIZE - 1];
    let lossy = authenticate(V3Mode::Lossy, &key, b"salt", short);
    assert_eq!(lossy, AuthOutcome::Unverified);
    assert_eq!(route(lossy), Route::Fallback);
    let strict = authenticate(V3Mode::Strict, &key, b"salt", short);
    assert_eq!(strict, AuthOutcome::Failed);
    assert_eq!(route(strict), Route::Close);
}

#[test]
fn tag_match_and_mismatch_by_mode() {
    let key = kdf(b"pw", b"salt");
    let sent = tagged_prefix(&key, b"salt", b"payload");
    for mode in [V3Mode::Lossy, V3Mode::Strict] {
        assert_eq!(authenticate(mode, &key, b"salt", &sent), AuthOutcome::Verified);
    }
    assert_eq!(authenticate(V3Mode::Disabled, &key, b"salt", &sent), AuthOutcome::Unverified);
    let mut forged = sent.clone();
    forged[0] ^= 0x80;
    assert_eq!(authenticate(V3Mode::Lossy, &key, b"salt", &forged), AuthOutcome::Unverified);
    assert_eq!(authenticate(V3Mode::Strict, &key, b"salt", &forged), AuthOutcome::Failed);
    assert_eq!(route(AuthOutcome::Verified), Route::Backend);
}

fn server(mode: V3Mode) -> ShadowTlsServer {
    let tls = table("x.com=10.0.0.1:443;fallback.com:443", WildcardSNI::Off);
    ShadowTlsServer::new(
        "0.0.0.0:443".to_string(),
        "127.0.0.1:8080".to_string(),
        tls,
        "pw".to_string(),
        true,
        false,
        mode,
    )
}

#[test]
fn server_plans_each_route() {
    let s = server(V3Mode::Strict);
    assert_eq!(s.mode(), V3Mode::Strict);
    assert_eq!(s.target_addr(), "127.0.0.1:8080");
    assert!(s.nodelay() && !s.fastopen());
    let key = kdf(b"pw", b"nonce");
    let good = tagged_prefix(&key, b"nonce", b"data");
    assert_eq!(
        s.plan(Some("x.com"), b"nonce", &good),
        ConnectionPlan::Backend("127.0.0.1:8080".to_string())
    );
    assert_eq!(s.plan(Some("x.com"), b"nonce", &good[..10]), ConnectionPlan::Close);
    let lossy = server(V3Mode::Lossy);
    assert_eq!(
        lossy.plan(Some("X.com"), b"nonce", &good[..10]),
        ConnectionPlan::Fallback("10.0.0.1:443".to_string())
    );
    let wrong = tagged_prefix(&kdf(b"other", b"nonce"), b"nonce", b"data");
    assert_eq!(
        lossy.plan(None, b"nonce", &wrong),
        ConnectionPlan::Fallback("fallback.com:443".to_string())
    );
}

/// Drives a splice between two in-memory endpoints through the relay state
/// machine, reading in chunks of `chunk` bytes, with `a` closing first.
fn splice_in_memory(a_out: &[u8], b_out: &[u8], chunk: usize) -> (Vec<u8>, Vec<u8>, RelayState) {
    let mut state = RelayState::new();
    let (mut to_b, mut to_a) = (Vec::new(), Vec::new());
    let (mut ia, mut ib) = (0usize, 0usize);
    let (mut b_shut, mut a_shut) = (false, false);
    while !state.is_done() {
        if state.a_to_b_open {
            let ev = if ia < a_out.len() {
                let n = chunk.min(a_out.len() - ia);
                RelayEvent::Data(Direction::AToB, n as u64)
            } else {
                RelayEvent::Eof(Direction::AToB)
            };
            match state.step(ev) {
                RelayAction::Forward(Direction::AToB, n) => {
                    to_b.extend_from_slice(&a_out[ia..ia + n as usize]);
                    ia += n as usize;
                }
                RelayAction::ShutdownWrite(Direction::AToB) => b_shut = true,
                other => panic!("unexpected {:?}", other),
            }
        } else if state.b_to_a_open {
            let ev = if ib < b_out.len() {
                let n = chunk.min(b_out.len() - ib);
                RelayEvent::Data(Direction::BToA, n as u64)
            } else {
                RelayEvent::Eof(Direction::BToA)
            };
            match state.step(ev) {
                RelayAction::Forward(Direction::BToA, n) => {
                    to_a.extend_from_slice(&b_out[ib..ib + n as usize]);
                    ib += n as usize;
                }
                RelayAction::ShutdownWrite(Direction::BToA) => a_shut = true,
                other => panic!("unexpected {:?}", other),
            }
        }
    }
    assert!(a_shut && b_shut);
    (to_b, to_a, state)
}

#[test]
fn relay_fidelity_both_directions() {
    for &k in &[0usize, 1, 4096, 3 * 1024 * 1024] {
        let a_out = pseudo_random_bytes(k as u64, k);
        let b_out = pseudo_random_bytes(k as u64 + 7, k);
        let (to_b, to_a, state) = splice_in_memory(&a_out, &b_out, 16 * 1024);
        assert_eq!(to_b, a_out);
        assert_eq!(to_a, b_out);
        assert_eq!(state.result(), Some((k as u64, k as u64)));
    }
}

#[test]
fn relay_half_close_keeps_reverse_data() {
    let mut state = RelayState::new();
    assert_eq!(state.step(RelayEvent::Eof(Direction::AToB)), RelayAction::ShutdownWrite(Direction::AToB));
    assert!(!state.is_done());
    assert_eq!(state.result(), None);
    assert_eq!(state.step(RelayEvent::Data(Direction::BToA, 10)), RelayAction::Forward(Direction::BToA, 10));
    assert_eq!(state.step(RelayEvent::Eof(Direction::BToA)), RelayAction::ShutdownWrite(Direction::BToA));
    assert!(state.is_done());
    assert_eq!(state.result(), Some((0, 10)));
}

#[test]
fn relay_error_aborts_both() {
    let mut state = RelayState::new();
    state.step(RelayEvent::Data(Direction::AToB, 5));
    assert_eq!(state.step(RelayEvent::Error(Direction::BToA)), RelayAction::Abort);
    assert!(state.is_done());
    assert!(state.aborted);
    assert_eq!(state.result(), None);
}

#[test]
fn stream_wrappers_pass_through() {
    assert_eq!(HashedReadStream::new(5u8).into_inner(), 5);
    assert_eq!(HashedWriteStream::new("w").into_inner(), "w");
    assert!(support_tls13());
}

#[test]
fn cover_identity_repeated_name_kept_once() {
    let names = TlsNames::try_from("a.com;b.com;a.com").unwrap();
    assert_eq!(names.len(), 2);
    assert_eq!(names.get(0), "a.com");
    assert_eq!(names.get(1), "b.com");
}

#[test]
fn wildcard_policy_parse_trait() {
    assert_eq!("Auto".parse::<WildcardSNI>(), Ok(WildcardSNI::Auto));
    assert!("x".parse::<WildcardSNI>().is_err());
}
