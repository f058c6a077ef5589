use sqlx_core::postgres::sasl::{
    auth_message, channel_binding, check_mechanisms, client_final_message, final_without_proof,
    gen_nonce, hi, nonce_of, normalize, prepare_username, start, xor, Authentication, ClientFinal,
    ClientFirst, Reply, SaslContinue, SaslError, SaslFinal, SaslInitialResponse,
};

const SALT: [u8; 16] = [
    91, 109, 153, 104, 157, 18, 53, 142, 236, 160, 75, 20, 18, 54, 250, 129,
];

const NONCE: &str = "rOprNGfwEbeRWgbNEkqO%hvYDpWUa2RaTCAfuxFIlj)hNlF$k0";

const SERVER_FIRST: &str = "r=rOprNGfwEbeRWgbNEkqO%hvYDpWUa2RaTCAfuxFIlj)hNlF$k0,\
s=W22ZaJ0SNY7soEsUEjb6gQ==,i=4096";

const VERIFIER: [u8; 32] = [
    234, 186, 226, 77, 16, 98, 219, 117, 169, 69, 31, 240, 182, 234, 126, 152, 200, 84, 101, 73,
    255, 116, 30, 103, 45, 50, 81, 178, 57, 125, 228, 110,
];

fn hex(bytes: &[u8]) -> String {
    bytes.iter().map(|byte| format!("{:02x}", byte)).collect()
}

fn strings(names: &[&str]) -> Vec<String> {
    names.iter().map(|name| name.to_string()).collect()
}

fn challenge() -> Reply {
    Reply {
        authentication: Authentication::SaslContinue(SaslContinue {
            salt: SALT.to_vec(),
            iterations: 4096,
            nonce: NONCE.to_string(),
            message: SERVER_FIRST.to_string(),
        }),
        debug: "SaslContinue".to_string(),
    }
}

fn signed(bytes: &[u8]) -> Reply {
    Reply {
        authentication: Authentication::SaslFinal(SaslFinal { verifier: bytes.to_vec() }),
        debug: "SaslFinal".to_string(),
    }
}

fn other() -> Reply {
    Reply { authentication: Authentication::Other, debug: "Ok".to_string() }
}

fn answered(password: Option<&str>) -> ClientFinal {
    let first = ClientFirst::new("n=user", "r=rOprNGfwEbeRWgbNEkqO");
    match first.respond(password, challenge()) {
        Ok(answered) => answered,
        Err(error) => panic!("{}", error.message()),
    }
}

#[test]
fn hi_gives_the_known_keys() {
    assert_eq!(
        hi("password", b"salt", 1).map(|key| hex(&key)),
        Ok("120fb6cffcf8b32c43e7225256c4f837a86548c92ccc35480805987cb70be17b".to_string())
    );
    assert_eq!(
        hi("password", b"salt", 2).map(|key| hex(&key)),
        Ok("ae4d0c95af6b46d32d0adff928f06dd02a303f8ef3c251dfd6e2d85a95474c43".to_string())
    );
    assert_eq!(
        hi("password", b"salt", 4096).map(|key| hex(&key)),
        Ok("c5e478d59288c841aa530db6845c4c8d962893a001ce4e11a4963873aa98134a".to_string())
    );
}

#[test]
fn hi_takes_passwords_and_salts_of_any_length() {
    let salt: Vec<u8> = (0..70).collect();
    assert_eq!(
        hi("p\u{e4}\u{1f600}", &salt, 3).map(|key| hex(&key)),
        Ok("253c67088a3872112018f925ef7d1492003d356570efa027f150d73142a225c0".to_string())
    );
    assert_eq!(
        hi("x".repeat(100).as_str(), b"", 2).map(|key| hex(&key)),
        Ok("1b7d06cd867a060f68d5a1275251a56c4f6e5b2d84ea50aed8573f5b058b6711".to_string())
    );
}

#[test]
fn hi_without_iterations_is_hi_with_one() {
    assert_eq!(hi("password", b"salt", 0), hi("password", b"salt", 1));
}

#[test]
fn hi_combines_one_more_link_with_each_iteration() {
    let keys: Vec<[u8; 32]> = (1..3).map(|n| hi("password", b"salt", n).unwrap()).collect();
    let second_link = xor(&keys[0], &keys[1]);
    assert_eq!(
        hex(&second_link),
        "bc42ba5a5393f5ff6eedfdab7e3495e782557747df0e6497dee74026224cad38"
    );
}

#[test]
fn xor_undoes_itself() {
    let mut a = [0u8; 32];
    let mut b = [0u8; 32];
    for i in 0..32 {
        a[i] = (7 * i) as u8;
        b[i] = (251 - 3 * i) as u8;
    }
    let combined = xor(&a, &b);
    assert_eq!(combined[1], 7 ^ 248);
    assert_eq!(xor(&combined, &b), a);
}

#[test]
fn channel_binding_is_the_encoded_header() {
    assert_eq!(channel_binding(), "c=biws");
    assert_eq!(final_without_proof("abc"), "c=biws,r=abc");
}

#[test]
fn auth_message_joins_the_three_messages() {
    assert_eq!(auth_message("n=u,r=a", "r=ab,s=,i=1", "ab"), "n=u,r=a,r=ab,s=,i=1,c=biws,r=ab");
}

#[test]
fn final_message_carries_the_encoded_proof() {
    let zero = [0u8; 32];
    let mut key = [0u8; 32];
    for i in 0..32 {
        key[i] = (224 + i) as u8;
    }
    assert_eq!(
        client_final_message("ab", &key, &zero),
        "c=biws,r=ab,p=4OHi4+Tl5ufo6err7O3u7/Dx8vP09fb3+Pn6+/z9/v8="
    );
    for i in 0..32 {
        key[i] = if i % 2 == 0 { 251 } else { 255 };
    }
    assert_eq!(
        client_final_message("", &zero, &key),
        "c=biws,r=,p=+//7//v/+//7//v/+//7//v/+//7//v/+//7//v/+/8="
    );
}

#[test]
fn known_mechanisms_are_found_anywhere() {
    assert_eq!(check_mechanisms(&strings(&["SCRAM-SHA-256"])), Ok(()));
    assert_eq!(check_mechanisms(&strings(&["SCRAM-SHA-256-PLUS"])), Ok(()));
    assert_eq!(check_mechanisms(&strings(&["X", "SCRAM-SHA-256-PLUS", "Y"])), Ok(()));
    assert_eq!(check_mechanisms(&strings(&["X", "SCRAM-SHA-256"])), Ok(()));
}

#[test]
fn unknown_mechanisms_are_named() {
    let error = check_mechanisms(&strings(&["SCRAM-SHA-1", "GSSAPI", "scram-sha-256"]));
    assert_eq!(
        error,
        Err(SaslError::UnsupportedMechanisms("SCRAM-SHA-1, GSSAPI, scram-sha-256".to_string()))
    );
    assert_eq!(
        check_mechanisms(&Vec::new()),
        Err(SaslError::UnsupportedMechanisms(String::new()))
    );
}

#[test]
fn usernames_are_prepared() {
    assert_eq!(prepare_username("user"), Ok("n=user".to_string()));
    assert_eq!(prepare_username(""), Ok("n=".to_string()));
    assert_eq!(prepare_username("I\u{ad}X"), Ok("n=IX".to_string()));
    assert_eq!(prepare_username("\u{2168}"), Ok("n=IX".to_string()));
    assert_eq!(prepare_username("\u{7}"), Err(SaslError::Username));
    assert_eq!(prepare_username("\u{627}\u{31}"), Err(SaslError::Username));
    assert_eq!(prepare_username("a\u{5d0}"), Err(SaslError::Username));
}

#[test]
fn usernames_are_prepared_without_their_attribute() {
    assert_eq!(prepare_username("\u{5d0}"), Ok("n=\u{5d0}".to_string()));
    assert_eq!(prepare_username("\u{627}"), Ok("n=\u{627}".to_string()));
    assert_eq!(prepare_username("\u{338}x"), Ok("n=\u{338}x".to_string()));
    let first = match start(&strings(&["SCRAM-SHA-256"]), "\u{5d0}") {
        Ok(first) => first,
        Err(error) => panic!("{}", error.message()),
    };
    assert!(first.initial_response().response.starts_with("n,,n=\u{5d0},r="));
}

#[test]
fn nonce_numbers_step_over_the_comma() {
    assert_eq!(nonce_of(&vec![0, 10, 11, 12, 92]), "r=!+-.~");
    let all: Vec<u8> = (0..93).collect();
    let nonce = nonce_of(&all);
    assert_eq!(nonce.len(), 95);
    assert!(!nonce.contains(','));
}

#[test]
fn nonces_are_printable_and_differ() {
    let mut seen: Vec<String> = Vec::new();
    for _ in 0..50 {
        let nonce = gen_nonce();
        assert!(nonce.starts_with("r="));
        let value = &nonce[2..];
        assert!(value.len() >= 64 && value.len() < 128);
        assert!(value.chars().all(|c| c >= '!' && c <= '~' && c != ','));
        assert!(!seen.contains(&nonce));
        seen.push(nonce);
    }
}

#[test]
fn start_makes_the_first_message() {
    let first = match start(&strings(&["SCRAM-SHA-256"]), "I\u{ad}X") {
        Ok(first) => first,
        Err(error) => panic!("{}", error.message()),
    };
    let initial = first.initial_response();
    assert!(!initial.plus);
    assert!(initial.response.starts_with("n,,n=IX,r="));
    assert!(initial.response.len() >= 10 + 64);
}

#[test]
fn start_looks_at_the_mechanisms_before_the_username() {
    assert_eq!(
        start(&strings(&["X"]), "\u{7}"),
        Err(SaslError::UnsupportedMechanisms("X".to_string()))
    );
    assert_eq!(start(&strings(&["SCRAM-SHA-256"]), "\u{7}"), Err(SaslError::Username));
}

#[test]
fn first_message_has_header_name_and_nonce() {
    let first = ClientFirst::new("n=user", "r=rOprNGfwEbeRWgbNEkqO");
    assert_eq!(
        first.initial_response(),
        SaslInitialResponse {
            response: "n,,n=user,r=rOprNGfwEbeRWgbNEkqO".to_string(),
            plus: false,
        }
    );
}

#[test]
fn first_message_tells_name_and_nonce_apart() {
    let nonce = nonce_of(&vec![1; 64]);
    let tricky = ClientFirst::new("n=user,r=x", &nonce);
    let plain = ClientFirst::new("n=user", &nonce);
    assert_ne!(tricky.initial_response().response, plain.initial_response().response);
    assert_eq!(
        tricky.initial_response().response.rsplit(',').next(),
        Some(nonce.as_str())
    );
}

#[test]
fn exchange_of_the_standard_is_reproduced() {
    let answered = answered(Some("pencil"));
    assert_eq!(
        answered.message(),
        "c=biws,r=rOprNGfwEbeRWgbNEkqO%hvYDpWUa2RaTCAfuxFIlj)hNlF$k0,\
p=dHzbZapWIk4jUhN+Ute9ytag9zjfMHgsqmmiz7AndVQ="
    );
    assert_eq!(answered.finish(signed(&VERIFIER)), Ok(()));
}

#[test]
fn other_verifiers_are_refused() {
    let answered = answered(Some("pencil"));
    let mut wrong = VERIFIER;
    wrong[31] ^= 1;
    assert_eq!(answered.finish(signed(&wrong)), Err(SaslError::VerificationFailed));
    assert_eq!(answered.finish(signed(&VERIFIER[..31])), Err(SaslError::VerificationFailed));
    assert_eq!(answered.finish(signed(&[])), Err(SaslError::VerificationFailed));
}

#[test]
fn another_password_gives_another_proof() {
    let wrong = answered(Some("pencils"));
    assert_ne!(wrong.message(), answered(Some("pencil")).message());
    assert_eq!(wrong.finish(signed(&VERIFIER)), Err(SaslError::VerificationFailed));
}

fn short_answer(password: Option<&str>, iterations: u32) -> String {
    let reply = Reply {
        authentication: Authentication::SaslContinue(SaslContinue {
            salt: vec![1, 2],
            iterations,
            nonce: "ab".to_string(),
            message: "m".to_string(),
        }),
        debug: String::new(),
    };
    match ClientFirst::new("n=", "r=a").respond(password, reply) {
        Ok(answered) => answered.message().to_string(),
        Err(error) => panic!("{}", error.message()),
    }
}

#[test]
fn missing_password_is_empty() {
    let expected = "c=biws,r=ab,p=nzs2pdL1NDtEPKRG11jh8VGek5xe9ecyLo+sz3M624w=";
    assert_eq!(short_answer(None, 1), expected);
    assert_eq!(short_answer(Some(""), 1), expected);
    assert_eq!(short_answer(None, 0), expected);
}

#[test]
fn passwords_are_normalized() {
    assert_eq!(normalize("\u{2168}"), "IX");
    assert_eq!(normalize("I\u{ad}X"), "IX");
    assert_eq!(normalize("pencil, with = and ,"), "pencil, with = and ,");
    let expected = "c=biws,r=ab,p=vu6uuXBFHz88Ku1EGnVPZHiUJSvs7M0vmZRXp4ZwX7k=";
    assert_eq!(short_answer(Some("IX"), 1), expected);
    assert_eq!(short_answer(Some("\u{2168}"), 1), expected);
    assert_eq!(short_answer(Some("I\u{ad}X"), 1), expected);
}

#[test]
fn prohibited_passwords_are_taken_as_they_are() {
    assert_eq!(normalize("\u{7}"), "\u{7}");
    assert_eq!(
        short_answer(Some("\u{7}"), 1),
        "c=biws,r=ab,p=A2EVpIobvmYAf3Q+gp4WF9KvRqOEFaRCTpIVMPQ3FvM="
    );
    assert_eq!(
        short_answer(Some("a\u{5d0}"), 1),
        "c=biws,r=ab,p=YsSxGyCVqJcjf6enEXE/zMBB5Jk2p94uDRY5RoR/HsU="
    );
}

#[test]
fn challenges_are_answered_only_if_they_are_answerable() {
    let first = ClientFirst::new("n=user", "r=rOprNGfwEbeRWgbNEkqO");
    match first.respond_if_answerable(Some("pencil"), challenge()) {
        Some(Ok(last)) => assert_eq!(last.message(), answered(Some("pencil")).message()),
        _ => panic!("the challenge is short"),
    }
    match first.respond_if_answerable(Some("pencil"), other()) {
        Some(Err(error)) => assert_eq!(error, SaslError::ExpectedContinue("Ok".to_string())),
        _ => panic!("no challenge came"),
    }
}

#[test]
fn ordinary_challenges_are_answerable() {
    let first = ClientFirst::new("n=user", "r=rOprNGfwEbeRWgbNEkqO");
    if let Authentication::SaslContinue(challenge) = challenge().authentication {
        assert!(first.is_answerable(Some("pencil"), &challenge));
        assert!(first.is_answerable(None, &challenge));
    } else {
        unreachable!()
    }
}

#[test]
fn unexpected_replies_are_refused() {
    let first = ClientFirst::new("n=user", "r=rOprNGfwEbeRWgbNEkqO");
    assert_eq!(
        first.respond(None, other()).err(),
        Some(SaslError::ExpectedContinue("Ok".to_string()))
    );
    assert_eq!(
        first.respond(None, signed(&VERIFIER)).err(),
        Some(SaslError::ExpectedContinue("SaslFinal".to_string()))
    );
    let answered = answered(Some("pencil"));
    assert_eq!(answered.finish(other()), Err(SaslError::ExpectedFinal("Ok".to_string())));
    assert_eq!(
        answered.finish(challenge()),
        Err(SaslError::ExpectedFinal("SaslContinue".to_string()))
    );
}

#[test]
fn errors_say_what_went_wrong() {
    assert_eq!(
        SaslError::UnsupportedMechanisms("X, Y".to_string()).message(),
        "unsupported SASL authentication mechanisms: X, Y"
    );
    assert_eq!(SaslError::Username.message(), "Failed to saslprep username");
    assert_eq!(
        SaslError::ExpectedContinue("Ok".to_string()).message(),
        "expected SASLContinue but received Ok"
    );
    assert_eq!(
        SaslError::ExpectedFinal("Ok".to_string()).message(),
        "expected SASLFinal but received Ok"
    );
    assert_eq!(SaslError::InvalidKeyLength.message(), "invalid key length");
    assert_eq!(SaslError::VerificationFailed.message(), "failed MAC verification");
}
