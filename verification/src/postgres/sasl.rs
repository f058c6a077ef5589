//! Authentication with SCRAM-SHA-256: what the client sends, and when it accepts the server.
//!
//! The exchange has three steps. [`start`] looks at the mechanisms that the server offers and
//! makes the first message. [`ClientFirst::respond`] takes the server's challenge and makes the
//! final message. [`ClientFinal::finish`] takes the server's verifier and decides.

use vstd::prelude::*;
use vstd::slice::slice_to_vec;
use vstd::string::*;
use vstd::utf8::*;

use crate::postgres::laws::exchange::{
    law_answer_follows_the_standard, law_first_message_is_whole, law_known_mechanisms,
    law_names_of_the_standard, law_whole_nonce_is_sent_back,
};
use crate::postgres::primitives::{
    base64_encode, base64_text, hashable, hmac_sha256, hmac_sha256_code, hmac_sha256_verify,
    is_plain_ascii, random_in_range, saslprep, saslprep_output, sha256, sha256_digest,
};
use crate::postgres::quoting::names_of;

verus! {

/// What the first message starts with: no channel binding, no other identity.
pub const GS2_HEADER: &'static str = "n,,";

/// The attribute of the channel binding.
pub const CHANNEL_ATTR: &'static str = "c";

/// The attribute of the user's name.
pub const USERNAME_ATTR: &'static str = "n";

/// The attribute of the client's proof.
pub const CLIENT_PROOF_ATTR: &'static str = "p";

/// The attribute of a nonce.
pub const NONCE_ATTR: &'static str = "r";

/// Why an authentication failed.
#[derive(Debug, PartialEq, Eq)]
pub enum SaslError {
    /// The server offers none of the mechanisms that the client knows. Holds those that it
    /// offers, with a comma and a space in between.
    UnsupportedMechanisms(String),
    /// The user's name cannot be prepared with SASLprep.
    Username,
    /// Another message came in place of the challenge. Holds its debug text.
    ExpectedContinue(String),
    /// Another message came in place of the verifier. Holds its debug text.
    ExpectedFinal(String),
    /// A key was refused for its length.
    InvalidKeyLength,
    /// The server's verifier is not the one that it should be.
    VerificationFailed,
}

impl SaslError {
    /// What the error says.
    pub open spec fn text(&self) -> Seq<char> {
        match self {
            SaslError::UnsupportedMechanisms(
                offered,
            ) => "unsupported SASL authentication mechanisms: "@ + offered@,
            SaslError::Username => "Failed to saslprep username"@,
            SaslError::ExpectedContinue(received) => "expected SASLContinue but received "@
                + received@,
            SaslError::ExpectedFinal(received) => "expected SASLFinal but received "@ + received@,
            SaslError::InvalidKeyLength => "invalid key length"@,
            SaslError::VerificationFailed => "failed MAC verification"@,
        }
    }

    /// What the error says.
    pub fn message(&self) -> (message: String)
        ensures
            message@ == self.text(),
    {
        match self {
            SaslError::UnsupportedMechanisms(offered) => {
                let mut message = "unsupported SASL authentication mechanisms: ".to_owned();
                message.append(offered.as_str());
                message
            },
            SaslError::Username => "Failed to saslprep username".to_owned(),
            SaslError::ExpectedContinue(received) => {
                let mut message = "expected SASLContinue but received ".to_owned();
                message.append(received.as_str());
                message
            },
            SaslError::ExpectedFinal(received) => {
                let mut message = "expected SASLFinal but received ".to_owned();
                message.append(received.as_str());
                message
            },
            SaslError::InvalidKeyLength => "invalid key length".to_owned(),
            SaslError::VerificationFailed => "failed MAC verification".to_owned(),
        }
    }
}

/// A list of names with a comma and a space in between.
pub open spec fn joined(names: Seq<Seq<char>>) -> Seq<char>
    decreases names.len(),
{
    if names.len() == 0 {
        Seq::empty()
    } else if names.len() == 1 {
        names[0]
    } else {
        joined(names.drop_last()) + ", "@ + names.last()
    }
}

/// Writes a list of names with a comma and a space in between.
fn join(names: &Vec<String>) -> (list: String)
    ensures
        list@ == joined(names_of(names@)),
{
    let mut list = String::new();
    for i in 0..names.len()
        invariant
            list@ == joined(names_of(names@).take(i as int)),
    {
        if i > 0 {
            list.append(", ");
        }
        list.append(names[i].as_str());
        proof {
            let longer = names_of(names@).take(i + 1);
            assert(longer.drop_last() == names_of(names@).take(i as int));
            assert(longer.last() == names@[i as int]@);
            assert(list@ == joined(longer));
        }
    }
    assert(names_of(names@).take(names@.len() as int) == names_of(names@));
    list
}

/// Whether a mechanism is one that the client knows.
pub open spec fn is_known(mechanism: Seq<char>) -> bool {
    mechanism == "SCRAM-SHA-256"@ || mechanism == "SCRAM-SHA-256-PLUS"@
}

/// Whether one of the mechanisms is one that the client knows.
pub open spec fn any_known(mechanisms: Seq<Seq<char>>) -> bool {
    exists|i: int| 0 <= i < mechanisms.len() && is_known(#[trigger] mechanisms[i])
}

/// Whether `error` says that none of these mechanisms is known.
pub open spec fn names_unsupported(error: SaslError, mechanisms: Seq<Seq<char>>) -> bool {
    error matches SaslError::UnsupportedMechanisms(offered) && offered@ == joined(mechanisms)
}

/// Looks for a mechanism that the client knows among those that the server offers.
pub fn check_mechanisms(mechanisms: &Vec<String>) -> (outcome: Result<(), SaslError>)
    ensures
        outcome is Ok <==> any_known(names_of(mechanisms@)),
        outcome is Ok <==> names_of(mechanisms@).contains("SCRAM-SHA-256"@) || names_of(
            mechanisms@,
        ).contains("SCRAM-SHA-256-PLUS"@),
        outcome matches Err(error) ==> names_unsupported(error, names_of(mechanisms@)),
{
    proof {
        law_known_mechanisms(names_of(mechanisms@), Seq::empty());
    }
    let scram = "SCRAM-SHA-256".to_owned();
    let scram_plus = "SCRAM-SHA-256-PLUS".to_owned();
    let mut has_sasl = false;
    let mut has_sasl_plus = false;
    let mut unknown: Vec<String> = Vec::new();
    for i in 0..mechanisms.len()
        invariant
            scram@ == "SCRAM-SHA-256"@,
            scram_plus@ == "SCRAM-SHA-256-PLUS"@,
            has_sasl || has_sasl_plus ==> any_known(names_of(mechanisms@)),
            !has_sasl && !has_sasl_plus ==> {
                &&& names_of(unknown@) == names_of(mechanisms@).take(i as int)
                &&& forall|j: int|
                    0 <= j < i ==> !is_known(#[trigger] names_of(mechanisms@)[j])
            },
    {
        let mechanism = &mechanisms[i];
        assert(names_of(mechanisms@)[i as int] == mechanism@);
        if *mechanism == scram {
            has_sasl = true;
        } else if *mechanism == scram_plus {
            has_sasl_plus = true;
        } else {
            let ghost before = names_of(unknown@);
            unknown.push(mechanism.clone());
            assert(names_of(unknown@) == before.push(mechanism@));
            assert(names_of(mechanisms@).take(i + 1) == names_of(mechanisms@).take(i as int).push(
                mechanism@,
            ));
        }
    }
    if !has_sasl_plus && !has_sasl {
        assert(names_of(mechanisms@).take(mechanisms@.len() as int) == names_of(mechanisms@));
        return Err(SaslError::UnsupportedMechanisms(join(&unknown)));
    }
    Ok(())
}

/// The bytes of `a` combined with those of `b` by exclusive or, as far as both go.
pub open spec fn xor_seq(a: Seq<u8>, b: Seq<u8>) -> Seq<u8> {
    Seq::new(
        if a.len() <= b.len() {
            a.len()
        } else {
            b.len()
        },
        |i: int| a[i] ^ b[i],
    )
}

/// Combines two keys by exclusive or.
pub fn xor(a: &[u8; 32], b: &[u8; 32]) -> (combined: [u8; 32])
    ensures
        combined@ == xor_seq(a@, b@),
{
    let mut combined: [u8; 32] = [0; 32];
    for i in 0..32
        invariant
            forall|j: int| 0 <= j < i ==> combined@[j] == a@[j] ^ b@[j],
    {
        combined[i] = a[i] ^ b[i];
    }
    combined
}

/// The value `U_n` of `Hi`: each is the code of the one before it, the first that of the salt
/// and the number 1 in four bytes, the highest first.
pub open spec fn hi_link(key: Seq<u8>, salt: Seq<u8>, n: nat) -> Seq<u8>
    decreases n,
{
    if n <= 1 {
        hmac_sha256_code(key, salt + seq![0u8, 0u8, 0u8, 1u8])
    } else {
        hmac_sha256_code(key, hi_link(key, salt, (n - 1) as nat))
    }
}

/// `U_1`, ..., `U_n` combined by exclusive or. Without any iteration it is `U_1`.
pub open spec fn hi_sum(key: Seq<u8>, salt: Seq<u8>, n: nat) -> Seq<u8>
    decreases n,
{
    if n <= 1 {
        hi_link(key, salt, 1)
    } else {
        xor_seq(hi_sum(key, salt, (n - 1) as nat), hi_link(key, salt, n))
    }
}

/// `Hi(str, salt, i)`: the key that is derived from a password in `iter_count` iterations.
pub fn hi(s: &str, salt: &[u8], iter_count: u32) -> (key: Result<[u8; 32], SaslError>)
    requires
        hashable(s.spec_bytes().len()),
        hashable(salt@.len() + 4),
    ensures
        key matches Ok(key) && key@ == hi_sum(s.spec_bytes(), salt@, iter_count as nat),
{
    let mut first = slice_to_vec(salt);
    first.push(0);
    first.push(0);
    first.push(0);
    first.push(1);
    assert(first@ == salt@ + seq![0u8, 0u8, 0u8, 1u8]);
    let mut link = match hmac_sha256(s.as_bytes(), first.as_slice()) {
        Ok(code) => code,
        Err(_) => return Err(SaslError::InvalidKeyLength),
    };
    let mut sum = link;
    let mut n: u32 = 1;
    while n < iter_count
        invariant
            hashable(s.spec_bytes().len()),
            n <= iter_count || n == 1,
            n >= 1,
            link@ == hi_link(s.spec_bytes(), salt@, n as nat),
            sum@ == hi_sum(s.spec_bytes(), salt@, n as nat),
        decreases iter_count - n,
    {
        link = match hmac_sha256(s.as_bytes(), link.as_slice()) {
            Ok(code) => code,
            Err(_) => return Err(SaslError::InvalidKeyLength),
        };
        sum = xor(&sum, &link);
        n += 1;
    }
    Ok(sum)
}

/// An attribute of a message: its name, an equals sign and its value.
pub open spec fn attribute_text(name: Seq<char>, value: Seq<char>) -> Seq<char> {
    name + "="@ + value
}

/// Writes an attribute of a message.
fn attribute(name: &str, value: &str) -> (text: String)
    ensures
        text@ == attribute_text(name@, value@),
{
    let mut text = name.to_owned();
    text.append("=");
    text.append(value);
    text
}

/// The attribute that says that no channel is bound.
pub open spec fn channel_binding_text() -> Seq<char> {
    attribute_text(CHANNEL_ATTR@, base64_text(encode_utf8(GS2_HEADER@)))
}

/// The channel binding, which is made of the header of the first message.
pub fn channel_binding() -> (text: String)
    ensures
        text@ == channel_binding_text(),
        text@ == "c=biws"@,
{
    let header = GS2_HEADER.as_bytes();
    proof {
        reveal_strlit("n,,");
        reveal_strlit("c");
        reveal_strlit("=");
        reveal_strlit("c=biws");
        assert(is_ascii(GS2_HEADER));
        is_ascii_spec_bytes(GS2_HEADER);
        assert(header@ == seq![0x6eu8, 0x2cu8, 0x2cu8]);
        assert(base64_text(header@) =~= seq!['b', 'i', 'w', 's']);
    }
    attribute(CHANNEL_ATTR, base64_encode(header).as_str())
}

/// The attribute of the user's name: the name is prepared with SASLprep, and the attribute is made
/// of what comes out.
pub fn prepare_username(username: &str) -> (prepared: Result<String, SaslError>)
    ensures
        match prepared {
            Ok(prepared) => {
                &&& saslprep_output(username@) matches Some(name)
                &&& prepared@ == attribute_text(USERNAME_ATTR@, name)
                &&& prepared@ == "n="@ + name
            },
            Err(error) => saslprep_output(username@) is None && error is Username,
        },
        is_plain_ascii(username@) ==> (prepared matches Ok(prepared) && prepared@
            == attribute_text(USERNAME_ATTR@, username@)),
{
    match saslprep(username) {
        Ok(name) => {
            proof {
                law_names_of_the_standard(name@);
            }
            Ok(attribute(USERNAME_ATTR, name.as_str()))
        },
        Err(_) => Err(SaslError::Username),
    }
}

/// Whether a character may stand in a nonce: printable ASCII except the comma.
pub open spec fn is_printable(c: char) -> bool {
    '!' <= c <= '~' && c != ','
}

/// Whether a text is the attribute of a nonce that the client makes.
pub open spec fn is_nonce(text: Seq<char>) -> bool {
    exists|value: Seq<char>|
        {
            &&& text == #[trigger] attribute_text(NONCE_ATTR@, value)
            &&& 64 <= value.len() < 128
            &&& forall|i: int| 0 <= i < value.len() ==> is_printable(#[trigger] value[i])
        }
}

/// The number of characters that may stand in a nonce.
pub const PRINTABLE_COUNT: u8 = 93;

/// Whether a number stands for a character that may stand in a nonce.
pub open spec fn is_number(number: u8) -> bool {
    number < PRINTABLE_COUNT
}

/// The characters that may stand in a nonce, numbered from 0 in their order: the numbering steps
/// over the comma.
pub open spec fn printable(number: u8) -> char {
    if number < 11 {
        (0x21 + number) as char
    } else {
        (0x22 + number) as char
    }
}

/// Each of the characters that may stand in a nonce has one number, and each number stands for
/// one of them, so that numbers drawn evenly give characters drawn evenly.
pub proof fn law_printable_numbers_each_once(c: char)
    ensures
        forall|number: u8| is_number(number) ==> is_printable(#[trigger] printable(number)),
        forall|a: u8, b: u8|
            is_number(a) && is_number(b) && #[trigger] printable(a) == #[trigger] printable(b)
                ==> a == b,
        is_printable(c) ==> exists|number: u8|
            is_number(number) && #[trigger] printable(number) == c,
{
    if is_printable(c) {
        if ',' > c {
            assert(printable((c as int - 0x21) as u8) == c);
        } else {
            assert(printable((c as int - 0x22) as u8) == c);
        }
    }
}

/// The attribute of a nonce, given the numbers of its characters.
pub fn nonce_of(numbers: &Vec<u8>) -> (nonce: String)
    requires
        forall|i: int| 0 <= i < numbers@.len() ==> is_number(#[trigger] numbers@[i]),
    ensures
        nonce@ == attribute_text(NONCE_ATTR@, numbers@.map_values(|number: u8| printable(number))),
{
    let ghost characters = numbers@.map_values(|number: u8| printable(number));
    let mut value = String::new();
    for i in 0..numbers.len()
        invariant
            forall|i: int| 0 <= i < numbers@.len() ==> is_number(#[trigger] numbers@[i]),
            characters == numbers@.map_values(|number: u8| printable(number)),
            value@ == characters.take(i as int),
    {
        let number = numbers[i];
        let byte: u8 = if number < 11 {
            0x21 + number
        } else {
            0x22 + number
        };
        value.push(byte as char);
        assert(characters.take(i + 1) == characters.take(i as int).push(characters[i as int]));
    }
    assert(characters.take(numbers@.len() as int) == characters);
    attribute(NONCE_ATTR, value.as_str())
}

/// The attribute of a nonce: a sequence of 64 to 127 random printable characters.
pub fn gen_nonce() -> (nonce: String)
    ensures
        is_nonce(nonce@),
{
    let count = random_in_range(64, 128);
    let mut numbers: Vec<u8> = Vec::new();
    while numbers.len() < count as usize
        invariant
            64 <= count < 128,
            numbers@.len() <= count,
            forall|i: int| 0 <= i < numbers@.len() ==> is_number(#[trigger] numbers@[i]),
        decreases count - numbers@.len(),
    {
        numbers.push(random_in_range(0, PRINTABLE_COUNT));
    }
    proof {
        law_printable_numbers_each_once('!');
        let value = numbers@.map_values(|number: u8| printable(number));
        assert forall|i: int| 0 <= i < value.len() implies is_printable(#[trigger] value[i]) by {
            assert(value[i] == printable(numbers@[i]));
        }
    }
    nonce_of(&numbers)
}

/// What the client sends first.
#[derive(Debug, PartialEq, Eq)]
pub struct SaslInitialResponse {
    /// The message.
    pub response: String,
    /// Whether the mechanism with channel binding is chosen.
    pub plus: bool,
}

/// The server's challenge.
#[derive(Debug, PartialEq, Eq)]
pub struct SaslContinue {
    /// The salt of the password.
    pub salt: Vec<u8>,
    /// The number of iterations.
    pub iterations: u32,
    /// The nonce: the client's, with the server's behind it.
    pub nonce: String,
    /// The message as the server sent it.
    pub message: String,
}

/// The server's proof that it knows the password too.
#[derive(Debug, PartialEq, Eq)]
pub struct SaslFinal {
    /// The server's signature.
    pub verifier: Vec<u8>,
}

/// An authentication message of the server.
#[derive(Debug, PartialEq, Eq)]
pub enum Authentication {
    /// The challenge.
    SaslContinue(SaslContinue),
    /// The verifier.
    SaslFinal(SaslFinal),
    /// Any other message.
    Other,
}

/// A reply of the server, with its debug text.
#[derive(Debug, PartialEq, Eq)]
pub struct Reply {
    /// The message.
    pub authentication: Authentication,
    /// The message's debug text.
    pub debug: String,
}

/// The client after its first message. Its view is that message without the header.
#[derive(Debug, PartialEq, Eq)]
pub struct ClientFirst {
    bare: String,
}

impl View for ClientFirst {
    type V = Seq<char>;

    closed spec fn view(&self) -> Seq<char> {
        self.bare@
    }
}

/// The first message without the header.
pub open spec fn client_first_bare_text(username: Seq<char>, nonce: Seq<char>) -> Seq<char> {
    username + ","@ + nonce
}

/// Whether a first message without the header holds this attribute of the user's name, and a
/// nonce.
pub open spec fn names_user(bare: Seq<char>, username: Seq<char>) -> bool {
    exists|nonce: Seq<char>|
        is_nonce(nonce) && bare == #[trigger] client_first_bare_text(username, nonce)
}

/// The final message without the proof.
pub open spec fn final_without_proof_text(nonce: Seq<char>) -> Seq<char> {
    channel_binding_text() + ",r="@ + nonce
}

/// The text that both sides sign: the first message without the header, the server's challenge
/// and the final message without the proof.
pub open spec fn auth_message_text(
    bare: Seq<char>,
    challenge: Seq<char>,
    nonce: Seq<char>,
) -> Seq<char> {
    bare + ","@ + challenge + ","@ + final_without_proof_text(nonce)
}

/// The final message.
pub open spec fn client_final_text(nonce: Seq<char>, proof_bytes: Seq<u8>) -> Seq<char> {
    final_without_proof_text(nonce) + ","@ + attribute_text(
        CLIENT_PROOF_ATTR@,
        base64_text(proof_bytes),
    )
}

/// The password, which is empty where there is none.
pub open spec fn password_text(password: Option<&str>) -> Seq<char> {
    match password {
        Some(password) => password@,
        None => Seq::empty(),
    }
}

/// `Normalize(password)`: the password prepared with SASLprep, or as it is where SASLprep prohibits
/// it.
pub open spec fn normalized(password: Seq<char>) -> Seq<char> {
    match saslprep_output(password) {
        Some(text) => text,
        None => password,
    }
}

/// `SaltedPassword := Hi(Normalize(password), salt, i)`.
pub open spec fn salted_password(password: Seq<char>, salt: Seq<u8>, iterations: u32) -> Seq<u8> {
    hi_sum(encode_utf8(normalized(password)), salt, iterations as nat)
}

/// `ClientKey := HMAC(SaltedPassword, "Client Key")`.
pub open spec fn client_key(salted_password: Seq<u8>) -> Seq<u8> {
    hmac_sha256_code(salted_password, encode_utf8("Client Key"@))
}

/// `ClientSignature := HMAC(H(ClientKey), AuthMessage)`.
pub open spec fn client_signature(salted_password: Seq<u8>, auth_message: Seq<char>) -> Seq<u8> {
    hmac_sha256_code(sha256_digest(client_key(salted_password)), encode_utf8(auth_message))
}

/// `ClientProof := ClientKey XOR ClientSignature`.
pub open spec fn client_proof(salted_password: Seq<u8>, auth_message: Seq<char>) -> Seq<u8> {
    xor_seq(client_key(salted_password), client_signature(salted_password, auth_message))
}

/// `ServerKey := HMAC(SaltedPassword, "Server Key")`.
pub open spec fn server_key(salted_password: Seq<u8>) -> Seq<u8> {
    hmac_sha256_code(salted_password, encode_utf8("Server Key"@))
}

/// `ServerSignature := HMAC(ServerKey, AuthMessage)`.
pub open spec fn server_signature(server_key: Seq<u8>, auth_message: Seq<char>) -> Seq<u8> {
    hmac_sha256_code(server_key, encode_utf8(auth_message))
}

/// The client after its final message.
pub struct ClientFinal {
    message: String,
    server_key: [u8; 32],
    auth_message: String,
}

/// The state of a [`ClientFinal`].
#[verifier::ext_equal]
pub struct FinalState {
    /// The final message.
    pub message: Seq<char>,
    /// The key that the server signs with.
    pub server_key: Seq<u8>,
    /// The text that the server signs.
    pub auth_message: Seq<char>,
}

impl View for ClientFinal {
    type V = FinalState;

    closed spec fn view(&self) -> FinalState {
        FinalState {
            message: self.message@,
            server_key: self.server_key@,
            auth_message: self.auth_message@,
        }
    }
}

/// The client that answers a challenge, given its first message, its password and the challenge.
pub open spec fn answer(bare: Seq<char>, password: Seq<char>, challenge: SaslContinue) -> FinalState {
    let salted = salted_password(password, challenge.salt@, challenge.iterations);
    let auth_message = auth_message_text(bare, challenge.message@, challenge.nonce@);
    FinalState {
        message: client_final_text(challenge.nonce@, client_proof(salted, auth_message)),
        server_key: server_key(salted),
        auth_message,
    }
}

/// Whether the client's proof has 32 bytes, and a server that knows the client's signature gets the
/// client's key out of it, and so can compare the key's digest with the one that it has stored.
pub open spec fn proof_reveals_key(
    bare: Seq<char>,
    password: Seq<char>,
    challenge: SaslContinue,
) -> bool {
    let salted = salted_password(password, challenge.salt@, challenge.iterations);
    let auth_message = auth_message_text(bare, challenge.message@, challenge.nonce@);
    &&& client_proof(salted, auth_message).len() == 32
    &&& xor_seq(client_proof(salted, auth_message), client_signature(salted, auth_message))
        == client_key(salted)
}

/// Whether everything that answering a challenge hashes is short enough for SHA-256.
pub open spec fn answerable(bare: Seq<char>, password: Seq<char>, challenge: SaslContinue) -> bool {
    &&& hashable(encode_utf8(normalized(password)).len())
    &&& hashable(challenge.salt@.len() + 4)
    &&& hashable(
        encode_utf8(auth_message_text(bare, challenge.message@, challenge.nonce@)).len(),
    )
}

/// Starts an authentication: looks at the mechanisms that the server offers, prepares the user's
/// name and draws a nonce.
pub fn start(mechanisms: &Vec<String>, username: &str) -> (first: Result<ClientFirst, SaslError>)
    ensures
        ({
            let offered = names_of(mechanisms@);
            match first {
                Ok(first) => {
                    &&& any_known(offered)
                    &&& saslprep_output(username@) matches Some(name)
                    &&& names_user(first@, attribute_text(USERNAME_ATTR@, name))
                },
                Err(error) => if any_known(offered) {
                    saslprep_output(username@) is None && error is Username
                } else {
                    names_unsupported(error, offered)
                },
            }
        }),
        any_known(names_of(mechanisms@)) && is_plain_ascii(username@) ==> (first matches Ok(first)
            && names_user(first@, attribute_text(USERNAME_ATTR@, username@))),
{
    match check_mechanisms(mechanisms) {
        Ok(_) => {},
        Err(error) => return Err(error),
    }
    match prepare_username(username) {
        Ok(prepared) => {
            let nonce = gen_nonce();
            let first = ClientFirst::new(prepared.as_str(), nonce.as_str());
            assert(first@ == client_first_bare_text(prepared@, nonce@));
            Ok(first)
        },
        Err(error) => Err(error),
    }
}

/// The password, which is empty where there is none.
fn password_or_empty<'a>(password: Option<&'a str>) -> (text: &'a str)
    ensures
        text@ == password_text(password),
{
    proof {
        reveal_strlit("");
    }
    match password {
        Some(password) => password,
        None => "",
    }
}

/// `Normalize(password)`: the password prepared with SASLprep, or as it is where SASLprep prohibits
/// it.
pub fn normalize(password: &str) -> (text: String)
    ensures
        text@ == normalized(password@),
        is_plain_ascii(password@) ==> text@ == password@,
{
    match saslprep(password) {
        Ok(prepared) => prepared,
        Err(_) => password.to_owned(),
    }
}

/// Whether some bytes and a few more are short enough for SHA-256.
fn is_hashable(bytes: &[u8], more: u8) -> (short: bool)
    ensures
        short == hashable(bytes@.len() + more as nat),
{
    let limit: u64 = 0x1fff_ffff_ffff_ffbf - more as u64;
    bytes.len() as u64 <= limit
}

/// A text takes at most four bytes for each of its characters.
proof fn lemma_text_bytes(text: Seq<char>)
    ensures
        encode_utf8(text).len() <= 4 * text.len(),
    decreases text.len(),
{
    if text.len() > 0 {
        lemma_text_bytes(text.drop_first());
    }
}

/// Every text of less than 2^58 characters is short enough for SHA-256.
pub proof fn law_texts_are_hashable(text: Seq<char>)
    requires
        text.len() < 0x400_0000_0000_0000,
    ensures
        hashable(encode_utf8(text).len()),
{
    lemma_text_bytes(text);
}

/// The final message without the proof.
pub fn final_without_proof(nonce: &str) -> (text: String)
    ensures
        text@ == final_without_proof_text(nonce@),
        text@ == "c=biws,r="@ + nonce@,
{
    proof {
        law_whole_nonce_is_sent_back(Seq::empty(), Seq::empty(), nonce@, Seq::empty());
    }
    let mut text = channel_binding();
    text.append(",r=");
    text.append(nonce);
    text
}

/// The text that both sides sign.
pub fn auth_message(bare: &str, challenge: &str, nonce: &str) -> (text: String)
    ensures
        text@ == auth_message_text(bare@, challenge@, nonce@),
        text@ == bare@ + seq![','] + challenge@ + ",c=biws,r="@ + nonce@,
{
    proof {
        law_whole_nonce_is_sent_back(bare@, challenge@, nonce@, Seq::empty());
    }
    let mut text = bare.to_owned();
    text.append(",");
    text.append(challenge);
    text.append(",");
    text.append(final_without_proof(nonce).as_str());
    text
}

/// The final message, which proves that the client has the key to the signature.
pub fn client_final_message(
    nonce: &str,
    client_key: &[u8; 32],
    client_signature: &[u8; 32],
) -> (text: String)
    ensures
        text@ == client_final_text(nonce@, xor_seq(client_key@, client_signature@)),
        text@ == "c=biws,r="@ + nonce@ + ",p="@ + base64_text(
            xor_seq(client_key@, client_signature@),
        ),
{
    let client_proof = xor(client_key, client_signature);
    proof {
        law_whole_nonce_is_sent_back(Seq::empty(), Seq::empty(), nonce@, client_proof@);
    }
    let mut text = final_without_proof(nonce);
    text.append(",");
    text.append(
        attribute(CLIENT_PROOF_ATTR, base64_encode(client_proof.as_slice()).as_str()).as_str(),
    );
    text
}

impl ClientFirst {
    /// The client that identifies itself with these attributes.
    pub fn new(username: &str, nonce: &str) -> (first: ClientFirst)
        ensures
            first@ == client_first_bare_text(username@, nonce@),
            first@ == username@ + seq![','] + nonce@,
    {
        proof {
            law_first_message_is_whole(username@, nonce@, Seq::empty());
        }
        let mut bare = username.to_owned();
        bare.append(",");
        bare.append(nonce);
        ClientFirst { bare }
    }

    /// What the client sends first.
    pub fn initial_response(&self) -> (initial: SaslInitialResponse)
        ensures
            initial.response@ == GS2_HEADER@ + self@,
            initial.response@ == "n,,"@ + self@,
            !initial.plus,
    {
        proof {
            law_names_of_the_standard(Seq::empty());
        }
        let mut response = GS2_HEADER.to_owned();
        response.append(self.bare.as_str());
        SaslInitialResponse { response, plus: false }
    }

    /// Whether everything that answering this challenge hashes is short enough for SHA-256.
    pub fn is_answerable(&self, password: Option<&str>, challenge: &SaslContinue) -> (short: bool)
        ensures
            short == answerable(self@, password_text(password), *challenge),
    {
        let password = normalize(password_or_empty(password));
        let signed = auth_message(
            self.bare.as_str(),
            challenge.message.as_str(),
            challenge.nonce.as_str(),
        );
        is_hashable(password.as_str().as_bytes(), 0) && is_hashable(challenge.salt.as_slice(), 4)
            && is_hashable(signed.as_str().as_bytes(), 0)
    }

    /// Answers the server's challenge.
    pub fn respond(&self, password: Option<&str>, reply: Reply) -> (answered: Result<
        ClientFinal,
        SaslError,
    >)
        requires
            reply.authentication matches Authentication::SaslContinue(challenge) ==> answerable(
                self@,
                password_text(password),
                challenge,
            ),
        ensures
            match reply.authentication {
                Authentication::SaslContinue(challenge) => {
                    &&& answered matches Ok(answered)
                    &&& answered@ == answer(self@, password_text(password), challenge)
                    &&& proof_reveals_key(self@, password_text(password), challenge)
                    &&& answered@.message == "c=biws,r="@ + challenge.nonce@ + ",p="@ + base64_text(
                        client_proof(
                            hi_sum(
                                encode_utf8(
                                    normalized(
                                        match password {
                                            Some(password) => password@,
                                            None => Seq::empty(),
                                        },
                                    ),
                                ),
                                challenge.salt@,
                                challenge.iterations as nat,
                            ),
                            answered@.auth_message,
                        ),
                    )
                    &&& answered@.auth_message == self@ + seq![','] + challenge.message@
                        + ",c=biws,r="@ + challenge.nonce@
                },
                _ => answered == Err::<ClientFinal, SaslError>(
                    SaslError::ExpectedContinue(reply.debug),
                ),
            },
    {
        let challenge = match reply.authentication {
            Authentication::SaslContinue(challenge) => challenge,
            _ => return Err(SaslError::ExpectedContinue(reply.debug)),
        };
        let salted = match hi(
            normalize(password_or_empty(password)).as_str(),
            challenge.salt.as_slice(),
            challenge.iterations,
        ) {
            Ok(key) => key,
            Err(error) => return Err(error),
        };
        proof {
            reveal_strlit("Client Key");
            reveal_strlit("Server Key");
            law_texts_are_hashable("Client Key"@);
            law_texts_are_hashable("Server Key"@);
        }
        let client_key = match hmac_sha256(salted.as_slice(), "Client Key".as_bytes()) {
            Ok(code) => code,
            Err(_) => return Err(SaslError::InvalidKeyLength),
        };
        let stored_key = sha256(client_key.as_slice());
        let auth_message = auth_message(
            self.bare.as_str(),
            challenge.message.as_str(),
            challenge.nonce.as_str(),
        );
        let client_signature = match hmac_sha256(
            stored_key.as_slice(),
            auth_message.as_str().as_bytes(),
        ) {
            Ok(code) => code,
            Err(_) => return Err(SaslError::InvalidKeyLength),
        };
        let server_key = match hmac_sha256(salted.as_slice(), "Server Key".as_bytes()) {
            Ok(code) => code,
            Err(_) => return Err(SaslError::InvalidKeyLength),
        };
        proof {
            law_xor_undoes_itself(client_key@, client_signature@);
            law_answer_follows_the_standard(
                self@,
                password_text(password),
                challenge,
                salted@,
                stored_key@,
            );
        }
        let message = client_final_message(
            challenge.nonce.as_str(),
            &client_key,
            &client_signature,
        );
        Ok(ClientFinal { message, server_key, auth_message })
    }

    /// Answers the server's challenge, unless something that answering it hashes is too long for
    /// SHA-256.
    pub fn respond_if_answerable(&self, password: Option<&str>, reply: Reply) -> (answered: Option<
        Result<ClientFinal, SaslError>,
    >)
        ensures
            match reply.authentication {
                Authentication::SaslContinue(challenge) => if answerable(
                    self@,
                    password_text(password),
                    challenge,
                ) {
                    &&& answered matches Some(Ok(answered))
                    &&& answered@ == answer(self@, password_text(password), challenge)
                    &&& proof_reveals_key(self@, password_text(password), challenge)
                    &&& answered@.message == "c=biws,r="@ + challenge.nonce@ + ",p="@ + base64_text(
                        client_proof(
                            hi_sum(
                                encode_utf8(
                                    normalized(
                                        match password {
                                            Some(password) => password@,
                                            None => Seq::empty(),
                                        },
                                    ),
                                ),
                                challenge.salt@,
                                challenge.iterations as nat,
                            ),
                            answered@.auth_message,
                        ),
                    )
                    &&& answered@.auth_message == self@ + seq![','] + challenge.message@
                        + ",c=biws,r="@ + challenge.nonce@
                } else {
                    answered is None
                },
                _ => answered == Some(
                    Err::<ClientFinal, SaslError>(SaslError::ExpectedContinue(reply.debug)),
                ),
            },
    {
        if let Authentication::SaslContinue(challenge) = &reply.authentication {
            if !self.is_answerable(password, challenge) {
                return None;
            }
        }
        Some(self.respond(password, reply))
    }
}

impl ClientFinal {
    #[verifier::type_invariant]
    spec fn signs_hashable(self) -> bool {
        hashable(encode_utf8(self.auth_message@).len())
    }

    /// The final message.
    pub fn message(&self) -> (message: &str)
        ensures
            message@ == self@.message,
    {
        self.message.as_str()
    }

    /// Takes the server's verifier. Authentication is only considered valid if it is the
    /// signature that the server's key gives; one that has not 32 bytes never is.
    pub fn finish(&self, reply: Reply) -> (outcome: Result<(), SaslError>)
        ensures
            match reply.authentication {
                Authentication::SaslFinal(data) => if data.verifier@ == server_signature(
                    self@.server_key,
                    self@.auth_message,
                ) {
                    outcome is Ok
                } else {
                    outcome == Err::<(), SaslError>(SaslError::VerificationFailed)
                },
                _ => outcome == Err::<(), SaslError>(SaslError::ExpectedFinal(reply.debug)),
            },
            reply.authentication matches Authentication::SaslFinal(data) ==> (data.verifier@.len()
                != 32 ==> outcome == Err::<(), SaslError>(SaslError::VerificationFailed)),
    {
        proof {
            use_type_invariant(self);
        }
        let data = match reply.authentication {
            Authentication::SaslFinal(data) => data,
            _ => return Err(SaslError::ExpectedFinal(reply.debug)),
        };
        match hmac_sha256_verify(
            self.server_key.as_slice(),
            self.auth_message.as_str().as_bytes(),
            data.verifier.as_slice(),
        ) {
            Ok(Ok(_)) => Ok(()),
            Ok(Err(_)) => Err(SaslError::VerificationFailed),
            Err(_) => Err(SaslError::InvalidKeyLength),
        }
    }
}

/// Combining twice with the same bytes by exclusive or gives back what was there before.
pub proof fn law_xor_undoes_itself(a: Seq<u8>, b: Seq<u8>)
    requires
        a.len() <= b.len(),
    ensures
        xor_seq(xor_seq(a, b), b) == a,
{
    assert forall|i: int| 0 <= i < a.len() implies xor_seq(xor_seq(a, b), b)[i] == a[i] by {
        let x = a[i];
        let y = b[i];
        assert(x ^ y ^ y == x) by (bit_vector);
    }
    assert(xor_seq(xor_seq(a, b), b) =~= a);
}

/// The one verifier that is accepted is the code of the signed text under the server's key, which
/// follow from the password and the messages of the exchange alone.
pub proof fn law_accepted_verifier(bare: Seq<char>, password: Seq<char>, challenge: SaslContinue)
    ensures
        ({
            let answered = answer(bare, password, challenge);
            server_signature(answered.server_key, answered.auth_message) == hmac_sha256_code(
                hmac_sha256_code(
                    salted_password(password, challenge.salt@, challenge.iterations),
                    encode_utf8("Server Key"@),
                ),
                encode_utf8(auth_message_text(bare, challenge.message@, challenge.nonce@)),
            )
        }),
{
}

/// A password and the text that SASLprep makes of it are interchangeable: they give the same final
/// message, and the same verifier is accepted.
pub proof fn law_normalized_password_answers_alike(
    bare: Seq<char>,
    password: Seq<char>,
    prepared: Seq<char>,
    challenge: SaslContinue,
)
    requires
        saslprep_output(password) == Some(prepared),
        saslprep_output(prepared) == Some(prepared),
    ensures
        answer(bare, password, challenge) == answer(bare, prepared, challenge),
        answerable(bare, password, challenge) == answerable(bare, prepared, challenge),
{
}

/// A first iteration of `Hi` gives `U_1`, and each further one combines what the ones before it
/// gave with its own link, byte by byte.
pub proof fn law_hi_one_more_iteration(key: Seq<u8>, salt: Seq<u8>, n: nat)
    requires
        n >= 1,
    ensures
        hi_link(key, salt, 1) == hmac_sha256_code(key, salt + seq![0u8, 0u8, 0u8, 1u8]),
        hi_link(key, salt, n + 1) == hmac_sha256_code(key, hi_link(key, salt, n)),
        hi_sum(key, salt, 1) == hi_link(key, salt, 1),
        hi_sum(key, salt, n + 1) == xor_seq(hi_sum(key, salt, n), hi_link(key, salt, n + 1)),
        forall|i: int|
            0 <= i < hi_sum(key, salt, n + 1).len() ==> #[trigger] hi_sum(key, salt, n + 1)[i]
                == hi_sum(key, salt, n)[i] ^ hi_link(key, salt, n + 1)[i],
{
}

/// No iterations of `Hi` count as one, and so a challenge without iterations is answered like one
/// with a single iteration.
pub proof fn law_no_iterations_are_one(key: Seq<u8>, password: Seq<char>, salt: Seq<u8>)
    ensures
        hi_sum(key, salt, 0) == hi_sum(key, salt, 1),
        salted_password(password, salt, 0) == salted_password(password, salt, 1),
{
}

/// A nonce that the client makes holds no comma.
pub proof fn law_nonce_has_no_comma(nonce: Seq<char>)
    requires
        is_nonce(nonce),
    ensures
        !nonce.contains(','),
{
    let value = choose|value: Seq<char>|
        {
            &&& nonce == #[trigger] attribute_text(NONCE_ATTR@, value)
            &&& 64 <= value.len() < 128
            &&& forall|i: int| 0 <= i < value.len() ==> is_printable(#[trigger] value[i])
        };
    reveal_strlit("r");
    reveal_strlit("=");
    assert forall|i: int| 0 <= i < nonce.len() implies nonce[i] != ',' by {
        if i >= 2 {
            assert(nonce[i] == value[i - 2]);
        }
    }
}

/// A first message is read in one way only, whatever the user's name holds: the name and the
/// nonce can be told apart.
pub proof fn law_first_message_is_unambiguous(
    username: Seq<char>,
    nonce: Seq<char>,
    other_username: Seq<char>,
    other_nonce: Seq<char>,
)
    requires
        is_nonce(nonce),
        is_nonce(other_nonce),
        client_first_bare_text(username, nonce) == client_first_bare_text(
            other_username,
            other_nonce,
        ),
    ensures
        username == other_username,
        nonce == other_nonce,
{
    law_nonce_has_no_comma(nonce);
    law_nonce_has_no_comma(other_nonce);
    reveal_strlit(",");
    let text = client_first_bare_text(username, nonce);
    let other_text = client_first_bare_text(other_username, other_nonce);
    let first = username.len() as int;
    let second = other_username.len() as int;
    assert(text == other_text);
    assert(text.len() == first + 1 + nonce.len());
    assert(text.len() == second + 1 + other_nonce.len());
    assert(text[first] == ',');
    assert(other_text[second] == ',');
    if first < second {
        assert(text[second] == nonce[second - first - 1]);
        assert(nonce.contains(','));
    }
    if second < first {
        assert(other_text[first] == other_nonce[first - second - 1]);
        assert(other_nonce.contains(','));
    }
    assert(text.take(first) == username);
    assert(text.take(second) == other_username);
    assert(text.skip(first + 1) == nonce);
    assert(text.skip(second + 1) == other_nonce);
}

} // verus!
