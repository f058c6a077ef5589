//! Laws of the SCRAM-SHA-256 exchange: which servers it is started with, what each message holds,
//! and that a server that knows the password accepts the proof.

use vstd::arithmetic::div_mod::lemma_fundamental_div_mod_converse;
use vstd::prelude::*;
use vstd::utf8::*;

use crate::postgres::primitives::{
    base64_char, base64_digit, base64_text, byte_or_zero, hashable, hmac_sha256_code,
    is_plain_ascii, saslprep_output, sha256_digest,
};
use crate::postgres::sasl::{
    answer, answerable, any_known, attribute_text, auth_message_text, channel_binding_text,
    client_final_text, client_first_bare_text, final_without_proof_text, hi_sum, is_known,
    is_nonce, is_number, is_printable, joined, names_unsupported,
    names_user, normalized, password_text, printable, proof_reveals_key, salted_password,
    server_signature, xor_seq, SaslContinue, SaslError, CHANNEL_ATTR, CLIENT_PROOF_ATTR,
    GS2_HEADER, NONCE_ATTR, USERNAME_ATTR,
};

verus! {

/// A list of mechanisms is accepted exactly when it holds SCRAM-SHA-256 or SCRAM-SHA-256-PLUS,
/// whatever else it holds and wherever it stands. So is one that is made of two lists, exactly
/// when one of the two is: adding mechanisms never makes an accepted list refused.
pub proof fn law_known_mechanisms(front: Seq<Seq<char>>, back: Seq<Seq<char>>)
    ensures
        any_known(front) <==> front.contains("SCRAM-SHA-256"@) || front.contains(
            "SCRAM-SHA-256-PLUS"@,
        ),
        any_known(front + back) <==> any_known(front) || any_known(back),
{
    if front.contains("SCRAM-SHA-256"@) {
        let i = choose|i: int| 0 <= i < front.len() && front[i] == "SCRAM-SHA-256"@;
        assert(is_known(front[i]));
    }
    if front.contains("SCRAM-SHA-256-PLUS"@) {
        let i = choose|i: int| 0 <= i < front.len() && front[i] == "SCRAM-SHA-256-PLUS"@;
        assert(is_known(front[i]));
    }
    if any_known(front) {
        let i = choose|i: int| 0 <= i < front.len() && is_known(#[trigger] front[i]);
        assert((front + back)[i] == front[i]);
    }
    if any_known(back) {
        let i = choose|i: int| 0 <= i < back.len() && is_known(#[trigger] back[i]);
        assert((front + back)[front.len() + i] == back[i]);
    }
    if any_known(front + back) {
        let i = choose|i: int|
            0 <= i < (front + back).len() && is_known(#[trigger] (front + back)[i]);
        if i < front.len() {
            assert(is_known(front[i]));
        } else {
            assert(is_known(back[i - front.len()]));
        }
    }
}

/// A list of names is written as the names alone, with a comma and a space between one name and the
/// next.
pub proof fn law_joined_lists(front: Seq<Seq<char>>, back: Seq<Seq<char>>, name: Seq<char>)
    ensures
        joined(Seq::empty()) == Seq::<char>::empty(),
        joined(seq![name]) == name,
        front.len() > 0 && back.len() > 0 ==> joined(front + back) == joined(front) + seq![',', ' ']
            + joined(back),
    decreases back.len(),
{
    reveal_strlit(", ");
    assert(", "@ =~= seq![',', ' ']);
    if front.len() > 0 && back.len() > 0 {
        let whole = front + back;
        assert(whole.last() == back.last());
        if back.len() == 1 {
            assert(whole.drop_last() =~= front);
            assert(joined(whole) =~= joined(front) + seq![',', ' '] + joined(back));
        } else {
            law_joined_lists(front, back.drop_last(), name);
            assert(whole.drop_last() =~= front + back.drop_last());
            assert(joined(whole) =~= joined(front) + seq![',', ' '] + joined(back));
        }
    }
}

/// An error says what it holds, behind words that say what went wrong.
pub proof fn law_errors_say_what_they_hold(error: SaslError, offered: Seq<Seq<char>>)
    ensures
        error matches SaslError::UnsupportedMechanisms(held) ==> error.text()
            == "unsupported SASL authentication mechanisms: "@ + held@,
        error matches SaslError::ExpectedContinue(held) ==> error.text()
            == "expected SASLContinue but received "@ + held@,
        error matches SaslError::ExpectedFinal(held) ==> error.text()
            == "expected SASLFinal but received "@ + held@,
        error is Username ==> error.text() == "Failed to saslprep username"@,
        error is InvalidKeyLength ==> error.text() == "invalid key length"@,
        error is VerificationFailed ==> error.text() == "failed MAC verification"@,
        names_unsupported(error, offered) <==> error is UnsupportedMechanisms && error.text()
            == "unsupported SASL authentication mechanisms: "@ + joined(offered),
{
    let words = "unsupported SASL authentication mechanisms: "@;
    if let SaslError::UnsupportedMechanisms(held) = error {
        assert((words + held@).skip(words.len() as int) =~= held@);
        assert((words + joined(offered)).skip(words.len() as int) =~= joined(offered));
    }
}

/// An attribute is its name, an equals sign and the whole value.
pub proof fn law_attributes_are_whole(name: Seq<char>, value: Seq<char>)
    ensures
        attribute_text(name, value) == name + seq!['='] + value,
{
    reveal_strlit("=");
    assert("="@ =~= seq!['=']);
}

/// The header and the attributes' names are those of the standard, and the attribute of a user's
/// name is `n=` and the whole name.
pub proof fn law_names_of_the_standard(name: Seq<char>)
    ensures
        GS2_HEADER@ == "n,,"@,
        CHANNEL_ATTR@ == "c"@,
        USERNAME_ATTR@ == "n"@,
        CLIENT_PROOF_ATTR@ == "p"@,
        NONCE_ATTR@ == "r"@,
        attribute_text(USERNAME_ATTR@, name) == "n="@ + name,
{
    reveal_strlit("n");
    reveal_strlit("=");
    reveal_strlit("n=");
    assert("n="@ =~= "n"@ + "="@);
}

/// The channel binding says in base64 that there is none.
pub proof fn law_channel_binding()
    ensures
        channel_binding_text() == "c=biws"@,
{
    reveal_strlit("n,,");
    reveal_strlit("c");
    reveal_strlit("=");
    reveal_strlit("c=biws");
    is_ascii_chars_encode_utf8(GS2_HEADER@);
    assert(encode_utf8(GS2_HEADER@) =~= seq![0x6eu8, 0x2cu8, 0x2cu8]);
    assert(base64_text(encode_utf8(GS2_HEADER@)) =~= seq!['b', 'i', 'w', 's']);
    assert(channel_binding_text() =~= "c=biws"@);
}

/// A text is the attribute of a nonce that the client makes exactly when it is `r=` and 64 to 127
/// characters of printable ASCII, none of which is a comma.
pub proof fn law_nonces(text: Seq<char>)
    ensures
        is_nonce(text) <==> {
            &&& 66 <= text.len() < 130
            &&& text[0] == 'r'
            &&& text[1] == '='
            &&& forall|i: int|
                2 <= i < text.len() ==> 0x21 <= (#[trigger] text[i]) as int <= 0x7e && text[i]
                    != ','
        },
{
    reveal_strlit("r");
    reveal_strlit("=");
    if is_nonce(text) {
        let value = choose|value: Seq<char>|
            {
                &&& text == #[trigger] attribute_text(NONCE_ATTR@, value)
                &&& 64 <= value.len() < 128
                &&& forall|i: int| 0 <= i < value.len() ==> is_printable(#[trigger] value[i])
            };
        assert forall|i: int| 2 <= i < text.len() implies 0x21 <= (#[trigger] text[i]) as int
            <= 0x7e && text[i] != ',' by {
            assert(text[i] == value[i - 2]);
        }
    }
    if {
        &&& 66 <= text.len() < 130
        &&& text[0] == 'r'
        &&& text[1] == '='
        &&& forall|i: int|
            2 <= i < text.len() ==> 0x21 <= (#[trigger] text[i]) as int <= 0x7e && text[i] != ','
    } {
        let value = text.skip(2);
        assert(text =~= attribute_text(NONCE_ATTR@, value));
        assert forall|i: int| 0 <= i < value.len() implies is_printable(#[trigger] value[i]) by {
            assert(value[i] == text[i + 2]);
        }
    }
}

/// The numbers from 0 to 92 stand for the printable characters in their order, from `!` to `~`,
/// without the comma.
pub proof fn law_printable_characters_in_order(a: u8, b: u8)
    ensures
        is_number(a) <==> a < 93,
        printable(0) == '!',
        printable(92) == '~',
        a < b < 93 ==> (printable(a) as int) < (printable(b) as int),
        a < 93 ==> printable(a) != ',',
{
}

/// A text is plain exactly when each of its characters is ASCII and no control character.
pub proof fn law_plain_ascii(text: Seq<char>)
    ensures
        is_plain_ascii(text) <==> forall|i: int|
            0 <= i < text.len() ==> 0x20 <= (#[trigger] text[i]) as int <= 0x7e,
{
}

/// A first message is the whole attribute of the user's name, a comma and the whole attribute of
/// the nonce; and it can be taken apart again.
pub proof fn law_first_message_is_whole(username: Seq<char>, nonce: Seq<char>, bare: Seq<char>)
    ensures
        client_first_bare_text(username, nonce) == username + seq![','] + nonce,
        names_user(bare, username) <==> {
            &&& username.len() < bare.len()
            &&& bare.take(username.len() as int) == username
            &&& bare[username.len() as int] == ','
            &&& is_nonce(bare.skip(username.len() as int + 1))
        },
{
    reveal_strlit(",");
    assert(","@ =~= seq![',']);
    if names_user(bare, username) {
        let drawn = choose|drawn: Seq<char>|
            is_nonce(drawn) && bare == #[trigger] client_first_bare_text(username, drawn);
        assert(bare.take(username.len() as int) =~= username);
        assert(bare.skip(username.len() as int + 1) =~= drawn);
    }
    if username.len() < bare.len() && bare.take(username.len() as int) == username
        && bare[username.len() as int] == ',' {
        assert(bare =~= client_first_bare_text(username, bare.skip(username.len() as int + 1)));
    }
}

/// The final message sends back the whole nonce of the challenge, however long it is and whatever
/// it holds, between the channel binding and the proof; and the text that is signed ends with it.
pub proof fn law_whole_nonce_is_sent_back(
    bare: Seq<char>,
    challenge: Seq<char>,
    nonce: Seq<char>,
    proof_bytes: Seq<u8>,
)
    ensures
        final_without_proof_text(nonce) == "c=biws,r="@ + nonce,
        client_final_text(nonce, proof_bytes) == "c=biws,r="@ + nonce + ",p="@ + base64_text(
            proof_bytes,
        ),
        auth_message_text(bare, challenge, nonce) == bare + seq![','] + challenge + ",c=biws,r="@
            + nonce,
{
    law_channel_binding();
    reveal_strlit(",");
    reveal_strlit("=");
    reveal_strlit("p");
    reveal_strlit(",r=");
    reveal_strlit(",p=");
    reveal_strlit("c=biws");
    reveal_strlit("c=biws,r=");
    reveal_strlit(",c=biws,r=");
    assert("c=biws,r="@ =~= "c=biws"@ + ",r="@);
    assert(final_without_proof_text(nonce) =~= "c=biws,r="@ + nonce);
    assert(client_final_text(nonce, proof_bytes) =~= "c=biws,r="@ + nonce + ",p="@ + base64_text(
        proof_bytes,
    ));
    assert(auth_message_text(bare, challenge, nonce) =~= bare + seq![','] + challenge
        + ",c=biws,r="@ + nonce);
}

/// Two challenges whose nonces differ are answered with messages that differ, where the proofs do
/// not: no part of a nonce is left out.
pub proof fn law_nonces_are_told_apart(nonce: Seq<char>, other: Seq<char>, proof_bytes: Seq<u8>)
    requires
        client_final_text(nonce, proof_bytes) == client_final_text(other, proof_bytes),
    ensures
        nonce == other,
{
    law_whole_nonce_is_sent_back(Seq::empty(), Seq::empty(), nonce, proof_bytes);
    law_whole_nonce_is_sent_back(Seq::empty(), Seq::empty(), other, proof_bytes);
    let front = "c=biws,r="@;
    let message = client_final_text(nonce, proof_bytes);
    assert(message.len() == front.len() + nonce.len() + ",p="@.len() + base64_text(
        proof_bytes,
    ).len());
    assert(message.len() == front.len() + other.len() + ",p="@.len() + base64_text(
        proof_bytes,
    ).len());
    assert(message.subrange(front.len() as int, (front.len() + nonce.len()) as int) =~= nonce);
    assert(message.subrange(front.len() as int, (front.len() + other.len()) as int) =~= other);
}

/// The key is derived from all of a password that is given, whatever its length, and from the empty
/// text where none is given: from what SASLprep makes of it, or from the password itself where
/// SASLprep prohibits it.
pub proof fn law_whole_password_counts(
    password: &str,
    prepared: Seq<char>,
    salt: Seq<u8>,
    iterations: u32,
)
    ensures
        password_text(Some(password)) == password@,
        password_text(None) == Seq::<char>::empty(),
        saslprep_output(password@) == Some(prepared) ==> normalized(password@) == prepared,
        saslprep_output(password@) is None ==> normalized(password@) == password@,
        saslprep_output(password@) == Some(prepared) ==> salted_password(
            password_text(Some(password)),
            salt,
            iterations,
        ) == hi_sum(encode_utf8(prepared), salt, iterations as nat),
        saslprep_output(password@) is None ==> salted_password(
            password_text(Some(password)),
            salt,
            iterations,
        ) == hi_sum(encode_utf8(password@), salt, iterations as nat),
{
}

/// What the standard says of the exchange, over the key that is derived from the password: which
/// text is signed, what the proof is made of, and what the server signs with.
pub proof fn law_answer_follows_the_standard(
    bare: Seq<char>,
    password: Seq<char>,
    challenge: SaslContinue,
    salted: Seq<u8>,
    stored_key: Seq<u8>,
)
    requires
        salted == salted_password(password, challenge.salt@, challenge.iterations),
        stored_key == sha256_digest(hmac_sha256_code(salted, encode_utf8("Client Key"@))),
    ensures
        answer(bare, password, challenge).auth_message == bare + seq![','] + challenge.message@
            + ",c=biws,r="@ + challenge.nonce@,
        answer(bare, password, challenge).message == "c=biws,r="@ + challenge.nonce@ + ",p="@
            + base64_text(
            xor_seq(
                hmac_sha256_code(salted, encode_utf8("Client Key"@)),
                hmac_sha256_code(
                    stored_key,
                    encode_utf8(answer(bare, password, challenge).auth_message),
                ),
            ),
        ),
        answer(bare, password, challenge).server_key == hmac_sha256_code(
            salted,
            encode_utf8("Server Key"@),
        ),
        server_signature(
            answer(bare, password, challenge).server_key,
            answer(bare, password, challenge).auth_message,
        ) == hmac_sha256_code(
            hmac_sha256_code(salted, encode_utf8("Server Key"@)),
            encode_utf8(answer(bare, password, challenge).auth_message),
        ),
{
    law_whole_nonce_is_sent_back(
        bare,
        challenge.message@,
        challenge.nonce@,
        xor_seq(
            hmac_sha256_code(salted, encode_utf8("Client Key"@)),
            hmac_sha256_code(
                stored_key,
                encode_utf8(answer(bare, password, challenge).auth_message),
            ),
        ),
    );
}

/// A server that has stored the digest of the client's key accepts the message that answers its
/// challenge: the message carries its nonce and a proof of 32 bytes, and what is left of the proof
/// when the signature is taken out of it has the digest that is stored.
pub proof fn law_server_accepts_the_answer(
    bare: Seq<char>,
    password: Seq<char>,
    challenge: SaslContinue,
    stored_key: Seq<u8>,
) -> (proof_bytes: Seq<u8>)
    requires
        proof_reveals_key(bare, password, challenge),
        stored_key == sha256_digest(
            hmac_sha256_code(
                salted_password(password, challenge.salt@, challenge.iterations),
                encode_utf8("Client Key"@),
            ),
        ),
    ensures
        proof_bytes.len() == 32,
        answer(bare, password, challenge).message == "c=biws,r="@ + challenge.nonce@ + ",p="@
            + base64_text(proof_bytes),
        sha256_digest(
            xor_seq(
                proof_bytes,
                hmac_sha256_code(
                    stored_key,
                    encode_utf8(
                        bare + seq![','] + challenge.message@ + ",c=biws,r="@ + challenge.nonce@,
                    ),
                ),
            ),
        ) == stored_key,
{
    let salted = salted_password(password, challenge.salt@, challenge.iterations);
    law_answer_follows_the_standard(bare, password, challenge, salted, stored_key);
    xor_seq(
        hmac_sha256_code(salted, encode_utf8("Client Key"@)),
        hmac_sha256_code(stored_key, encode_utf8(answer(bare, password, challenge).auth_message)),
    )
}

/// Exclusive or goes byte by byte, as far as both texts go.
pub proof fn law_xor_is_by_byte(a: Seq<u8>, b: Seq<u8>)
    ensures
        xor_seq(a, b).len() <= a.len(),
        xor_seq(a, b).len() <= b.len(),
        xor_seq(a, b).len() == a.len() || xor_seq(a, b).len() == b.len(),
        forall|i: int|
            0 <= i < xor_seq(a, b).len() ==> #[trigger] xor_seq(a, b)[i] == a[i] ^ b[i],
{
}

/// A challenge is answered unless the prepared password, the salt with its number or the signed
/// text is longer than SHA-256 can count, which is beyond 2^61 bytes but for a block.
pub proof fn law_only_huge_inputs_are_refused(
    length: nat,
    bare: Seq<char>,
    password: Seq<char>,
    challenge: SaslContinue,
)
    ensures
        hashable(length) <==> length < 0x2000_0000_0000_0000 - 64,
        answerable(bare, password, challenge) <==> {
            &&& encode_utf8(normalized(password)).len() < 0x2000_0000_0000_0000 - 64
            &&& challenge.salt@.len() + 4 < 0x2000_0000_0000_0000 - 64
            &&& encode_utf8(
                bare + seq![','] + challenge.message@ + ",c=biws,r="@ + challenge.nonce@,
            ).len() < 0x2000_0000_0000_0000 - 64
        },
{
    law_whole_nonce_is_sent_back(bare, challenge.message@, challenge.nonce@, Seq::empty());
}

/// The number that a digit of base64's standard alphabet stands for.
pub open spec fn base64_value(digit: char) -> int {
    if 'A' <= digit <= 'Z' {
        digit as int - 'A' as int
    } else if 'a' <= digit <= 'z' {
        digit as int - 'a' as int + 26
    } else if '0' <= digit <= '9' {
        digit as int - '0' as int + 52
    } else if digit == '+' {
        62
    } else {
        63
    }
}

/// Each digit of base64 stands for the number that it was made of.
pub proof fn law_base64_digits_read_back(value: int)
    requires
        0 <= value < 64,
    ensures
        base64_value(base64_digit(value)) == value,
        base64_digit(value) != '=',
{
}

/// The 24 bits of three bytes, six at a time.
proof fn lemma_four_digits_of_three_bytes(a: int, b: int, c: int)
    requires
        0 <= a < 256,
        0 <= b < 256,
        0 <= c < 256,
    ensures
        ({
            let bits = a * 0x1_0000 + b * 0x100 + c;
            &&& 0 <= bits < 0x100_0000
            &&& bits / 0x4_0000 == a / 4
            &&& bits / 0x1000 % 64 == a % 4 * 16 + b / 16
            &&& bits / 64 % 64 == b % 16 * 4 + c / 64
            &&& bits % 64 == c % 64
        }),
{
    let bits = a * 0x1_0000 + b * 0x100 + c;
    let (a1, a0) = (a / 4, a % 4);
    let (b1, b0) = (b / 16, b % 16);
    let (c1, c0) = (c / 64, c % 64);
    lemma_fundamental_div_mod_converse(bits, 0x4_0000, a1, a0 * 0x1_0000 + b * 0x100 + c);
    let upper = a1 * 64 + (a0 * 16 + b1);
    lemma_fundamental_div_mod_converse(bits, 0x1000, upper, b0 * 0x100 + c);
    lemma_fundamental_div_mod_converse(upper, 64, a1, a0 * 16 + b1);
    let lower = (a * 16 + b1) * 64 + (b0 * 4 + c1);
    lemma_fundamental_div_mod_converse(bits, 64, lower, c0);
    lemma_fundamental_div_mod_converse(lower, 64, a * 16 + b1, b0 * 4 + c1);
}

/// The base64 text of some bytes carries all of them: four digits for each three, from which the
/// three are got back; two digits and two equals signs for a last one, three digits and one
/// equals sign for a last two.
pub proof fn law_base64_carries_every_byte(bytes: Seq<u8>, group: int)
    requires
        0 <= group,
        3 * group < bytes.len(),
    ensures
        base64_text(bytes).len() == (bytes.len() + 2) / 3 * 4,
        ({
            let text = base64_text(bytes);
            let first = base64_value(text[4 * group]);
            let second = base64_value(text[4 * group + 1]);
            let third = base64_value(text[4 * group + 2]);
            let fourth = base64_value(text[4 * group + 3]);
            &&& bytes[3 * group] == first * 4 + second / 16
            &&& 3 * group + 1 < bytes.len() ==> bytes[3 * group + 1] == second % 16 * 16 + third
                / 4
            &&& 3 * group + 2 < bytes.len() ==> bytes[3 * group + 2] == third % 4 * 64 + fourth
            &&& 3 * group + 1 == bytes.len() ==> text[4 * group + 2] == '='
            &&& 3 * group + 2 >= bytes.len() ==> text[4 * group + 3] == '='
        }),
{
    let text = base64_text(bytes);
    let at = 4 * group;
    let a = byte_or_zero(bytes, 3 * group);
    let b = byte_or_zero(bytes, 3 * group + 1);
    let c = byte_or_zero(bytes, 3 * group + 2);
    let bits = a * 0x1_0000 + b * 0x100 + c;
    lemma_four_digits_of_three_bytes(a, b, c);
    law_base64_digits_read_back(bits / 0x4_0000);
    law_base64_digits_read_back(bits / 0x1000 % 64);
    law_base64_digits_read_back(bits / 64 % 64);
    law_base64_digits_read_back(bits % 64);
    assert(at / 4 == group && at % 4 == 0);
    assert((at + 1) / 4 == group && (at + 1) % 4 == 1);
    assert((at + 2) / 4 == group && (at + 2) % 4 == 2);
    assert((at + 3) / 4 == group && (at + 3) % 4 == 3);
    assert(at + 3 < text.len());
    assert(text[at] == base64_char(bytes, at));
    assert(text[at + 1] == base64_char(bytes, at + 1));
    assert(text[at + 2] == base64_char(bytes, at + 2));
    assert(text[at + 3] == base64_char(bytes, at + 3));
}

} // verus!
