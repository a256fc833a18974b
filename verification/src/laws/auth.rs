//! Laws of authentication.
use vstd::prelude::*;
use vstd::utf8::{decode_utf8, encode_utf8, valid_utf8};

use crate::auth::{
    accept_challenge, attributes_of, calculate_scram, choose_mechanism, ensure_auth_opcode,
    ensure_auth_success, escaped, finish_exchange, offers, plain_payload, select_mechanism,
    word_at, SaslMechanism, ScramAlgorithm, ScramClient,
};
use crate::config::Credentials;
use crate::crypto::{
    base64_bytes, base64_text, hmac_sha1, hmac_sha256, hmac_sha512, pbkdf2_sha1, pbkdf2_sha256,
    pbkdf2_sha512, sha1_digest, sha256_digest, sha512_digest,
};
use crate::error::Result;
use crate::protocol::{Frame, Magic};
use crate::text::{dec, decimal_is_digits, decimal_is_read, pieces};

verus! {

/// `out` holds, byte for byte, the exclusive or of the two texts, as far as
/// both reach.
pub open spec fn is_xor(out: Seq<u8>, a: Seq<u8>, b: Seq<u8>) -> bool {
    &&& out.len() <= a.len()
    &&& out.len() <= b.len()
    &&& out.len() == a.len() || out.len() == b.len()
    &&& forall|i: int| 0 <= i < out.len() ==> #[trigger] out[i] == a[i] ^ b[i]
}

/// With SHA-1 the salted password is PBKDF2 over the password and the salt,
/// the client proves the key derived from it, and the server signs with the
/// server key.
pub proof fn sha1_proofs(
    password: &[u8],
    salt: &[u8],
    iterations: u32,
    message: &[u8],
    out: (Vec<u8>, Vec<u8>),
    salted_password: Seq<u8>,
    client_key: Seq<u8>,
    server_key: Seq<u8>,
)
    requires
        call_ensures(
            calculate_scram,
            (ScramAlgorithm::Sha1, password, salt, iterations, message),
            out,
        ),
        salted_password == pbkdf2_sha1(password@, salt@, iterations),
        client_key == hmac_sha1(salted_password, encode_utf8("Client Key"@)),
        server_key == hmac_sha1(salted_password, encode_utf8("Server Key"@)),
    ensures
        is_xor(out.0@, client_key, hmac_sha1(sha1_digest(client_key), message@)),
        out.1@ == hmac_sha1(server_key, message@),
{
}

/// With SHA-256 the salted password is PBKDF2 over the password and the salt,
/// the client proves the key derived from it, and the server signs with the
/// server key.
pub proof fn sha256_proofs(
    password: &[u8],
    salt: &[u8],
    iterations: u32,
    message: &[u8],
    out: (Vec<u8>, Vec<u8>),
    salted_password: Seq<u8>,
    client_key: Seq<u8>,
    server_key: Seq<u8>,
)
    requires
        call_ensures(
            calculate_scram,
            (ScramAlgorithm::Sha256, password, salt, iterations, message),
            out,
        ),
        salted_password == pbkdf2_sha256(password@, salt@, iterations),
        client_key == hmac_sha256(salted_password, encode_utf8("Client Key"@)),
        server_key == hmac_sha256(salted_password, encode_utf8("Server Key"@)),
    ensures
        is_xor(out.0@, client_key, hmac_sha256(sha256_digest(client_key), message@)),
        out.1@ == hmac_sha256(server_key, message@),
{
}

/// With SHA-512 the salted password is PBKDF2 over the password and the salt,
/// the client proves the key derived from it, and the server signs with the
/// server key.
pub proof fn sha512_proofs(
    password: &[u8],
    salt: &[u8],
    iterations: u32,
    message: &[u8],
    out: (Vec<u8>, Vec<u8>),
    salted_password: Seq<u8>,
    client_key: Seq<u8>,
    server_key: Seq<u8>,
)
    requires
        call_ensures(
            calculate_scram,
            (ScramAlgorithm::Sha512, password, salt, iterations, message),
            out,
        ),
        salted_password == pbkdf2_sha512(password@, salt@, iterations),
        client_key == hmac_sha512(salted_password, encode_utf8("Client Key"@)),
        server_key == hmac_sha512(salted_password, encode_utf8("Server Key"@)),
    ensures
        is_xor(out.0@, client_key, hmac_sha512(sha512_digest(client_key), message@)),
        out.1@ == hmac_sha512(server_key, message@),
{
}

/// A server that knows the client key finds it again in the proof.
pub proof fn proof_reveals_the_key(out: Seq<u8>, key: Seq<u8>, signature: Seq<u8>, i: int)
    requires
        is_xor(out, key, signature),
        0 <= i < out.len(),
    ensures
        out[i] ^ signature[i] == key[i],
{
    let k = key[i];
    let s = signature[i];
    assert((k ^ s) ^ s == k) by (bit_vector);
}

/// Escaping of a user name: the equals sign and the comma are written `=3D`
/// and `=2C`, every other character as it is, one after the other.
pub proof fn names_are_escaped_by_character(a: Seq<char>, b: Seq<char>, c: char)
    ensures
        escaped(a + b) == escaped(a) + escaped(b),
        escaped(seq![c]) == if c == '=' {
            seq!['=', '3', 'D']
        } else if c == ',' {
            seq!['=', '2', 'C']
        } else {
            seq![c]
        },
        escaped(Seq::empty()) == Seq::<char>::empty(),
    decreases b.len(),
{
    reveal_strlit("=3D");
    reveal_strlit("=2C");
    assert(seq![c].drop_last() =~= Seq::<char>::empty());
    assert(escaped(seq![c].drop_last()) =~= Seq::<char>::empty());
    assert("=3D"@ =~= seq!['=', '3', 'D']);
    assert("=2C"@ =~= seq!['=', '2', 'C']);
    assert(escaped(seq![c]) =~= if c == '=' {
        seq!['=', '3', 'D']
    } else if c == ',' {
        seq!['=', '2', 'C']
    } else {
        seq![c]
    });
    if b.len() == 0 {
        assert(a + b =~= a);
    } else {
        names_are_escaped_by_character(a, b.drop_last(), c);
        assert((a + b).drop_last() =~= a + b.drop_last());
        assert((a + b).last() == b.last());
        assert(escaped(a + b) =~= escaped(a) + escaped(b));
    }
}

/// A user name without the two special characters is sent as it is.
pub proof fn plain_names_are_sent_as_they_are(name: Seq<char>)
    requires
        !name.contains('='),
        !name.contains(','),
    ensures
        escaped(name) == name,
    decreases name.len(),
{
    if name.len() > 0 {
        let shorter = name.drop_last();
        assert forall|x: char| shorter.contains(x) implies name.contains(x) by {
            let i = choose|i: int| 0 <= i < shorter.len() && shorter[i] == x;
            assert(name[i] == x);
        }
        plain_names_are_sent_as_they_are(shorter);
        assert(name.contains(name.last()));
        assert(shorter.push(name.last()) =~= name);
    }
}

/// The exchange opens with the user name and the client's nonce, without
/// channel binding.
pub proof fn exchange_opens_with_name_and_nonce(
    algorithm: ScramAlgorithm,
    username: &str,
    password: &str,
    nonce: String,
    client: ScramClient,
    message: Vec<u8>,
)
    requires
        call_ensures(ScramClient::with_nonce, (algorithm, username, password, nonce), client),
        call_ensures(ScramClient::start, (&client,), message),
        !username@.contains('='),
        !username@.contains(','),
    ensures
        message@ == encode_utf8("n,,n="@ + username@ + ",r="@ + nonce@),
{
    plain_names_are_sent_as_they_are(username@);
    reveal_strlit("n,,");
    reveal_strlit("n=");
    reveal_strlit("n,,n=");
    assert("n,,"@ + ("n="@ + username@ + ",r="@ + nonce@) =~= "n,,n="@ + username@ + ",r="@
        + nonce@);
}

proof fn one_piece(a: Seq<char>)
    requires
        !a.contains(','),
    ensures
        pieces(a, ',') == seq![a],
{
    a.index_of_first_ensures(',');
}

proof fn first_piece(a: Seq<char>, rest: Seq<char>)
    requires
        !a.contains(','),
    ensures
        pieces(a + seq![','] + rest, ',') == seq![a] + pieces(rest, ','),
{
    let s = a + seq![','] + rest;
    let at = a.len() as int;
    assert(s[at] == ',');
    assert(s.contains(','));
    s.index_of_first_ensures(',');
    assert forall|j: int| 0 <= j < at implies s[j] != ',' by {
        assert(s[j] == a[j]);
        assert(a.contains(a[j]));
    }
    assert(s.take(at) =~= a);
    assert(s.skip(at + 1) =~= rest);
}

/// Text of a server's challenge.
pub open spec fn challenge_text(nonce: Seq<char>, salt: Seq<char>, iterations: nat) -> Seq<char> {
    (seq!['r', '='] + nonce) + seq![','] + ((seq!['s', '='] + salt) + seq![','] + (seq!['i', '=']
        + dec(iterations)))
}

proof fn challenge_is_read(nonce: Seq<char>, salt: Seq<char>, iterations: nat)
    requires
        !nonce.contains(','),
        !salt.contains(','),
        nonce.len() > 0,
        salt.len() > 0,
    ensures
        crate::auth::attributes(challenge_text(nonce, salt, iterations)) is Ok,
        ({
            let map = crate::auth::attributes(challenge_text(nonce, salt, iterations))->Ok_0;
            &&& !map.contains_key('m')
            &&& map.contains_key('r') && map['r'] == nonce
            &&& map.contains_key('s') && map['s'] == salt
            &&& map.contains_key('i') && map['i'] == dec(iterations)
        }),
{
    let a = seq!['r', '='] + nonce;
    let b = seq!['s', '='] + salt;
    let c = seq!['i', '='] + dec(iterations);
    decimal_is_digits(iterations);
    assert forall|i: int| 0 <= i < a.len() implies a[i] != ',' by {
        if i >= 2 {
            assert(nonce.contains(nonce[i - 2]));
        }
    }
    assert forall|i: int| 0 <= i < b.len() implies b[i] != ',' by {
        if i >= 2 {
            assert(salt.contains(salt[i - 2]));
        }
    }
    assert forall|i: int| 0 <= i < c.len() implies c[i] != ',' by {
        if i >= 2 {
            assert(c[i] == dec(iterations)[i - 2]);
        }
    }
    first_piece(a, b + seq![','] + c);
    first_piece(b, c);
    one_piece(c);
    let parts = seq![a, b, c];
    assert(seq![a] + (seq![b] + seq![c]) =~= parts);
    assert(pieces(challenge_text(nonce, salt, iterations), ',') == parts);
    assert(parts.drop_last() =~= seq![a, b]);
    assert(parts.drop_last().drop_last() =~= seq![a]);
    assert(parts.drop_last().drop_last().drop_last() =~= Seq::<Seq<char>>::empty());
    reveal_with_fuel(attributes_of, 4);
    assert(a.skip(2) =~= nonce);
    assert(b.skip(2) =~= salt);
    assert(c.skip(2) =~= dec(iterations));
    assert(a[0] == 'r' && b[0] == 's' && c[0] == 'i');
    assert(a[1] == '=' && b[1] == '=' && c[1] == '=');
}

/// A challenge that extends the client's nonce is answered with a proof over
/// the whole exchange, from the password and the challenge's own salt and
/// iteration count; the server's last word is accepted exactly when it is the
/// signature over the same exchange.
pub proof fn challenges_are_answered_with_the_proof(
    algorithm: ScramAlgorithm,
    username: &str,
    password: &str,
    nonce: String,
    client: &mut ScramClient,
    server_nonce: Seq<char>,
    salt_text: Seq<char>,
    iterations: u32,
    first: &[u8],
    password_bytes: &[u8],
    salt: &[u8],
    signed: &[u8],
    out: (Vec<u8>, Vec<u8>),
    result: Result<Vec<u8>>,
)
    requires
        call_ensures(ScramClient::with_nonce, (algorithm, username, password, nonce), *old(client)),
        call_ensures(ScramClient::handle_server_first, (client, first), result),
        !username@.contains('='),
        !username@.contains(','),
        valid_utf8(first@),
        decode_utf8(first@) == challenge_text(server_nonce, salt_text, iterations as nat),
        nonce@.is_prefix_of(server_nonce),
        nonce@.len() < server_nonce.len(),
        !server_nonce.contains(','),
        !salt_text.contains(','),
        salt_text.len() > 0,
        base64_bytes(salt_text) is Ok && base64_bytes(salt_text)->Ok_0 == salt@,
        1 <= iterations <= 10_000_000,
        password_bytes@ == encode_utf8(password@),
        signed@ == encode_utf8(
            "n="@ + username@ + ",r="@ + nonce@ + ","@ + decode_utf8(first@) + ","@ + (
            "c=biws,r="@ + server_nonce),
        ),
        call_ensures(calculate_scram, (algorithm, password_bytes, salt, iterations, signed), out),
    ensures
        result is Ok,
        result->Ok_0@ == encode_utf8("c=biws,r="@ + server_nonce + ",p="@ + base64_text(out.0@)),
        final(client).owed() == Some(out.1@),
{
    plain_names_are_sent_as_they_are(username@);
    challenge_is_read(server_nonce, salt_text, iterations as nat);
    decimal_is_read(iterations as nat, u32::MAX as nat);
}

/// Text of a server's last word.
pub open spec fn verdict_text(signature: Seq<char>) -> Seq<char> {
    seq!['v', '='] + signature
}

proof fn verdict_is_read(signature: Seq<char>)
    requires
        !signature.contains(','),
        signature.len() > 0,
    ensures
        crate::auth::attributes(verdict_text(signature)) is Ok,
        ({
            let map = crate::auth::attributes(verdict_text(signature))->Ok_0;
            &&& !map.contains_key('e')
            &&& map.contains_key('v') && map['v'] == signature
        }),
{
    let a = verdict_text(signature);
    assert forall|i: int| 0 <= i < a.len() implies a[i] != ',' by {
        if i >= 2 {
            assert(signature.contains(signature[i - 2]));
        }
    }
    one_piece(a);
    assert(seq![a].drop_last() =~= Seq::<Seq<char>>::empty());
    reveal_with_fuel(attributes_of, 2);
    assert(a.skip(2) =~= signature);
    assert(a[0] == 'v' && a[1] == '=');
}

/// The server is believed exactly when it presents the signature that it owes.
pub proof fn server_must_present_the_owed_signature(
    client: &mut ScramClient,
    text: Seq<char>,
    signature: Seq<u8>,
    last: &[u8],
    result: Result<()>,
)
    requires
        call_ensures(ScramClient::verify_server_final, (client, last), result),
        valid_utf8(last@),
        decode_utf8(last@) == verdict_text(text),
        !text.contains(','),
        text.len() > 0,
        base64_bytes(text) is Ok && base64_bytes(text)->Ok_0 == signature,
    ensures
        result is Ok <==> old(client).owed() == Some(signature),
        final(client).owed() is None,
{
    verdict_is_read(text);
}

/// The list holds the name as one of its words.
pub open spec fn lists(list: Seq<char>, name: Seq<char>, before: Seq<char>, after: Seq<char>) -> bool {
    &&& list == before + name + after
    &&& before.len() == 0 || between_words(before.last())
    &&& after.len() == 0 || between_words(after[0])
}

/// Blank, tab, line feed, form feed or carriage return.
pub open spec fn between_words(c: char) -> bool {
    c as u32 == 0x20 || c as u32 == 0x09 || c as u32 == 0x0a || c as u32 == 0x0c || c as u32 == 0x0d
}

/// The name is a word of the list.
pub open spec fn has_word(list: Seq<char>, name: Seq<char>) -> bool {
    exists|before: Seq<char>, after: Seq<char>| #[trigger] lists(list, name, before, after)
}

proof fn offered_is_listed(list: Seq<char>, name: Seq<char>)
    ensures
        offers(list, name) <==> has_word(list, name),
{
    if offers(list, name) {
        let at = choose|at: int| word_at(list, name, at);
        let before = list.take(at);
        let after = list.skip(at + name.len());
        assert(list.subrange(at, at + name.len()) == name);
        assert forall|i: int| 0 <= i < list.len() implies list[i] == (before + name + after)[i] by {
            if at <= i < at + name.len() {
                assert(list.subrange(at, at + name.len())[i - at] == list[i]);
            }
        }
        assert(list =~= before + name + after);
        if at > 0 {
            assert(before.last() == list[at - 1]);
        }
        if after.len() > 0 {
            assert(after[0] == list[at + name.len()]);
        }
        assert(lists(list, name, before, after));
    }
    if has_word(list, name) {
        let (before, after) = choose|before: Seq<char>, after: Seq<char>| #[trigger]
            lists(list, name, before, after);
        let at = before.len() as int;
        assert(list.subrange(at, at + name.len()) =~= name);
        assert(word_at(list, name, at));
    }
}

/// Of the mechanisms that the server lists, the strongest is chosen: SHA-512
/// before SHA-256 before SHA-1 before a plain password.
pub proof fn strongest_listed_mechanism_is_chosen(list: &str, result: Result<SaslMechanism>)
    requires
        call_ensures(select_mechanism, (list,), result),
    ensures
        has_word(list@, "SCRAM-SHA512"@) <==> result == Ok::<SaslMechanism, crate::error::DcpError>(
            SaslMechanism::Scram(ScramAlgorithm::Sha512),
        ),
        has_word(list@, "SCRAM-SHA256"@) && !has_word(list@, "SCRAM-SHA512"@) <==> result == Ok::<
            SaslMechanism,
            crate::error::DcpError,
        >(SaslMechanism::Scram(ScramAlgorithm::Sha256)),
        has_word(list@, "SCRAM-SHA1"@) && !has_word(list@, "SCRAM-SHA256"@) && !has_word(
            list@,
            "SCRAM-SHA512"@,
        ) <==> result == Ok::<SaslMechanism, crate::error::DcpError>(
            SaslMechanism::Scram(ScramAlgorithm::Sha1),
        ),
        has_word(list@, "PLAIN"@) && !has_word(list@, "SCRAM-SHA1"@) && !has_word(
            list@,
            "SCRAM-SHA256"@,
        ) && !has_word(list@, "SCRAM-SHA512"@) <==> result == Ok::<
            SaslMechanism,
            crate::error::DcpError,
        >(SaslMechanism::Plain),
        result matches Err(e) ==> e is Authentication,
{
    offered_is_listed(list@, "SCRAM-SHA512"@);
    offered_is_listed(list@, "SCRAM-SHA256"@);
    offered_is_listed(list@, "SCRAM-SHA1"@);
    offered_is_listed(list@, "PLAIN"@);
}

/// Each mechanism is announced under its own name.
pub proof fn mechanisms_have_their_names(mechanism: SaslMechanism, name: &'static str)
    requires
        call_ensures(SaslMechanism::name, (mechanism,), name),
    ensures
        mechanism == SaslMechanism::Plain ==> name@ == "PLAIN"@,
        mechanism == SaslMechanism::Scram(ScramAlgorithm::Sha1) ==> name@ == "SCRAM-SHA1"@,
        mechanism == SaslMechanism::Scram(ScramAlgorithm::Sha256) ==> name@ == "SCRAM-SHA256"@,
        mechanism == SaslMechanism::Scram(ScramAlgorithm::Sha512) ==> name@ == "SCRAM-SHA512"@,
{
}

/// A plain login sends the user name and then the password, each after a zero
/// byte.
pub proof fn plain_login_sends_name_and_password(
    username: &str,
    password: &str,
    credentials: Credentials,
    payload: Vec<u8>,
)
    requires
        call_ensures(Credentials::new, (username, password), credentials),
        call_ensures(plain_payload, (&credentials,), payload),
    ensures
        payload@ == seq![0u8] + encode_utf8(username@) + seq![0u8] + encode_utf8(password@),
{
}

/// The frame is a response to the command.
pub open spec fn answers(response: Frame, opcode: u8) -> bool {
    (response.magic == Magic::Response || response.magic == Magic::AltResponse) && response.opcode
        == opcode
}

/// A step of the exchange is accepted only in a response to its own command
/// with the status of that step: success for the list, for a plain login and
/// for the last step, "continue" for the challenge.
pub proof fn steps_need_their_status(
    response: Frame,
    opcode: u8,
    named: Result<()>,
    succeeded: Result<()>,
    mechanism: Result<SaslMechanism>,
)
    requires
        call_ensures(ensure_auth_opcode, (&response, opcode), named),
        call_ensures(ensure_auth_success, (&response, opcode), succeeded),
        call_ensures(choose_mechanism, (&response,), mechanism),
    ensures
        named is Ok <==> answers(response, opcode),
        succeeded is Ok <==> answers(response, opcode) && response.status == 0,
        mechanism is Ok ==> answers(response, 0x20) && response.status == 0,
{
}

/// A challenge counts only in the response to the login, with the status
/// "continue"; any other response leaves the client as it was.
pub proof fn challenge_needs_continue(
    response: Frame,
    client: &mut ScramClient,
    result: Result<Vec<u8>>,
)
    requires
        call_ensures(accept_challenge, (&response, client), result),
    ensures
        result is Ok ==> answers(response, 0x21) && response.status == 0x21 && old(
            client).owed() is None,
        result is Err ==> *final(client) == *old(client),
{
}

/// The exchange ends well only with a successful response to the last step.
pub proof fn exchange_ends_with_success(
    response: Frame,
    client: &mut ScramClient,
    result: Result<()>,
)
    requires
        call_ensures(finish_exchange, (&response, client), result),
    ensures
        result is Ok ==> answers(response, 0x22) && response.status == 0 && old(
            client).owed() is Some,
{
}

} // verus!
