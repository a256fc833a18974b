//! SASL mechanism selection and the salted challenge-response exchange.
use vstd::prelude::*;
use vstd::string::*;
use vstd::utf8::*;

use crate::address::{number_complaint, number_complaint_text};
use crate::config::Credentials;
use crate::crypto::{
    base64_bytes, base64_text, base64_unpadded, decode_base64, derive_sha1, derive_sha256,
    derive_sha512, encode_base64, encode_base64_unpadded, equal_in_constant_time, hash_sha1,
    hash_sha256, hash_sha512, hmac_sha1, hmac_sha256, hmac_sha512, pbkdf2_sha1, pbkdf2_sha256,
    pbkdf2_sha512, random_bytes, sha1_digest, sha256_digest, sha512_digest, tag_sha1, tag_sha256,
    tag_sha512, wipe_bytes, wipe_text,
};
use crate::error::{
    checked, malformed_frame, malformed_frame_fault, DcpError, DcpFault, Outcome, Result,
};
use crate::protocol::{
    Frame, OPCODE_SASL_AUTH, OPCODE_SASL_LIST_MECHS, OPCODE_SASL_STEP, STATUS_AUTH_CONTINUE,
    STATUS_SUCCESS,
};
use crate::text::{
    ascii_alphabetic, copy_bytes, dec, dec_text, hex2, hex2_text, hex4, hex4_text, join2, join3,
    join4, join5, join6, lossy, lossy_text, parse_number, parsed, pieces, quoted, quoted_text,
    same_text, split_on, starts_with, str_texts, utf8_complaint, utf8_text,
};

verus! {

/// Largest accepted iteration count.
pub const MAX_SCRAM_ITERATIONS: u32 = 10_000_000;

/// SCRAM hash algorithm negotiated through SASL.
#[derive(Clone, Copy, Debug, PartialEq, Eq, Structural)]
pub enum ScramAlgorithm {
    /// SCRAM-SHA-1.
    Sha1,
    /// SCRAM-SHA-256.
    Sha256,
    /// SCRAM-SHA-512.
    Sha512,
}

/// Supported SASL authentication mechanism.
#[derive(Clone, Copy, Debug, PartialEq, Eq, Structural)]
pub enum SaslMechanism {
    /// SASL PLAIN (normally protected by TLS).
    Plain,
    /// Salted challenge-response authentication.
    Scram(ScramAlgorithm),
}

impl SaslMechanism {
    /// Wire name.
    pub open spec fn wire_name(self) -> Seq<char> {
        match self {
            SaslMechanism::Plain => "PLAIN"@,
            SaslMechanism::Scram(ScramAlgorithm::Sha1) => "SCRAM-SHA1"@,
            SaslMechanism::Scram(ScramAlgorithm::Sha256) => "SCRAM-SHA256"@,
            SaslMechanism::Scram(ScramAlgorithm::Sha512) => "SCRAM-SHA512"@,
        }
    }

    /// Wire name sent to the Couchbase KV service.
    #[must_use]
    pub fn name(self) -> (result: &'static str)
        ensures
            result@ == self.wire_name(),
    {
        match self {
            SaslMechanism::Plain => "PLAIN",
            SaslMechanism::Scram(ScramAlgorithm::Sha1) => "SCRAM-SHA1",
            SaslMechanism::Scram(ScramAlgorithm::Sha256) => "SCRAM-SHA256",
            SaslMechanism::Scram(ScramAlgorithm::Sha512) => "SCRAM-SHA512",
        }
    }
}

/// Separators of a mechanism list: space, tab, line feed, form feed and
/// carriage return.
pub open spec fn list_separator(c: char) -> bool {
    let u = c as u32;
    u == 0x20 || u == 0x09 || u == 0x0a || u == 0x0c || u == 0x0d
}

/// `name` stands in the list as a word at a position.
pub open spec fn word_at(list: Seq<char>, name: Seq<char>, at: int) -> bool {
    &&& 0 <= at <= list.len() - name.len()
    &&& list.subrange(at, at + name.len()) == name
    &&& at == 0 || list_separator(list[at - 1])
    &&& at + name.len() == list.len() || list_separator(list[at + name.len() as int])
}

/// `name` is one of the words of the list.
pub open spec fn offers(list: Seq<char>, name: Seq<char>) -> bool {
    exists|at: int| word_at(list, name, at)
}

fn is_list_separator(c: char) -> (result: bool)
    ensures
        result == list_separator(c),
{
    let u: u32 = c as u32;
    u == 0x20 || u == 0x09 || u == 0x0a || u == 0x0c || u == 0x0d
}

fn offers_word(list: &str, name: &str) -> (result: bool)
    ensures
        result == offers(list@, name@),
{
    let n: usize = list.unicode_len();
    let m: usize = name.unicode_len();
    if m > n {
        return false;
    }
    let mut at: usize = 0;
    while at <= n - m
        invariant
            m <= n,
            at <= n - m + 1,
            n == list@.len(),
            m == name@.len(),
            forall|k: int| 0 <= k < at ==> !word_at(list@, name@, k),
        decreases n - m + 1 - at,
    {
        let starts: bool = at == 0 || is_list_separator(list.get_char(at - 1));
        let ends: bool = at + m == n || is_list_separator(list.get_char(at + m));
        if starts && ends && same_text(list.substring_char(at, at + m), name) {
            assert(word_at(list@, name@, at as int));
            return true;
        }
        assert(!word_at(list@, name@, at as int));
        if at == n - m {
            return false;
        }
        at = at + 1;
    }
    false
}

/// The strongest offered mechanism.
pub open spec fn selected(list: Seq<char>) -> Outcome<SaslMechanism> {
    if offers(list, "SCRAM-SHA512"@) {
        Ok(SaslMechanism::Scram(ScramAlgorithm::Sha512))
    } else if offers(list, "SCRAM-SHA256"@) {
        Ok(SaslMechanism::Scram(ScramAlgorithm::Sha256))
    } else if offers(list, "SCRAM-SHA1"@) {
        Ok(SaslMechanism::Scram(ScramAlgorithm::Sha1))
    } else if offers(list, "PLAIN"@) {
        Ok(SaslMechanism::Plain)
    } else {
        Err(
            DcpFault::Authentication("server offered no supported SASL mechanism: "@ + list),
        )
    }
}

/// An operation that yields a plain value has the outcome given.
pub open spec fn yields<T>(result: Result<T>, outcome: Outcome<T>) -> bool {
    match (result, outcome) {
        (Ok(value), Ok(model)) => value == model,
        (Err(e), Err(fault)) => e@ == fault,
        _ => false,
    }
}

/// Selects the strongest mechanism of a blank-separated list.
pub fn select_mechanism(list: &str) -> (result: Result<SaslMechanism>)
    ensures
        yields(result, selected(list@)),
{
    if offers_word(list, "SCRAM-SHA512") {
        return Ok(SaslMechanism::Scram(ScramAlgorithm::Sha512));
    }
    if offers_word(list, "SCRAM-SHA256") {
        return Ok(SaslMechanism::Scram(ScramAlgorithm::Sha256));
    }
    if offers_word(list, "SCRAM-SHA1") {
        return Ok(SaslMechanism::Scram(ScramAlgorithm::Sha1));
    }
    if offers_word(list, "PLAIN") {
        return Ok(SaslMechanism::Plain);
    }
    Err(DcpError::Authentication(join2("server offered no supported SASL mechanism: ", list)))
}

/// A selected mechanism is one that the server offered, and PLAIN is selected
/// only where no challenge-response mechanism is offered.
pub proof fn selection_is_strongest(list: Seq<char>)
    ensures
        selected(list) matches Ok(mechanism) ==> offers(list, mechanism.wire_name()),
        selected(list) == Outcome::<SaslMechanism>::Ok(SaslMechanism::Plain) ==> !offers(
            list,
            "SCRAM-SHA512"@,
        ) && !offers(list, "SCRAM-SHA256"@) && !offers(list, "SCRAM-SHA1"@),
{
}

/// Why a response is no answer to a SASL command, if it is none.
pub open spec fn auth_opcode_fault(response: Frame, opcode: u8) -> Option<DcpFault> {
    if response.magic.responds() && response.opcode == opcode {
        None
    } else {
        Some(
            malformed_frame_fault(
                "expected SASL response opcode 0x"@ + hex2(opcode as nat) + ", got magic 0x"@
                    + hex2(response.magic.byte() as nat) + " opcode 0x"@ + hex2(
                    response.opcode as nat,
                ),
            ),
        )
    }
}

/// Content of a refused authentication.
pub open spec fn refused(status: u16, payload: Seq<u8>) -> DcpFault {
    DcpFault::Authentication(
        "server returned status 0x"@ + hex4(status as nat) + ": "@ + lossy(payload),
    )
}

/// Why a response does not accept a SASL command, if it does not.
pub open spec fn auth_fault(response: Frame, opcode: u8, accepted: u16) -> Option<DcpFault> {
    match auth_opcode_fault(response, opcode) {
        Some(fault) => Some(fault),
        None => if response.status == accepted {
            None
        } else {
            Some(refused(response.status, response.value@))
        },
    }
}

/// Accepts only a response to `opcode`.
pub fn ensure_auth_opcode(response: &Frame, opcode: u8) -> (result: Result<()>)
    ensures
        checked(result, auth_opcode_fault(*response, opcode)),
{
    if response.magic.is_response() && response.opcode == opcode {
        return Ok(());
    }
    Err(
        malformed_frame(
            join6(
                "expected SASL response opcode 0x",
                hex2_text(opcode as u64).as_str(),
                ", got magic 0x",
                hex2_text(response.magic.as_u8() as u64).as_str(),
                " opcode 0x",
                hex2_text(response.opcode as u64).as_str(),
            ),
        ),
    )
}

fn authentication_status_error(status: u16, payload: &Vec<u8>) -> (result: DcpError)
    ensures
        result@ == refused(status, payload@),
{
    DcpError::Authentication(
        join4(
            "server returned status 0x",
            hex4_text(status as u64).as_str(),
            ": ",
            lossy_text(payload.as_slice()).as_str(),
        ),
    )
}

/// Accepts only a successful response to `opcode`.
pub fn ensure_auth_success(response: &Frame, opcode: u8) -> (result: Result<()>)
    ensures
        checked(result, auth_fault(*response, opcode, STATUS_SUCCESS)),
{
    ensure_auth_opcode(response, opcode)?;
    if response.status == STATUS_SUCCESS {
        Ok(())
    } else {
        Err(authentication_status_error(response.status, &response.value))
    }
}

/// Selects a mechanism from the server's answer to the mechanism request.
pub fn choose_mechanism(response: &Frame) -> (result: Result<SaslMechanism>)
    ensures
        yields(
            result,
            match auth_fault(*response, OPCODE_SASL_LIST_MECHS, STATUS_SUCCESS) {
                Some(fault) => Err(fault),
                None => selected(lossy(response.value@)),
            },
        ),
{
    ensure_auth_success(response, OPCODE_SASL_LIST_MECHS)?;
    select_mechanism(lossy_text(response.value.as_slice()).as_str())
}

/// Payload of the PLAIN mechanism: user name and password, each after a zero
/// byte.
pub fn plain_payload(credentials: &Credentials) -> (result: Vec<u8>)
    ensures
        result@ == seq![0u8] + encode_utf8(credentials.user()) + seq![0u8] + encode_utf8(
            credentials.secret(),
        ),
{
    let mut payload: Vec<u8> = Vec::new();
    payload.push(0);
    let mut username = copy_bytes(credentials.username().as_bytes());
    payload.append(&mut username);
    payload.push(0);
    let mut password = copy_bytes(credentials.password().as_bytes());
    payload.append(&mut password);
    assert(payload@ =~= seq![0u8] + encode_utf8(credentials.user()) + seq![0u8] + encode_utf8(
        credentials.secret(),
    ));
    payload
}

/// Attributes of a SCRAM message, or the first malformed or repeated one.
pub open spec fn attributes_of(parts: Seq<Seq<char>>) -> Outcome<Map<char, Seq<char>>>
    decreases parts.len(),
{
    if parts.len() == 0 {
        Ok(Map::empty())
    } else {
        match attributes_of(parts.drop_last()) {
            Err(e) => Err(e),
            Ok(map) => {
                let part = parts.last();
                if part.len() < 3 || part[1] != '=' || !ascii_alphabetic(part[0]) {
                    Err(DcpFault::Authentication("invalid SCRAM attribute "@ + quoted(part)))
                } else if map.contains_key(part[0]) {
                    Err(
                        DcpFault::Authentication(
                            "duplicate SCRAM attribute "@ + seq![part[0]],
                        ),
                    )
                } else {
                    Ok(map.insert(part[0], part.skip(2)))
                }
            },
        }
    }
}

/// Attributes of a comma-separated SCRAM message.
pub open spec fn attributes(message: Seq<char>) -> Outcome<Map<char, Seq<char>>> {
    attributes_of(pieces(message, ','))
}

proof fn attributes_stop(parts: Seq<Seq<char>>, k: int)
    requires
        0 <= k <= parts.len(),
        attributes_of(parts.take(k)) is Err,
    ensures
        attributes_of(parts) == attributes_of(parts.take(k)),
    decreases parts.len(),
{
    if k == parts.len() {
        assert(parts.take(k) =~= parts);
    } else {
        assert(parts.drop_last().take(k) =~= parts.take(k));
        attributes_stop(parts.drop_last(), k);
    }
}

struct Attribute<'a> {
    key: char,
    value: &'a str,
}

spec fn attribute_map(list: Seq<Attribute>) -> Map<char, Seq<char>>
    decreases list.len(),
{
    if list.len() == 0 {
        Map::empty()
    } else {
        attribute_map(list.drop_last()).insert(list.last().key, list.last().value@)
    }
}

fn find_attribute<'a>(list: &Vec<Attribute<'a>>, key: char) -> (result: Option<&'a str>)
    ensures
        match result {
            Some(value) => attribute_map(list@).contains_key(key) && attribute_map(list@)[key]
                == value@,
            None => !attribute_map(list@).contains_key(key),
        },
{
    let mut i: usize = list.len();
    assert(list@.take(i as int) =~= list@);
    while i > 0
        invariant
            i <= list@.len(),
            attribute_map(list@).contains_key(key) == attribute_map(
                list@.take(i as int),
            ).contains_key(key),
            attribute_map(list@).contains_key(key) ==> attribute_map(list@)[key] == attribute_map(
                list@.take(i as int),
            )[key],
        decreases i,
    {
        i = i - 1;
        assert(list@.take(i + 1).drop_last() =~= list@.take(i as int));
        assert(list@.take(i + 1).last() == list@[i as int]);
        if list[i].key == key {
            return Some(list[i].value);
        }
    }
    None
}

fn parse_scram_attributes<'a>(message: &'a str) -> (result: Result<Vec<Attribute<'a>>>)
    ensures
        match (result, attributes(message@)) {
            (Ok(list), Ok(map)) => attribute_map(list@) == map,
            (Err(e), Err(fault)) => e@ == fault,
            _ => false,
        },
{
    let parts = split_on(message, ',');
    let ghost models = str_texts(parts@);
    let mut list: Vec<Attribute> = Vec::new();
    let mut i: usize = 0;
    assert(models.take(0) =~= Seq::empty());
    while i < parts.len()
        invariant
            i <= parts@.len(),
            models == str_texts(parts@),
            models == pieces(message@, ','),
            attributes_of(models.take(i as int)) == Outcome::<Map<char, Seq<char>>>::Ok(
                attribute_map(list@),
            ),
        decreases parts@.len() - i,
    {
        let part = parts[i];
        let n: usize = part.unicode_len();
        proof {
            assert(models[i as int] == part@);
            assert(models.take(i + 1).drop_last() =~= models.take(i as int));
            assert(models.take(i + 1).last() == part@);
        }
        if n < 3 || part.get_char(1) != '=' || !is_ascii_alphabetic(part.get_char(0)) {
            proof {
                attributes_stop(models, i + 1);
            }
            return Err(
                DcpError::Authentication(
                    join2("invalid SCRAM attribute ", quoted_text(part).as_str()),
                ),
            );
        }
        let key: char = part.get_char(0);
        if find_attribute(&list, key).is_some() {
            let shown = part.substring_char(0, 1);
            proof {
                assert(shown@ =~= seq![key]);
                attributes_stop(models, i + 1);
            }
            return Err(DcpError::Authentication(join2("duplicate SCRAM attribute ", shown)));
        }
        let value = part.substring_char(2, n);
        assert(value@ =~= part@.skip(2));
        let ghost before = list@;
        list.push(Attribute { key, value });
        assert(list@.drop_last() =~= before);
        i = i + 1;
    }
    assert(models.take(models.len() as int) =~= models);
    Ok(list)
}

fn is_ascii_alphabetic(c: char) -> (result: bool)
    ensures
        result == ascii_alphabetic(c),
{
    let u: u32 = c as u32;
    (0x41 <= u && u <= 0x5a) || (0x61 <= u && u <= 0x7a)
}

/// Tag under the algorithm.
pub open spec fn tag(algorithm: ScramAlgorithm, key: Seq<u8>, data: Seq<u8>) -> Seq<u8> {
    match algorithm {
        ScramAlgorithm::Sha1 => hmac_sha1(key, data),
        ScramAlgorithm::Sha256 => hmac_sha256(key, data),
        ScramAlgorithm::Sha512 => hmac_sha512(key, data),
    }
}

/// Digest under the algorithm.
pub open spec fn digest(algorithm: ScramAlgorithm, data: Seq<u8>) -> Seq<u8> {
    match algorithm {
        ScramAlgorithm::Sha1 => sha1_digest(data),
        ScramAlgorithm::Sha256 => sha256_digest(data),
        ScramAlgorithm::Sha512 => sha512_digest(data),
    }
}

/// Salted password under the algorithm.
pub open spec fn salted(
    algorithm: ScramAlgorithm,
    password: Seq<u8>,
    salt: Seq<u8>,
    rounds: u32,
) -> Seq<u8> {
    match algorithm {
        ScramAlgorithm::Sha1 => pbkdf2_sha1(password, salt, rounds),
        ScramAlgorithm::Sha256 => pbkdf2_sha256(password, salt, rounds),
        ScramAlgorithm::Sha512 => pbkdf2_sha512(password, salt, rounds),
    }
}

/// Bytes combined one by one.
pub open spec fn combined(a: Seq<u8>, b: Seq<u8>) -> Seq<u8> {
    Seq::new(
        if a.len() <= b.len() {
            a.len()
        } else {
            b.len()
        },
        |i: int| a[i] ^ b[i],
    )
}

/// Proof that the client knows the salted password.
pub open spec fn client_proof(
    algorithm: ScramAlgorithm,
    salted_password: Seq<u8>,
    auth_message: Seq<u8>,
) -> Seq<u8> {
    let client_key = tag(algorithm, salted_password, encode_utf8("Client Key"@));
    combined(client_key, tag(algorithm, digest(algorithm, client_key), auth_message))
}

/// Proof that the server knows the salted password.
pub open spec fn server_proof(
    algorithm: ScramAlgorithm,
    salted_password: Seq<u8>,
    auth_message: Seq<u8>,
) -> Seq<u8> {
    tag(
        algorithm,
        tag(algorithm, salted_password, encode_utf8("Server Key"@)),
        auth_message,
    )
}

fn compute_tag(algorithm: ScramAlgorithm, key: &Vec<u8>, data: &[u8]) -> (result: Vec<u8>)
    ensures
        result@ == tag(algorithm, key@, data@),
{
    match algorithm {
        ScramAlgorithm::Sha1 => tag_sha1(key.as_slice(), data),
        ScramAlgorithm::Sha256 => tag_sha256(key.as_slice(), data),
        ScramAlgorithm::Sha512 => tag_sha512(key.as_slice(), data),
    }
}

fn compute_digest(algorithm: ScramAlgorithm, data: &Vec<u8>) -> (result: Vec<u8>)
    ensures
        result@ == digest(algorithm, data@),
{
    match algorithm {
        ScramAlgorithm::Sha1 => hash_sha1(data.as_slice()),
        ScramAlgorithm::Sha256 => hash_sha256(data.as_slice()),
        ScramAlgorithm::Sha512 => hash_sha512(data.as_slice()),
    }
}

fn compute_salted(algorithm: ScramAlgorithm, password: &[u8], salt: &[u8], rounds: u32) -> (result:
    Vec<u8>)
    ensures
        result@ == salted(algorithm, password@, salt@, rounds),
{
    match algorithm {
        ScramAlgorithm::Sha1 => derive_sha1(password, salt, rounds),
        ScramAlgorithm::Sha256 => derive_sha256(password, salt, rounds),
        ScramAlgorithm::Sha512 => derive_sha512(password, salt, rounds),
    }
}

fn combine(a: &Vec<u8>, b: &Vec<u8>) -> (result: Vec<u8>)
    ensures
        result@ == combined(a@, b@),
{
    let mut bytes: Vec<u8> = Vec::new();
    let mut i: usize = 0;
    while i < a.len() && i < b.len()
        invariant
            i <= a@.len(),
            i <= b@.len(),
            bytes@.len() == i,
            forall|j: int| 0 <= j < i ==> #[trigger] bytes@[j] == a@[j] ^ b@[j],
        decreases a@.len() - i,
    {
        bytes.push(a[i] ^ b[i]);
        i = i + 1;
    }
    assert(bytes@ =~= combined(a@, b@));
    bytes
}

/// Client proof and expected server signature of one exchange.
pub fn calculate_scram(
    algorithm: ScramAlgorithm,
    password: &[u8],
    salt: &[u8],
    iterations: u32,
    auth_message: &[u8],
) -> (result: (Vec<u8>, Vec<u8>))
    ensures
        result.0@ == client_proof(
            algorithm,
            salted(algorithm, password@, salt@, iterations),
            auth_message@,
        ),
        result.1@ == server_proof(
            algorithm,
            salted(algorithm, password@, salt@, iterations),
            auth_message@,
        ),
{
    let mut salted_password = compute_salted(algorithm, password, salt, iterations);
    let mut client_key = compute_tag(algorithm, &salted_password, "Client Key".as_bytes());
    let stored_key = compute_digest(algorithm, &client_key);
    let client_signature = compute_tag(algorithm, &stored_key, auth_message);
    let proof_bytes = combine(&client_key, &client_signature);
    let mut server_key = compute_tag(algorithm, &salted_password, "Server Key".as_bytes());
    let signature = compute_tag(algorithm, &server_key, auth_message);
    wipe_bytes(&mut salted_password);
    wipe_bytes(&mut client_key);
    wipe_bytes(&mut server_key);
    (proof_bytes, signature)
}

/// A user name with the two reserved characters escaped.
pub open spec fn escaped(name: Seq<char>) -> Seq<char>
    decreases name.len(),
{
    if name.len() == 0 {
        Seq::empty()
    } else if name.last() == '=' {
        escaped(name.drop_last()) + "=3D"@
    } else if name.last() == ',' {
        escaped(name.drop_last()) + "=2C"@
    } else {
        escaped(name.drop_last()).push(name.last())
    }
}

fn escape_name(name: &str) -> (result: String)
    ensures
        result@ == escaped(name@),
{
    let n: usize = name.unicode_len();
    let mut s = String::new();
    let mut i: usize = 0;
    assert(name@.take(0) =~= Seq::empty());
    while i < n
        invariant
            i <= n,
            n == name@.len(),
            s@ == escaped(name@.take(i as int)),
        decreases n - i,
    {
        let c: char = name.get_char(i);
        proof {
            assert(name@.take(i + 1).drop_last() =~= name@.take(i as int));
            assert(name@.take(i + 1).last() == c);
        }
        if c == '=' {
            s.append("=3D");
        } else if c == ',' {
            s.append("=2C");
        } else {
            let ghost before = s@;
            let one = name.substring_char(i, i + 1);
            s.append(one);
            assert(s@ =~= before.push(c));
        }
        i = i + 1;
    }
    assert(name@.take(n as int) =~= name@);
    s
}

/// The server nonce strictly extends the client nonce.
pub open spec fn extends(client: Seq<char>, server: Seq<char>) -> bool {
    client.is_prefix_of(server) && client.len() < server.len()
}

/// Content of an authentication error.
pub open spec fn auth_error(message: Seq<char>) -> DcpFault {
    DcpFault::Authentication(message)
}

/// Accepted server-first message.
pub struct Challenge {
    pub text: Seq<char>,
    pub nonce: Seq<char>,
    pub salt: Seq<u8>,
    pub iterations: u32,
}

/// Iteration count of a challenge.
pub open spec fn iteration_count(text: Seq<char>) -> Outcome<u32> {
    match parsed(text, 10, u32::MAX as nat) {
        Err(fault) => Err(
            auth_error("SCRAM iteration count is invalid: "@ + number_complaint(fault)),
        ),
        Ok(n) => if n == 0 || n > MAX_SCRAM_ITERATIONS {
            Err(
                auth_error(
                    "SCRAM iteration count "@ + dec(n) + " is outside 1..="@ + dec(
                        MAX_SCRAM_ITERATIONS as nat,
                    ),
                ),
            )
        } else {
            Ok(n as u32)
        },
    }
}

/// What a server-first message asks of a client with the given nonce.
pub open spec fn challenge(client_nonce: Seq<char>, message: Seq<u8>) -> Outcome<Challenge> {
    if !valid_utf8(message) {
        Err(auth_error("SCRAM server-first is not UTF-8: "@ + utf8_complaint(message)))
    } else {
        match attributes(decode_utf8(message)) {
            Err(e) => Err(e),
            Ok(map) => if map.contains_key('m') {
                Err(auth_error("SCRAM mandatory extension is not supported"@))
            } else if !map.contains_key('r') {
                Err(auth_error("SCRAM server-first is missing nonce"@))
            } else if !extends(client_nonce, map['r']) {
                Err(auth_error("SCRAM server nonce does not extend client nonce"@))
            } else if !map.contains_key('s') {
                Err(auth_error("SCRAM server-first is missing salt"@))
            } else {
                match base64_bytes(map['s']) {
                    Err(text) => Err(auth_error("SCRAM salt is invalid base64: "@ + text)),
                    Ok(salt) => if !map.contains_key('i') {
                        Err(auth_error("SCRAM server-first is missing iteration count"@))
                    } else {
                        match iteration_count(map['i']) {
                            Err(e) => Err(e),
                            Ok(iterations) => Ok(
                                Challenge {
                                    text: decode_utf8(message),
                                    nonce: map['r'],
                                    salt,
                                    iterations,
                                },
                            ),
                        }
                    },
                }
            },
        }
    }
}

/// Client-final message without its proof.
pub open spec fn final_without_proof(nonce: Seq<char>) -> Seq<char> {
    "c=biws,r="@ + nonce
}

/// Text signed by both sides.
pub open spec fn signed_text(bare: Seq<char>, c: Challenge) -> Seq<char> {
    bare + ","@ + c.text + ","@ + final_without_proof(c.nonce)
}

/// Client-final message that answers a challenge.
pub open spec fn answer(
    algorithm: ScramAlgorithm,
    password: Seq<char>,
    bare: Seq<char>,
    c: Challenge,
) -> Seq<char> {
    final_without_proof(c.nonce) + ",p="@ + base64_text(
        client_proof(
            algorithm,
            salted(algorithm, encode_utf8(password), c.salt, c.iterations),
            encode_utf8(signed_text(bare, c)),
        ),
    )
}

/// Signature owed by a server that knows the password.
pub open spec fn owed_signature(
    algorithm: ScramAlgorithm,
    password: Seq<char>,
    bare: Seq<char>,
    c: Challenge,
) -> Seq<u8> {
    server_proof(
        algorithm,
        salted(algorithm, encode_utf8(password), c.salt, c.iterations),
        encode_utf8(signed_text(bare, c)),
    )
}

/// Signature carried by a server-final message.
pub open spec fn presented(message: Seq<u8>) -> Outcome<Seq<u8>> {
    if !valid_utf8(message) {
        Err(auth_error("SCRAM server-final is not UTF-8: "@ + utf8_complaint(message)))
    } else {
        match attributes(decode_utf8(message)) {
            Err(e) => Err(e),
            Ok(map) => if map.contains_key('e') {
                Err(auth_error("SCRAM server rejected authentication: "@ + map['e']))
            } else if !map.contains_key('v') {
                Err(auth_error("SCRAM server-final is missing verifier"@))
            } else {
                match base64_bytes(map['v']) {
                    Err(text) => Err(auth_error("SCRAM verifier is invalid base64: "@ + text)),
                    Ok(signature) => Ok(signature),
                }
            },
        }
    }
}

/// Why a server-final message is not accepted, if it is not.
pub open spec fn final_fault(expected: Option<Seq<u8>>, message: Seq<u8>) -> Option<DcpFault> {
    match presented(message) {
        Err(e) => Some(e),
        Ok(signature) => match expected {
            None => Some(auth_error("SCRAM server-final arrived before client-final"@)),
            Some(owed) => if signature == owed {
                None
            } else {
                Some(auth_error("SCRAM server signature mismatch"@))
            },
        },
    }
}

/// A server is accepted only with the signature that the password yields.
pub proof fn only_the_owed_signature_is_accepted(owed: Seq<u8>, message: Seq<u8>)
    ensures
        final_fault(Some(owed), message) is None <==> presented(message) == Outcome::<Seq<u8>>::Ok(
            owed,
        ),
        final_fault(None, message) is Some,
{
}

/// Whatever challenge is accepted carries a nonce that extends the client's,
/// and an iteration count within bounds.
pub proof fn accepted_challenge_is_bounded(client_nonce: Seq<char>, message: Seq<u8>)
    requires
        challenge(client_nonce, message) is Ok,
    ensures
        extends(client_nonce, challenge(client_nonce, message)->Ok_0.nonce),
        1 <= challenge(client_nonce, message)->Ok_0.iterations <= MAX_SCRAM_ITERATIONS,
{
}

/// Client side of one SCRAM exchange.
pub struct ScramClient {
    algorithm: ScramAlgorithm,
    password: String,
    client_nonce: String,
    client_first_bare: String,
    expected_server_signature: Option<Vec<u8>>,
}

impl ScramClient {
    /// Hash algorithm.
    pub closed spec fn algorithm(&self) -> ScramAlgorithm {
        self.algorithm
    }

    /// Password, until it has been used.
    pub closed spec fn secret(&self) -> Seq<char> {
        self.password@
    }

    /// Nonce chosen by the client.
    pub closed spec fn nonce(&self) -> Seq<char> {
        self.client_nonce@
    }

    /// First message without its channel-binding header.
    pub closed spec fn bare(&self) -> Seq<char> {
        self.client_first_bare@
    }

    /// Signature owed by the server, once a challenge was answered.
    pub closed spec fn owed(&self) -> Option<Seq<u8>> {
        match self.expected_server_signature {
            Some(signature) => Some(signature@),
            None => None,
        }
    }

    /// Starts an exchange with a random nonce of 18 bytes.
    pub fn new(algorithm: ScramAlgorithm, username: &str, password: &str) -> (result: Result<Self>)
        ensures
            match result {
                Ok(client) => {
                    &&& client.algorithm() == algorithm
                    &&& client.secret() == password@
                    &&& client.bare() == "n="@ + escaped(username@) + ",r="@ + client.nonce()
                    &&& client.owed() is None
                    &&& exists|bytes: Seq<u8>|
                        bytes.len() == 18 && client.nonce() == #[trigger] base64_unpadded(bytes)
                },
                Err(e) => exists|text: Seq<char>|
                    e@ == auth_error(#[trigger] ("cannot create SCRAM nonce: "@ + text)),
            },
    {
        match random_bytes(18) {
            Ok(bytes) => {
                let nonce = encode_base64_unpadded(bytes.as_slice());
                assert(bytes@.len() == 18 && nonce@ == base64_unpadded(bytes@));
                Ok(ScramClient::with_nonce(algorithm, username, password, nonce))
            },
            Err(text) => {
                let e = DcpError::Authentication(
                    join2("cannot create SCRAM nonce: ", text.as_str()),
                );
                assert(e@ == auth_error("cannot create SCRAM nonce: "@ + text@));
                Err(e)
            },
        }
    }

    /// Starts an exchange with a given nonce.
    pub fn with_nonce(algorithm: ScramAlgorithm, username: &str, password: &str, nonce: String) -> (result:
        Self)
        ensures
            result.algorithm() == algorithm,
            result.secret() == password@,
            result.nonce() == nonce@,
            result.bare() == "n="@ + escaped(username@) + ",r="@ + nonce@,
            result.owed() is None,
    {
        let bare = join4("n=", escape_name(username).as_str(), ",r=", nonce.as_str());
        ScramClient {
            algorithm,
            password: password.to_owned(),
            client_first_bare: bare,
            client_nonce: nonce,
            expected_server_signature: None,
        }
    }

    /// First message of the exchange.
    pub fn start(&self) -> (result: Vec<u8>)
        ensures
            result@ == encode_utf8("n,,"@ + self.bare()),
    {
        let message = join2("n,,", self.client_first_bare.as_str());
        copy_bytes(message.as_str().as_bytes())
    }

    /// Answers the server's challenge and forgets the password.
    pub fn handle_server_first(&mut self, message: &[u8]) -> (result: Result<Vec<u8>>)
        ensures
            final(self).algorithm() == old(self).algorithm(),
            final(self).nonce() == old(self).nonce(),
            final(self).bare() == old(self).bare(),
            match result {
                Ok(reply) => {
                    &&& old(self).owed() is None
                    &&& challenge(old(self).nonce(), message@) matches Ok(c) && reply@
                        == encode_utf8(
                        answer(old(self).algorithm(), old(self).secret(), old(self).bare(), c),
                    ) && final(self).owed() == Some(
                        owed_signature(
                            old(self).algorithm(),
                            old(self).secret(),
                            old(self).bare(),
                            c,
                        ),
                    )
                    &&& final(self).secret() == Seq::<char>::empty()
                },
                Err(e) => {
                    &&& *final(self) == *old(self)
                    &&& if old(self).owed() is Some {
                        e@ == auth_error("SCRAM server-first message was processed twice"@)
                    } else {
                        challenge(old(self).nonce(), message@) == Outcome::<Challenge>::Err(e@)
                    }
                },
            },
    {
        if self.expected_server_signature.is_some() {
            return Err(
                DcpError::Authentication(
                    "SCRAM server-first message was processed twice".to_owned(),
                ),
            );
        }
        let text = match utf8_text(message) {
            Ok(text) => text,
            Err(complaint) => {
                return Err(
                    DcpError::Authentication(
                        join2("SCRAM server-first is not UTF-8: ", complaint.as_str()),
                    ),
                );
            },
        };
        let list = parse_scram_attributes(text.as_str())?;
        if find_attribute(&list, 'm').is_some() {
            return Err(
                DcpError::Authentication("SCRAM mandatory extension is not supported".to_owned()),
            );
        }
        let nonce = match find_attribute(&list, 'r') {
            Some(nonce) => nonce,
            None => {
                return Err(
                    DcpError::Authentication("SCRAM server-first is missing nonce".to_owned()),
                );
            },
        };
        if !starts_with(nonce, self.client_nonce.as_str()) || nonce.unicode_len()
            == self.client_nonce.as_str().unicode_len() {
            return Err(
                DcpError::Authentication(
                    "SCRAM server nonce does not extend client nonce".to_owned(),
                ),
            );
        }
        let salt_text = match find_attribute(&list, 's') {
            Some(salt) => salt,
            None => {
                return Err(
                    DcpError::Authentication("SCRAM server-first is missing salt".to_owned()),
                );
            },
        };
        let salt = match decode_base64(salt_text) {
            Ok(salt) => salt,
            Err(complaint) => {
                return Err(
                    DcpError::Authentication(
                        join2("SCRAM salt is invalid base64: ", complaint.as_str()),
                    ),
                );
            },
        };
        let count_text = match find_attribute(&list, 'i') {
            Some(count) => count,
            None => {
                return Err(
                    DcpError::Authentication(
                        "SCRAM server-first is missing iteration count".to_owned(),
                    ),
                );
            },
        };
        let iterations: u32 = read_iterations(count_text)?;
        let ghost c = Challenge { text: text@, nonce: nonce@, salt: salt@, iterations };
        assert(challenge(self.nonce(), message@) == Outcome::<Challenge>::Ok(c));
        let without = join2("c=biws,r=", nonce);
        let auth_message = join5(
            self.client_first_bare.as_str(),
            ",",
            text.as_str(),
            ",",
            without.as_str(),
        );
        let (proof_bytes, signature) = calculate_scram(
            self.algorithm,
            self.password.as_str().as_bytes(),
            salt.as_slice(),
            iterations,
            auth_message.as_str().as_bytes(),
        );
        wipe_text(&mut self.password);
        self.expected_server_signature = Some(signature);
        let reply = join3(
            without.as_str(),
            ",p=",
            encode_base64(proof_bytes.as_slice()).as_str(),
        );
        Ok(copy_bytes(reply.as_str().as_bytes()))
    }

    /// Verifies the server's signature.
    pub fn verify_server_final(&mut self, message: &[u8]) -> (result: Result<()>)
        ensures
            checked(result, final_fault(old(self).owed(), message@)),
            final(self).algorithm() == old(self).algorithm(),
            final(self).nonce() == old(self).nonce(),
            final(self).bare() == old(self).bare(),
            final(self).secret() == old(self).secret(),
            final(self).owed() == if presented(message@) is Ok {
                None
            } else {
                old(self).owed()
            },
    {
        let text = match utf8_text(message) {
            Ok(text) => text,
            Err(complaint) => {
                return Err(
                    DcpError::Authentication(
                        join2("SCRAM server-final is not UTF-8: ", complaint.as_str()),
                    ),
                );
            },
        };
        let list = parse_scram_attributes(text.as_str())?;
        if let Some(server_error) = find_attribute(&list, 'e') {
            return Err(
                DcpError::Authentication(
                    join2("SCRAM server rejected authentication: ", server_error),
                ),
            );
        }
        let verifier = match find_attribute(&list, 'v') {
            Some(verifier) => verifier,
            None => {
                return Err(
                    DcpError::Authentication("SCRAM server-final is missing verifier".to_owned()),
                );
            },
        };
        let signature = match decode_base64(verifier) {
            Ok(signature) => signature,
            Err(complaint) => {
                return Err(
                    DcpError::Authentication(
                        join2("SCRAM verifier is invalid base64: ", complaint.as_str()),
                    ),
                );
            },
        };
        match self.expected_server_signature.take() {
            None => Err(
                DcpError::Authentication(
                    "SCRAM server-final arrived before client-final".to_owned(),
                ),
            ),
            Some(expected) => {
                let mut expected = expected;
                let matches = equal_in_constant_time(signature.as_slice(), expected.as_slice());
                wipe_bytes(&mut expected);
                if !matches {
                    return Err(
                        DcpError::Authentication("SCRAM server signature mismatch".to_owned()),
                    );
                }
                Ok(())
            },
        }
    }
}

impl Drop for ScramClient {
    fn drop(&mut self)
        opens_invariants none
        no_unwind
    {
        wipe_text(&mut self.password);
        if let Some(expected) = &mut self.expected_server_signature {
            wipe_bytes(expected);
        }
    }
}

fn read_iterations(text: &str) -> (result: Result<u32>)
    ensures
        yields(result, iteration_count(text@)),
{
    match parse_number(text, 10, u32::MAX as u64) {
        Err(fault) => Err(
            DcpError::Authentication(
                join2("SCRAM iteration count is invalid: ", number_complaint_text(fault)),
            ),
        ),
        Ok(n) => {
            if n == 0 || n > MAX_SCRAM_ITERATIONS as u64 {
                return Err(
                    DcpError::Authentication(
                        join4(
                            "SCRAM iteration count ",
                            dec_text(n).as_str(),
                            " is outside 1..=",
                            dec_text(MAX_SCRAM_ITERATIONS as u64).as_str(),
                        ),
                    ),
                );
            }
            Ok(n as u32)
        },
    }
}

/// Answers the server's response to the first SASL message.
pub fn accept_challenge(response: &Frame, client: &mut ScramClient) -> (result: Result<Vec<u8>>)
    ensures
        match auth_fault(*response, OPCODE_SASL_AUTH, STATUS_AUTH_CONTINUE) {
            Some(fault) => result is Err && result->Err_0@ == fault && *final(client) == *old(
                client,
            ),
            None => match result {
                Ok(reply) => old(client).owed() is None && (challenge(
                    old(client).nonce(),
                    response.value@,
                ) matches Ok(c) && reply@ == encode_utf8(
                    answer(old(client).algorithm(), old(client).secret(), old(client).bare(), c),
                ) && final(client).owed() == Some(
                    owed_signature(
                        old(client).algorithm(),
                        old(client).secret(),
                        old(client).bare(),
                        c,
                    ),
                )),
                Err(e) => *final(client) == *old(client) && if old(client).owed() is Some {
                    e@ == auth_error("SCRAM server-first message was processed twice"@)
                } else {
                    challenge(old(client).nonce(), response.value@) == Outcome::<Challenge>::Err(
                        e@,
                    )
                },
            },
        },
{
    ensure_auth_opcode(response, OPCODE_SASL_AUTH)?;
    if response.status != STATUS_AUTH_CONTINUE {
        return Err(authentication_status_error(response.status, &response.value));
    }
    client.handle_server_first(response.value.as_slice())
}

/// Verifies the server's response to the last SASL message.
pub fn finish_exchange(response: &Frame, client: &mut ScramClient) -> (result: Result<()>)
    ensures
        checked(
            result,
            match auth_fault(*response, OPCODE_SASL_STEP, STATUS_SUCCESS) {
                Some(fault) => Some(fault),
                None => final_fault(old(client).owed(), response.value@),
            },
        ),
{
    ensure_auth_success(response, OPCODE_SASL_STEP)?;
    client.verify_server_final(response.value.as_slice())
}

} // verus!
