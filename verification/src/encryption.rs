//! Message bodies on the wire: the encrypted envelope, wrapped bodies, and message identifiers.
//!
//! The wallet encrypts, decrypts and hashes. Here stands what it is asked, and what is made of its
//! answers.

use crate::chain::{key_of, public_key};
use crate::codec::{
    base64_bytes, base64_decode, base64_encode, base64_is_made_of_its_characters, base64_text,
    hex_encode, hex_text, utf8_decode, utf8_error,
};
use crate::error::{ErrorModel, MessageBoxError};
use crate::json::{
    is_plain, json_member, json_members, json_object, json_parse, json_quoted, json_string, member,
    parse, plain_texts_are_quoted_as_they_are, print, quoted, readable_members, reads_back,
    string_value, ObjectWriter,
};
use crate::text::{joined, opt_view, result_view};
use crate::wallet::{
    messagebox_protocol, other, protocol, DecryptRequest, DecryptRequestModel, EncryptRequest,
    EncryptRequestModel, HmacRequest, HmacRequestModel, PartyModel,
};
use vstd::prelude::*;
use vstd::string::*;
use vstd::utf8::*;

verus! {

broadcast use vstd::string::group_string_axioms;

// ---------------------------------------------------------------------------------------------
// Encrypting
// ---------------------------------------------------------------------------------------------

/// The request that encrypts a body for the holder of a key, given how its text was read.
pub open spec fn encrypt_request_model(body: Seq<char>, key: Result<Seq<char>, Seq<char>>) -> Result<
    EncryptRequestModel,
    ErrorModel,
> {
    match key {
        Ok(k) => Ok(
            EncryptRequestModel {
                protocol: messagebox_protocol(),
                key_id: "1"@,
                counterparty: PartyModel::Other(Some(k)),
                plaintext: encode_utf8(body),
            },
        ),
        Err(e) => Err(ErrorModel::Encryption(e)),
    }
}

/// The request that encrypts a body for the holder of a key, given how its text was read.
pub fn encrypt_request_for(body: &str, key: Result<String, String>) -> (r: Result<
    EncryptRequest,
    MessageBoxError,
>)
    ensures
        result_view(r) == encrypt_request_model(body@, result_view(key)),
{
    match key {
        Ok(k) => Ok(
            EncryptRequest {
                protocol: protocol(1, "messagebox"),
                key_id: "1".to_owned(),
                counterparty: other(k),
                plaintext: body.as_bytes_vec(),
            },
        ),
        Err(e) => Err(MessageBoxError::Encryption(e)),
    }
}

/// The request that encrypts a body for a recipient.
pub fn encrypt_body_request(body: &str, recipient: &str) -> (r: Result<
    EncryptRequest,
    MessageBoxError,
>)
    ensures
        result_view(r) == encrypt_request_model(body@, key_of(recipient@)),
{
    encrypt_request_for(body, public_key(recipient))
}

/// The envelope of a ciphertext: an object whose only member is its base64 notation.
pub open spec fn envelope_text(ciphertext: Seq<u8>) -> Seq<char> {
    json_object(seq![("encryptedMessage"@, json_quoted(base64_text(ciphertext)))])
}

proof fn envelopes_are_plain(ciphertext: Seq<u8>)
    ensures
        envelope_text(ciphertext) == "{\"encryptedMessage\":\""@ + base64_text(ciphertext) + "\"}"@,
{
    let b64 = base64_text(ciphertext);
    let ms = seq![("encryptedMessage"@, json_quoted(b64))];
    assert forall|i: int| 0 <= i < b64.len() implies is_plain(#[trigger] b64[i]) by {
        base64_is_made_of_its_characters(ciphertext, i);
    }
    plain_texts_are_quoted_as_they_are(b64);
    reveal_strlit("encryptedMessage");
    reveal_strlit("{\"encryptedMessage\":\"");
    reveal_strlit("\"}");
    plain_texts_are_quoted_as_they_are("encryptedMessage"@);
    assert(json_members(ms) == json_quoted("encryptedMessage"@) + seq![':'] + json_quoted(b64));
    assert(envelope_text(ciphertext) =~= "{\"encryptedMessage\":\""@ + b64 + "\"}"@);
}

/// The envelope of a ciphertext. Reading it gives the ciphertext back, and asks the wallet to
/// decrypt it whenever the sender is known by a valid key. When the wallet then answers with the
/// plaintext of a body, the outcome is that body, authenticated.
pub fn encrypt_body(ciphertext: &Vec<u8>) -> (r: String)
    ensures
        r@ == envelope_text(ciphertext@),
        r@ == "{\"encryptedMessage\":\""@ + base64_text(ciphertext@) + "\"}"@,
        is_encrypted(r@),
        inner_body(r@) is None,
        forall|sender: Seq<char>|
            #![trigger decrypt_request(r@, sender)]
            decrypt_request(r@, sender) == decrypt_request_model(Ok(ciphertext@), key_of(sender)),
        forall|sender: Seq<char>, body: Seq<char>|
            #![trigger decrypt_plan(r@, sender), encode_utf8(body)]
            key_of(sender) is Ok ==> message_outcome(
                decrypt_plan(r@, sender),
                Ok(encode_utf8(body)),
            ) == OutcomeModel::Decrypted(body),
{
    let b64 = base64_encode(ciphertext.as_slice());
    let mut w = ObjectWriter::new();
    w.string("encryptedMessage", b64.as_str());
    let ghost ms = seq![("encryptedMessage"@, json_quoted(base64_text(ciphertext@)))];
    assert(w.members() =~= ms);
    let r = w.finish();
    proof {
        envelopes_are_plain(ciphertext@);
        assert(ms[0].1 == json_quoted(b64@));
        assert(readable_members(ms));
        assert(reads_back(ms));
        reveal_strlit("message");
        reveal_strlit("encryptedMessage");
        assert("message"@.len() != "encryptedMessage"@.len());
        assert(json_member(json_parse(r@)->Ok_0, ms[0].0) == Some(ms[0].1));
        assert forall|sender: Seq<char>, body: Seq<char>|
            #![trigger decrypt_plan(r@, sender), encode_utf8(body)]
            key_of(sender) is Ok implies message_outcome(
            decrypt_plan(r@, sender),
            Ok(encode_utf8(body)),
        ) == OutcomeModel::Decrypted(body) by {
            encode_utf8_valid_utf8(body);
            encode_utf8_decode_utf8(body);
            assert(opened(r@, all_wrappers()) == r@);
            assert(decrypt_request(r@, sender) is Ok);
        }
    }
    r
}

// ---------------------------------------------------------------------------------------------
// Decrypting
// ---------------------------------------------------------------------------------------------

/// What a JSON text holds under a key: the string there, if there is one.
pub open spec fn string_member(text: Seq<char>, key: Seq<char>) -> Result<
    Option<Seq<char>>,
    Seq<char>,
> {
    match json_parse(text) {
        Ok(v) => Ok(
            match json_member(v, key) {
                Some(m) => json_string(m),
                None => None,
            },
        ),
        Err(e) => Err(e),
    }
}

/// The encrypted message of an envelope, given how the envelope was read.
pub open spec fn encrypted_field_model(field: Result<Option<Seq<char>>, Seq<char>>) -> Result<
    Seq<char>,
    ErrorModel,
> {
    match field {
        Ok(Some(s)) => Ok(s),
        Ok(None) => Err(ErrorModel::Encryption("missing encryptedMessage field"@)),
        Err(e) => Err(ErrorModel::Json(e)),
    }
}

/// The encrypted message of an envelope, given how the envelope was read.
pub fn encrypted_field(field: Result<Option<String>, String>) -> (r: Result<
    String,
    MessageBoxError,
>)
    ensures
        result_view(r) == encrypted_field_model(
            match field {
                Ok(o) => Ok(opt_view(o)),
                Err(e) => Err(e@),
            },
        ),
{
    match field {
        Ok(Some(s)) => Ok(s),
        Ok(None) => Err(MessageBoxError::Encryption("missing encryptedMessage field".to_owned())),
        Err(e) => Err(MessageBoxError::Json(e)),
    }
}

/// The request that decrypts, given how the ciphertext and the key of the sender were read.
pub open spec fn decrypt_request_model(
    ciphertext: Result<Seq<u8>, Seq<char>>,
    key: Result<Seq<char>, Seq<char>>,
) -> Result<DecryptRequestModel, ErrorModel> {
    match ciphertext {
        Err(e) => Err(ErrorModel::Encryption("base64 decode: "@ + e)),
        Ok(bytes) => match key {
            Err(e) => Err(ErrorModel::Encryption(e)),
            Ok(k) => Ok(
                DecryptRequestModel {
                    protocol: messagebox_protocol(),
                    key_id: "1"@,
                    counterparty: PartyModel::Other(Some(k)),
                    ciphertext: bytes,
                },
            ),
        },
    }
}

/// The request that decrypts, given how the ciphertext and the key of the sender were read.
pub fn decrypt_request_for(
    ciphertext: Result<Vec<u8>, String>,
    key: Result<String, String>,
) -> (r: Result<DecryptRequest, MessageBoxError>)
    ensures
        result_view(r) == decrypt_request_model(result_view(ciphertext), result_view(key)),
{
    match ciphertext {
        Err(e) => Err(MessageBoxError::Encryption(joined("base64 decode: ", e.as_str()))),
        Ok(bytes) => match key {
            Err(e) => Err(MessageBoxError::Encryption(e)),
            Ok(k) => Ok(
                DecryptRequest {
                    protocol: protocol(1, "messagebox"),
                    key_id: "1".to_owned(),
                    counterparty: other(k),
                    ciphertext: bytes,
                },
            ),
        },
    }
}

/// The request that decrypts an envelope from a sender.
pub open spec fn decrypt_request(envelope: Seq<char>, sender: Seq<char>) -> Result<
    DecryptRequestModel,
    ErrorModel,
> {
    match encrypted_field_model(string_member(envelope, "encryptedMessage"@)) {
        Err(e) => Err(e),
        Ok(b64) => decrypt_request_model(base64_bytes(b64), key_of(sender)),
    }
}

/// What a JSON text holds under a key: the string there, if there is one.
pub fn read_string_member(text: &str, key: &str) -> (r: Result<Option<String>, String>)
    ensures
        (match r {
            Ok(o) => Ok(opt_view(o)),
            Err(e) => Err(e@),
        }) == string_member(text@, key@),
{
    match parse(text) {
        Err(e) => Err(e),
        Ok(v) => match member(&v, key) {
            None => Ok(None),
            Some(m) => match string_value(m) {
                None => Ok(None),
                Some(s) => Ok(Some(s.to_owned())),
            },
        },
    }
}

/// The request that decrypts an envelope from a sender.
pub fn decrypt_body_request(envelope: &str, sender: &str) -> (r: Result<
    DecryptRequest,
    MessageBoxError,
>)
    ensures
        result_view(r) == decrypt_request(envelope@, sender@),
{
    match encrypted_field(read_string_member(envelope, "encryptedMessage")) {
        Err(e) => Err(e),
        Ok(b64) => decrypt_request_for(base64_decode(b64.as_str()), public_key(sender)),
    }
}

/// The text that a plaintext stands for.
pub open spec fn plaintext_text(plaintext: Seq<u8>) -> Result<Seq<char>, ErrorModel> {
    if valid_utf8(plaintext) {
        Ok(decode_utf8(plaintext))
    } else {
        Err(ErrorModel::Encryption("utf-8 decode: "@ + utf8_error(plaintext)))
    }
}

/// What decrypting a body comes to, given the answer of the wallet.
pub open spec fn decrypted_text(reply: Result<Seq<u8>, Seq<char>>) -> Result<
    Seq<char>,
    ErrorModel,
> {
    match reply {
        Ok(plaintext) => plaintext_text(plaintext),
        Err(e) => Err(ErrorModel::Wallet(e)),
    }
}

/// What decrypting a body comes to, given the answer of the wallet.
pub fn decrypt_body(reply: Result<Vec<u8>, String>) -> (r: Result<String, MessageBoxError>)
    ensures
        result_view(r) == decrypted_text(result_view(reply)),
{
    match reply {
        Err(e) => Err(MessageBoxError::Wallet(e)),
        Ok(plaintext) => match utf8_decode(plaintext) {
            Ok(s) => Ok(s),
            Err(e) => Err(MessageBoxError::Encryption(joined("utf-8 decode: ", e.as_str()))),
        },
    }
}

// ---------------------------------------------------------------------------------------------
// Bodies that may be wrapped or encrypted
// ---------------------------------------------------------------------------------------------

/// The text of a member: the string itself, or the JSON text of anything else.
pub open spec fn member_text(value: Seq<char>) -> Seq<char> {
    match json_string(value) {
        Some(s) => s,
        None => value,
    }
}

/// What a wrapped body holds under `message`, or nothing when the body is not wrapped.
pub open spec fn inner_body(body: Seq<char>) -> Option<Seq<char>> {
    match json_parse(body) {
        Ok(v) => match json_member(v, "message"@) {
            Some(m) => Some(member_text(m)),
            None => None,
        },
        Err(_) => None,
    }
}

/// The text of a member, given the string there, if there is one, and its JSON text.
pub fn text_of_member(string: Option<String>, printed: String) -> (r: String)
    ensures
        r@ == (match string {
            Some(s) => s@,
            None => printed@,
        }),
{
    match string {
        Some(s) => s,
        None => printed,
    }
}

/// What a wrapped body holds under `message`, or nothing when the body is not wrapped.
pub fn unwrap_body(body: &str) -> (r: Option<String>)
    ensures
        opt_view(r) == inner_body(body@),
{
    match parse(body) {
        Err(_) => None,
        Ok(v) => match member(&v, "message") {
            None => None,
            Some(m) => {
                let string = match string_value(m) {
                    Some(s) => Some(s.to_owned()),
                    None => None,
                };
                Some(text_of_member(string, print(m)))
            },
        },
    }
}

/// A body without its wrapper, where it has one.
pub open spec fn plain_body(body: Seq<char>) -> Seq<char> {
    match inner_body(body) {
        Some(inner) => inner,
        None => body,
    }
}

/// A body without its wrapper, where it has one.
pub fn extract_plain_body(body: &str) -> (r: String)
    ensures
        r@ == plain_body(body@),
{
    match unwrap_body(body) {
        Some(inner) => inner,
        None => body.to_owned(),
    }
}

/// A body without its outermost `n` wrappers, or without all of them when it has fewer.
pub open spec fn opened(body: Seq<char>, n: nat) -> Seq<char>
    decreases n,
{
    if n == 0 {
        body
    } else {
        match inner_body(body) {
            Some(inner) => opened(inner, (n - 1) as nat),
            None => body,
        }
    }
}

/// More wrappers than a body in memory can have.
pub open spec fn all_wrappers() -> nat {
    u64::MAX as nat
}

/// A body without its wrappers.
pub fn open_body(body: &str) -> (r: String)
    ensures
        r@ == opened(body@, all_wrappers()),
{
    let mut r = body.to_owned();
    let mut left: u64 = u64::MAX;
    while left > 0
        invariant
            opened(body@, all_wrappers()) == opened(r@, left as nat),
        decreases left,
    {
        match unwrap_body(r.as_str()) {
            None => {
                return r;
            },
            Some(inner) => {
                r = inner;
                left = left - 1;
            },
        }
    }
    r
}

/// Whether a body is an object with an encrypted message.
pub open spec fn is_encrypted(body: Seq<char>) -> bool {
    json_parse(body) is Ok && json_member(json_parse(body)->Ok_0, "encryptedMessage"@) is Some
}

/// Whether a body is an object with an encrypted message.
pub fn has_encrypted_message(body: &str) -> (r: bool)
    ensures
        r == is_encrypted(body@),
{
    match parse(body) {
        Err(_) => false,
        Ok(v) => member(&v, "encryptedMessage").is_some(),
    }
}

/// What to do with the body of a message.
pub enum DecryptPlan {
    /// Nothing: the body goes through as it is.
    Passthrough(String),
    /// Ask the wallet to decrypt. The raw body goes through when it cannot.
    Decrypt {
        /// The body without its wrappers.
        raw: String,
        /// What to ask.
        request: DecryptRequest,
    },
}

/// The contents of a `DecryptPlan`.
#[verifier::ext_equal]
pub enum DecryptPlanModel {
    Passthrough(Seq<char>),
    Decrypt(Seq<char>, DecryptRequestModel),
}

impl View for DecryptPlan {
    type V = DecryptPlanModel;

    open spec fn view(&self) -> DecryptPlanModel {
        match self {
            DecryptPlan::Passthrough(raw) => DecryptPlanModel::Passthrough(raw@),
            DecryptPlan::Decrypt { raw, request } => DecryptPlanModel::Decrypt(raw@, request@),
        }
    }
}

/// What to do with an opened body, given whether it is encrypted and the request to decrypt it.
pub open spec fn decrypt_plan_model(
    raw: Seq<char>,
    encrypted: bool,
    request: Result<DecryptRequestModel, ErrorModel>,
) -> DecryptPlanModel {
    match request {
        Ok(q) => if encrypted {
            DecryptPlanModel::Decrypt(raw, q)
        } else {
            DecryptPlanModel::Passthrough(raw)
        },
        Err(_) => DecryptPlanModel::Passthrough(raw),
    }
}

/// What to do with a body from a sender: it is opened, and decrypted when an encrypted message is
/// inside that can be read.
pub open spec fn decrypt_plan(body: Seq<char>, sender: Seq<char>) -> DecryptPlanModel {
    let raw = opened(body, all_wrappers());
    decrypt_plan_model(raw, is_encrypted(raw), decrypt_request(raw, sender))
}

/// What to do with the body of a message from a sender.
pub fn try_decrypt_plan(body: &str, sender: &str) -> (r: DecryptPlan)
    ensures
        r@ == decrypt_plan(body@, sender@),
{
    let raw = open_body(body);
    if has_encrypted_message(raw.as_str()) {
        match decrypt_body_request(raw.as_str(), sender) {
            Ok(request) => DecryptPlan::Decrypt { raw, request },
            Err(_) => DecryptPlan::Passthrough(raw),
        }
    } else {
        DecryptPlan::Passthrough(raw)
    }
}

/// A body, and whether it was decrypted under the key of its sender.
#[derive(Clone, Debug, PartialEq, Eq)]
pub enum DecryptOutcome {
    /// The wallet decrypted the body.
    Decrypted(String),
    /// The body went through as it was: it is not encrypted, or could not be decrypted.
    Plaintext(String),
}

/// The contents of a `DecryptOutcome`.
#[verifier::ext_equal]
pub enum OutcomeModel {
    Decrypted(Seq<char>),
    Plaintext(Seq<char>),
}

impl View for DecryptOutcome {
    type V = OutcomeModel;

    open spec fn view(&self) -> OutcomeModel {
        match self {
            DecryptOutcome::Decrypted(s) => OutcomeModel::Decrypted(s@),
            DecryptOutcome::Plaintext(s) => OutcomeModel::Plaintext(s@),
        }
    }
}

impl OutcomeModel {
    /// The body, either way.
    pub open spec fn body(self) -> Seq<char> {
        match self {
            OutcomeModel::Decrypted(s) => s,
            OutcomeModel::Plaintext(s) => s,
        }
    }
}

impl DecryptOutcome {
    /// The body, either way.
    pub fn into_body(self) -> (r: String)
        ensures
            r@ == self@.body(),
    {
        match self {
            DecryptOutcome::Decrypted(s) => s,
            DecryptOutcome::Plaintext(s) => s,
        }
    }

    /// Whether the wallet decrypted the body.
    pub fn is_authenticated(&self) -> (r: bool)
        ensures
            r == (self@ is Decrypted),
    {
        match self {
            DecryptOutcome::Decrypted(_) => true,
            DecryptOutcome::Plaintext(_) => false,
        }
    }
}

/// What comes of a body that the wallet was asked to decrypt.
pub open spec fn typed_outcome(raw: Seq<char>, reply: Result<Seq<u8>, Seq<char>>) -> OutcomeModel {
    match decrypted_text(reply) {
        Ok(s) => OutcomeModel::Decrypted(s),
        Err(_) => OutcomeModel::Plaintext(raw),
    }
}

/// What comes of a body, given the answer of the wallet if it was asked.
pub open spec fn message_outcome(
    plan: DecryptPlanModel,
    reply: Result<Seq<u8>, Seq<char>>,
) -> OutcomeModel {
    match plan {
        DecryptPlanModel::Passthrough(raw) => OutcomeModel::Plaintext(raw),
        DecryptPlanModel::Decrypt(raw, _) => typed_outcome(raw, reply),
    }
}

/// The text that comes of a body, given the answer of the wallet if it was asked.
pub open spec fn message_text(plan: DecryptPlanModel, reply: Result<Seq<u8>, Seq<char>>) -> Seq<
    char,
> {
    match plan {
        DecryptPlanModel::Passthrough(raw) => raw,
        DecryptPlanModel::Decrypt(raw, _) => match decrypted_text(reply) {
            Ok(s) => s,
            Err(_) => raw,
        },
    }
}

/// What comes of a body that the wallet was asked to decrypt, with whether it was decrypted.
pub fn try_decrypt_message_typed(raw: String, reply: Result<Vec<u8>, String>) -> (r: DecryptOutcome)
    ensures
        r@ == typed_outcome(raw@, result_view(reply)),
{
    match decrypt_body(reply) {
        Ok(s) => DecryptOutcome::Decrypted(s),
        Err(_) => DecryptOutcome::Plaintext(raw),
    }
}

/// The text that comes of a body that the wallet was asked to decrypt.
pub fn try_decrypt_message(raw: String, reply: Result<Vec<u8>, String>) -> (r: String)
    ensures
        r@ == typed_outcome(raw@, result_view(reply)).body(),
{
    match decrypt_body(reply) {
        Ok(s) => s,
        Err(_) => raw,
    }
}

/// The typed outcome of a body has exactly the text that the untyped one has, and is a decrypted
/// one exactly when the wallet was asked, decrypted, and gave text.
pub proof fn typed_outcome_has_the_untyped_text(
    plan: DecryptPlanModel,
    reply: Result<Seq<u8>, Seq<char>>,
)
    ensures
        message_outcome(plan, reply).body() == message_text(plan, reply),
        message_outcome(plan, reply) is Decrypted <==> plan is Decrypt && reply is Ok
            && valid_utf8(reply->Ok_0),
{
}

proof fn one_more_wrapper(body: Seq<char>, n: nat)
    requires
        inner_body(opened(body, n)) is None,
    ensures
        opened(body, n + 1) == opened(body, n),
    decreases n,
{
    reveal_with_fuel(opened, 2);
    if n > 0 {
        if let Some(inner) = inner_body(body) {
            one_more_wrapper(inner, (n - 1) as nat);
        }
    }
}

/// A body whose wrapper was taken off already is read as the whole body is. The body has no more
/// wrappers than there can be.
pub proof fn wrappers_make_no_difference(body: Seq<char>, sender: Seq<char>)
    requires
        inner_body(opened(body, all_wrappers())) is None,
    ensures
        decrypt_plan(plain_body(body), sender) == decrypt_plan(body, sender),
{
    if let Some(inner) = inner_body(body) {
        one_more_wrapper(inner, (all_wrappers() - 1) as nat);
    }
}

/// A body that is neither wrapped nor encrypted comes out as it went in, unauthenticated,
/// whatever the wallet answers.
pub proof fn plain_bodies_pass_through(
    body: Seq<char>,
    sender: Seq<char>,
    reply: Result<Seq<u8>, Seq<char>>,
)
    requires
        inner_body(body) is None,
        !is_encrypted(body),
    ensures
        message_outcome(decrypt_plan(body, sender), reply) == OutcomeModel::Plaintext(body),
{
}

/// What the wallet is asked to encrypt for a body is what, decrypted, gives the body back.
pub proof fn decrypting_gives_the_encrypted_text(body: Seq<char>, key: Seq<char>)
    ensures
        encrypt_request_model(body, Ok(key)) matches Ok(request) && decrypted_text(
            Ok(request.plaintext),
        ) == Ok::<Seq<char>, ErrorModel>(body),
{
    encode_utf8_valid_utf8(body);
    encode_utf8_decode_utf8(body);
}

// ---------------------------------------------------------------------------------------------
// Message identifiers
// ---------------------------------------------------------------------------------------------

/// The request for the hash that identifies a message, given how the text of the key was read.
pub open spec fn message_id_request_model(
    body: Seq<char>,
    key: Result<Seq<char>, Seq<char>>,
) -> Result<HmacRequestModel, ErrorModel> {
    match key {
        Ok(k) => Ok(
            HmacRequestModel {
                data: encode_utf8(json_quoted(body)),
                protocol: messagebox_protocol(),
                key_id: "1"@,
                counterparty: PartyModel::Other(Some(k)),
            },
        ),
        Err(e) => Err(ErrorModel::Encryption(e)),
    }
}

/// The request for the hash that identifies a message, given how the text of the key was read.
pub fn message_id_request_for(body: &str, key: Result<String, String>) -> (r: Result<
    HmacRequest,
    MessageBoxError,
>)
    ensures
        result_view(r) == message_id_request_model(body@, result_view(key)),
{
    match key {
        Ok(k) => Ok(
            HmacRequest {
                data: quoted(body).as_str().as_bytes_vec(),
                protocol: protocol(1, "messagebox"),
                key_id: "1".to_owned(),
                counterparty: other(k),
            },
        ),
        Err(e) => Err(MessageBoxError::Encryption(e)),
    }
}

/// The request for the hash that identifies a message to a recipient. The hashed text is the body
/// as a JSON string.
pub fn message_id_request(body: &str, recipient: &str) -> (r: Result<HmacRequest, MessageBoxError>)
    ensures
        result_view(r) == message_id_request_model(body@, key_of(recipient@)),
{
    message_id_request_for(body, public_key(recipient))
}

/// The identifier of a message, given the answer of the wallet.
pub open spec fn message_id_model(reply: Result<Seq<u8>, Seq<char>>) -> Result<
    Seq<char>,
    ErrorModel,
> {
    match reply {
        Ok(hmac) => Ok(hex_text(hmac)),
        Err(e) => Err(ErrorModel::Wallet(e)),
    }
}

/// The identifier of a message, given the answer of the wallet.
pub fn generate_message_id(reply: Result<Vec<u8>, String>) -> (r: Result<String, MessageBoxError>)
    ensures
        result_view(r) == message_id_model(result_view(reply)),
{
    match reply {
        Ok(hmac) => Ok(hex_encode(hmac.as_slice())),
        Err(e) => Err(MessageBoxError::Wallet(e)),
    }
}

/// A hash of thirty-two bytes makes an identifier of sixty-four lowercase hexadecimal digits.
pub proof fn message_ids_are_sixty_four_hex_digits(hmac: Seq<u8>)
    requires
        hmac.len() == 32,
    ensures
        message_id_model(Ok(hmac)) matches Ok(id) && id.len() == 64 && crate::codec::is_hex(id)
            && forall|i: int| 0 <= i < 64 ==> !('A' <= #[trigger] id[i] <= 'F'),
{
    crate::codec::hex_text_reads_back(hmac);
}

/// The wallets of two peers are asked alike: to encrypt for the recipient's key, to decrypt from the
/// sender's, and to hash with the recipient's, all under one protocol and one key identifier. What
/// is encrypted is the body, what is decrypted the very ciphertext, and what is hashed the body as a
/// JSON string. A key or a ciphertext that cannot be read is the only failure, and is told.
pub proof fn wallets_are_asked_alike(
    body: Seq<char>,
    key: Result<Seq<char>, Seq<char>>,
    ciphertext: Result<Seq<u8>, Seq<char>>,
)
    ensures
        match key {
            Ok(k) => {
                &&& encrypt_request_model(body, key) matches Ok(q)
                &&& q.protocol.security_level == 1 && q.protocol.name == "messagebox"@
                &&& q.key_id == "1"@
                &&& q.counterparty == PartyModel::Other(Some(k))
                &&& q.plaintext == encode_utf8(body)
            },
            Err(e) => encrypt_request_model(body, key) == Err::<EncryptRequestModel, _>(
                ErrorModel::Encryption(e),
            ),
        },
        match key {
            Ok(k) => {
                &&& message_id_request_model(body, key) matches Ok(q)
                &&& q.protocol.security_level == 1 && q.protocol.name == "messagebox"@
                &&& q.key_id == "1"@
                &&& q.counterparty == PartyModel::Other(Some(k))
                &&& q.data == encode_utf8(json_quoted(body))
            },
            Err(e) => message_id_request_model(body, key) == Err::<HmacRequestModel, _>(
                ErrorModel::Encryption(e),
            ),
        },
        decrypt_request_model(ciphertext, key) is Ok <==> ciphertext is Ok && key is Ok,
        decrypt_request_model(ciphertext, key) matches Ok(q) ==> {
            &&& q.protocol.security_level == 1 && q.protocol.name == "messagebox"@
            &&& q.key_id == "1"@
            &&& q.counterparty == PartyModel::Other(Some(key->Ok_0))
            &&& q.ciphertext == ciphertext->Ok_0
        },
        decrypt_request_model(ciphertext, key) matches Err(e) ==> e is Encryption,
{
}

/// An envelope is asked to be decrypted with the very ciphertext that it was made of.
pub proof fn envelopes_hold_their_ciphertext(
    envelope: Seq<char>,
    sender: Seq<char>,
)
    ensures
        decrypt_request(envelope, sender) matches Ok(q) ==> {
            &&& string_member(envelope, "encryptedMessage"@) matches Ok(Some(b64))
            &&& base64_bytes(b64) == Ok::<Seq<u8>, Seq<char>>(q.ciphertext)
            &&& key_of(sender) is Ok
            &&& q.counterparty == PartyModel::Other(Some(key_of(sender)->Ok_0))
        },
{
}

/// What comes of a body: the text of the plaintext where the wallet was asked and gave text, and
/// the body without its wrappers everywhere else.
pub proof fn bodies_come_out_decrypted_or_raw(
    body: Seq<char>,
    sender: Seq<char>,
    reply: Result<Seq<u8>, Seq<char>>,
)
    ensures
        ({
            let plan = decrypt_plan(body, sender);
            let raw = opened(body, all_wrappers());
            &&& plan is Decrypt <==> is_encrypted(raw) && decrypt_request(raw, sender) is Ok
            &&& plan is Decrypt ==> plan->Decrypt_1 == decrypt_request(raw, sender)->Ok_0
            &&& plan is Decrypt && reply is Ok && valid_utf8(reply->Ok_0) ==> message_text(
                plan,
                reply,
            ) == decode_utf8(reply->Ok_0)
            &&& !(plan is Decrypt && reply is Ok && valid_utf8(reply->Ok_0)) ==> message_text(
                plan,
                reply,
            ) == raw
        }),
{
}

/// An identifier is the hash itself, in hexadecimal notation.
pub proof fn message_ids_are_their_hashes(hmac: Seq<u8>)
    ensures
        message_id_model(Ok(hmac)) matches Ok(id) && crate::codec::is_hex(id)
            && crate::codec::hex_bytes(id) == hmac,
{
    crate::codec::hex_text_reads_back(hmac);
}

/// Opening a body takes one wrapper off after the other, as long as there is one: the message inside
/// a wrapper is what stands under its name there, as its text where it is a text and as its JSON
/// elsewhere. What is no wrapper stays as it is.
pub proof fn wrappers_come_off_one_by_one(body: Seq<char>, n: nat)
    ensures
        opened(body, 0) == body,
        opened(body, n + 1) == plain_body(opened(body, n)),
        all_wrappers() == u64::MAX,
        (json_parse(body) matches Ok(v) && json_member(v, "message"@) is Some) <==> inner_body(body)
            is Some,
        inner_body(body) is None ==> plain_body(body) == body,
        inner_body(body) is Some ==> {
            let m = json_member(json_parse(body)->Ok_0, "message"@)->0;
            &&& json_string(m) is Some ==> plain_body(body) == json_string(m)->0
            &&& json_string(m) is None ==> plain_body(body) == m
        },
    decreases n,
{
    reveal_with_fuel(opened, 2);
    if n > 0 {
        if let Some(inner) = inner_body(body) {
            wrappers_come_off_one_by_one(inner, (n - 1) as nat);
        }
    }
}

/// An envelope without an encrypted message, one that is no JSON, a plaintext that is no text and a
/// wallet that does not answer are each told as such.
pub proof fn decryption_failures_are_told(
    field: Result<Option<Seq<char>>, Seq<char>>,
    reply: Result<Seq<u8>, Seq<char>>,
)
    ensures
        encrypted_field_model(field) is Ok <==> field matches Ok(Some(_)),
        field matches Ok(Some(s)) ==> encrypted_field_model(field)->Ok_0 == s,
        field matches Ok(None) ==> encrypted_field_model(field)->Err_0 is Encryption,
        field matches Err(e) ==> encrypted_field_model(field)->Err_0 == ErrorModel::Json(e),
        decrypted_text(reply) is Ok <==> reply is Ok && valid_utf8(reply->Ok_0),
        decrypted_text(reply) matches Ok(s) ==> s == decode_utf8(reply->Ok_0),
        reply matches Err(e) ==> decrypted_text(reply)->Err_0 == ErrorModel::Wallet(e),
        reply is Ok && !valid_utf8(reply->Ok_0) ==> decrypted_text(reply)->Err_0 is Encryption,
{
}

} // verus!
