//! Which host keeps the messages of a peer: reading the advertisements on the overlay, making one,
//! and taking one back. Also the devices that a host pushes notifications to.

use crate::beef::{
    fields_of, read_fields, read_script, read_spending_data, read_transaction, script_text,
    spending_data, transaction_of,
};
use crate::chain::{
    advertisement_script, carries, carrying_scripts_are_whole, data_push, is_whole, make_data_push,
    push_drop_script, ParsedTransaction, TransactionModel,
};
use crate::client::{
    host_choice, successful_body, take_body, HttpPost, HttpPostModel, HttpReply, MessageBoxClient,
};
use crate::codec::{
    hex_bytes, hex_decode, hex_encode, hex_error, hex_text, hex_text_reads_back, is_hex, utf8_decode,
};
use crate::error::{ErrorModel, MessageBoxError};
use crate::json::{json_object, json_quoted, ObjectWriter, ToJson};
use crate::text::{
    decimal, decimal_text, duplicate_bytes, joined, joined3, opt_view, result_view, success_view,
    tells, trim, trimmed, views,
};
use crate::types::{
    AdvertisementToken, AdvertisementTokenModel, ListDevicesResponse, RegisterDeviceRequest,
    RegisterDeviceRequestModel, RegisterDeviceResponse, RegisteredDevice,
};
use crate::wallet::{
    advertisement_protocol, protocol, ActionInput, ActionInputModel, ActionOutput,
    ActionOutputModel, ActionReply, ActionReplyModel, ActionRequest, ActionRequestModel,
    KeyRequest, KeyRequestModel, Party, PartyModel, SignRequest, SignRequestModel,
    SignatureRequest, SignatureRequestModel, Spend, SpendModel,
};
use vstd::prelude::*;
use vstd::string::*;
use vstd::utf8::*;

verus! {

broadcast use vstd::string::group_string_axioms;

/// The overlay service that knows the advertisements.
pub const LOOKUP_SERVICE: &'static str = "ls_messagebox";

/// The overlay topic that advertisements are broadcast to.
pub const BROADCAST_TOPIC: &'static str = "tm_messagebox";

/// What a signature of the whole transaction says that it covers.
pub const SIGNATURE_SCOPE: u32 = 0x41;

/// A transaction output that the overlay knows.
#[derive(Clone, Debug)]
pub struct LookupOutput {
    /// The transaction, as BEEF bytes.
    pub beef: Vec<u8>,
    /// The position of the output.
    pub output_index: u32,
}

/// The contents of a `LookupOutput`.
#[verifier::ext_equal]
pub struct LookupOutputModel {
    pub beef: Seq<u8>,
    pub output_index: u32,
}

impl View for LookupOutput {
    type V = LookupOutputModel;

    open spec fn view(&self) -> LookupOutputModel {
        LookupOutputModel {
            beef: self.beef@,
            output_index: self.output_index,
        }
    }
}

/// An advertisement of a host while it is made.
pub struct Anointing {
    /// Whose messages the host keeps.
    identity_key: String,
    /// The host.
    host: String,
}

/// The contents of a `Anointing`.
#[verifier::ext_equal]
pub struct AnointingModel {
    pub identity_key: Seq<char>,
    pub host: Seq<char>,
}

impl View for Anointing {
    type V = AnointingModel;

    closed spec fn view(&self) -> AnointingModel {
        AnointingModel {
            identity_key: self.identity_key@,
            host: self.host@,
        }
    }
}

/// An advertisement of a host whose fields are known.
pub struct AnointingSigned {
    /// The public key that the advertisement is locked to.
    key: Vec<u8>,
    /// The bytes of the identity key.
    identity_key: Vec<u8>,
    /// The bytes of the host.
    host: Vec<u8>,
}

/// The contents of a `AnointingSigned`.
#[verifier::ext_equal]
pub struct AnointingSignedModel {
    pub key: Seq<u8>,
    pub identity_key: Seq<u8>,
    pub host: Seq<u8>,
}

impl View for AnointingSigned {
    type V = AnointingSignedModel;

    closed spec fn view(&self) -> AnointingSignedModel {
        AnointingSignedModel {
            key: self.key@,
            identity_key: self.identity_key@,
            host: self.host@,
        }
    }
}

/// An advertisement that is taken back.
pub struct Revocation {
    /// The script of the advertisement, in hexadecimal.
    locking_script: String,
}

/// The contents of a `Revocation`.
#[verifier::ext_equal]
pub struct RevocationModel {
    pub locking_script: Seq<char>,
}

impl View for Revocation {
    type V = RevocationModel;

    closed spec fn view(&self) -> RevocationModel {
        RevocationModel {
            locking_script: self.locking_script@,
        }
    }
}

/// A transaction that takes an advertisement back, before it is signed.
pub struct RevocationDraft {
    /// What the wallet knows it by.
    reference: Vec<u8>,
}

/// The contents of a `RevocationDraft`.
#[verifier::ext_equal]
pub struct RevocationDraftModel {
    pub reference: Seq<u8>,
}

impl View for RevocationDraft {
    type V = RevocationDraftModel;

    closed spec fn view(&self) -> RevocationDraftModel {
        RevocationDraftModel {
            reference: self.reference@,
        }
    }
}

// ---------------------------------------------------------------------------------------------
// Reading advertisements
// ---------------------------------------------------------------------------------------------

/// The members of a query: the host, unless it is blank, and the identity key.
pub open spec fn query_members(identity_key: Seq<char>, host: Option<Seq<char>>) -> Seq<
    (Seq<char>, Seq<char>),
> {
    let key = seq![("identityKey"@, json_quoted(identity_key))];
    match host {
        Some(h) => if trimmed(h).len() == 0 {
            key
        } else {
            seq![("host"@, json_quoted(trimmed(h)))] + key
        },
        None => key,
    }
}

/// The query for the advertisements of a peer, and at a host if one is given.
pub fn advertisement_query(identity_key: &str, host: Option<&str>) -> (r: String)
    ensures
        r@ == json_object(query_members(identity_key@, opt_view(host))),
{
    let mut w = ObjectWriter::new();
    if let Some(h) = host {
        let t = trim(h);
        if t.as_str().unicode_len() != 0 {
            w.string("host", t.as_str());
        }
    }
    w.string("identityKey", identity_key);
    assert(w.members() =~= query_members(identity_key@, opt_view(host)));
    w.finish()
}

/// The advertisement in an output, given the data fields of its script and the identifier of the
/// transaction: none, when there are too few fields, the second is no text, or there is no
/// identifier.
pub open spec fn advertised(
    output: LookupOutputModel,
    fields: Result<Seq<Seq<u8>>, Seq<char>>,
    id: Result<Seq<char>, Seq<char>>,
    script: Seq<u8>,
) -> Option<AdvertisementTokenModel> {
    match (fields, id) {
        (Ok(f), Ok(txid)) => if f.len() >= 2 && valid_utf8(f[1]) {
            Some(
                AdvertisementTokenModel {
                    host: decode_utf8(f[1]),
                    txid,
                    output_index: output.output_index,
                    locking_script: hex_text(script),
                    beef: output.beef,
                },
            )
        } else {
            None
        },
        _ => None,
    }
}

/// The advertisement in an output of a transaction.
pub open spec fn advertisement_in(
    output: LookupOutputModel,
    tx: Option<TransactionModel>,
) -> Option<AdvertisementTokenModel> {
    match tx {
        None => None,
        Some(t) => if output.output_index < t.scripts.len() {
            let script = t.scripts[output.output_index as int];
            advertised(output, fields_of(script), t.id, script)
        } else {
            None
        },
    }
}

/// The advertisement in an output that the overlay knows.
pub open spec fn advertisement_of(output: LookupOutputModel) -> Option<AdvertisementTokenModel> {
    advertisement_in(output, transaction_of(output.beef))
}

/// The advertisement in an output, given the data fields of its script and the identifier of the
/// transaction.
pub fn advertisement_with(
    output: LookupOutput,
    fields: Result<Vec<Vec<u8>>, String>,
    id: Result<String, String>,
    script: &Vec<u8>,
) -> (r: Option<AdvertisementToken>)
    ensures
        opt_view(r) == advertised(
            output@,
            match fields {
                Ok(f) => Ok(views(f@)),
                Err(e) => Err(e@),
            },
            result_view(id),
            script@,
        ),
{
    let fields = match fields {
        Err(_) => {
            return None;
        },
        Ok(f) => f,
    };
    if fields.len() < 2 {
        return None;
    }
    assert(views(fields@)[1] == fields@[1]@);
    let host = match utf8_decode(duplicate_bytes(&fields[1])) {
        Err(_) => {
            return None;
        },
        Ok(h) => h,
    };
    match id {
        Err(_) => None,
        Ok(txid) => Some(
            AdvertisementToken {
                host,
                txid,
                output_index: output.output_index,
                locking_script: hex_encode(script.as_slice()),
                beef: output.beef,
            },
        ),
    }
}

/// Whether an output of a transaction is an advertisement that was made here: of a host, for the
/// holder of an identity key.
pub open spec fn advertises_host(
    output: LookupOutputModel,
    tx: Option<TransactionModel>,
    s: AnointingSignedModel,
    signature: Seq<u8>,
) -> bool {
    &&& tx matches Some(t)
    &&& t.id is Ok
    &&& output.output_index < t.scripts.len()
    &&& t.scripts[output.output_index as int] == s.script(signature)
    &&& is_whole(s.script(signature))
    &&& s.key.len() == 33
    &&& 0 < s.identity_key.len() <= 0xffff_ffff
    &&& 0 < s.host.len() <= 0xffff_ffff
    &&& 0 < signature.len() <= 0xffff_ffff
    &&& valid_utf8(s.host)
}

/// The advertisement in an output of a transaction. One that was made here is read back: it names
/// the host that it was made for.
pub fn read_advertisement_in(output: LookupOutput, tx: Result<ParsedTransaction, String>) -> (r:
    Option<AdvertisementToken>)
    ensures
        opt_view(r) == advertisement_in(output@, success_view(tx)),
        forall|s: AnointingSignedModel, signature: Seq<u8>| #[trigger]
            advertises_host(output@, success_view(tx), s, signature) ==> r is Some && r->0@.host
                == decode_utf8(s.host),
{
    match tx {
        Err(_) => None,
        Ok(t) => {
            assert(t@.scripts.len() == t.scripts@.len());
            if output.output_index as u64 >= t.scripts.len() as u64 {
                return None;
            }
            let script = &t.scripts[output.output_index as usize];
            assert(t@.scripts[output.output_index as int] == script@);
            let fields = read_fields(script);
            proof {
                assert forall|s: AnointingSignedModel, signature: Seq<u8>| #[trigger]
                    advertises_host(output@, success_view(tx), s, signature) implies fields is Ok
                    && views(fields->Ok_0@) == seq![s.identity_key, s.host, signature] by {
                    let made = seq![s.identity_key, s.host, signature];
                    assert(script@ == push_drop_script(s.key, made));
                    assert(carries(script@, made));
                }
            }
            advertisement_with(output, fields, t.id, script)
        },
    }
}

/// The advertisement in an output that the overlay knows.
pub fn read_advertisement(output: LookupOutput) -> (r: Option<AdvertisementToken>)
    ensures
        opt_view(r) == advertisement_of(output@),
{
    let tx = read_transaction(&output.beef);
    read_advertisement_in(output, tx)
}

/// The advertisements in outputs, in their order.
pub open spec fn advertisements_of(outputs: Seq<LookupOutputModel>) -> Seq<AdvertisementTokenModel>
    decreases outputs.len(),
{
    if outputs.len() == 0 {
        Seq::empty()
    } else {
        let before = advertisements_of(outputs.drop_last());
        match advertisement_of(outputs.last()) {
            Some(ad) => before.push(ad),
            None => before,
        }
    }
}

impl MessageBoxClient {
    /// The advertisements in the answer of the overlay. An output that holds none is passed over, and
    /// an overlay that does not answer knows none.
    pub fn query_advertisements(&self, answer: Result<Vec<LookupOutput>, MessageBoxError>) -> (r: Vec<
        AdvertisementToken,
    >)
        ensures
            match answer {
                Ok(outputs) => views(r@) == advertisements_of(views(outputs@)),
                Err(_) => r@.len() == 0,
            },
    {
        let mut r: Vec<AdvertisementToken> = Vec::new();
        let outputs = match answer {
            Err(_) => {
                return r;
            },
            Ok(outputs) => outputs,
        };
        let ghost all = views(outputs@);
        assert(views(r@) =~= advertisements_of(all.take(0)));
        for output in it: outputs
            invariant
                it.seq() == outputs@,
                all == views(outputs@),
                views(r@) == advertisements_of(all.take(it.index() as int)),
        {
            let ghost n = it.index() as int;
            let ghost before = views(r@);
            assert(all.take(n + 1).drop_last() =~= all.take(n));
            if let Some(ad) = read_advertisement(output) {
                r.push(ad);
                assert(views(r@) =~= before.push(ad@));
            }
        }
        assert(all.take(all.len() as int) =~= all);
        r
    }
}

/// The host of a peer: that of its first advertisement, or the own.
pub open spec fn resolved_host(ads: Seq<AdvertisementTokenModel>, own: Seq<char>) -> Seq<char> {
    if ads.len() > 0 {
        ads[0].host
    } else {
        own
    }
}

impl MessageBoxClient {
    /// The host of a peer, given its advertisements.
    pub fn resolve_host_for_recipient(&self, ads: &Vec<AdvertisementToken>) -> (r: String)
        ensures
            r@ == resolved_host(views(ads@), self@.host),
    {
        if ads.len() > 0 {
            assert(views(ads@)[0] == ads@[0]@);
            ads[0].host.clone()
        } else {
            self.host().to_owned()
        }
    }
}

// ---------------------------------------------------------------------------------------------
// Making an advertisement
// ---------------------------------------------------------------------------------------------

/// The next step of making or taking back an advertisement.
pub enum AdvertisementStep {
    /// Ask for the key that the advertisement is locked to.
    Derive(Anointing, KeyRequest),
    /// Ask for a signature of the fields.
    SignFields(AnointingSigned, SignatureRequest),
    /// Ask for the transaction that makes the advertisement.
    Create(ActionRequest),
    /// Ask for the transaction that takes the advertisement back.
    Spend(Revocation, ActionRequest),
    /// Ask for a signature of the transaction.
    SignTransaction(RevocationDraft, SignatureRequest),
    /// Ask to complete the transaction.
    Complete(SignRequest),
    /// Broadcast the transaction.
    Broadcast(Broadcasting, Vec<u8>),
}

/// A transaction that is broadcast.
pub struct Broadcasting {
    id: Result<String, String>,
    context: String,
}

/// The contents of a `Broadcasting`: the identifier of the transaction, and what stands before the
/// message when there is none.
#[verifier::ext_equal]
pub struct BroadcastingModel {
    pub id: Result<Seq<char>, Seq<char>>,
    pub context: Seq<char>,
}

impl View for Broadcasting {
    type V = BroadcastingModel;

    closed spec fn view(&self) -> BroadcastingModel {
        BroadcastingModel { id: result_view(self.id), context: self.context@ }
    }
}

/// The contents of a `AdvertisementStep`.
#[verifier::ext_equal]
pub enum AdvertisementStepModel {
    Derive(AnointingModel, KeyRequestModel),
    SignFields(AnointingSignedModel, SignatureRequestModel),
    Create(ActionRequestModel),
    Spend(RevocationModel, ActionRequestModel),
    SignTransaction(RevocationDraftModel, SignatureRequestModel),
    Complete(SignRequestModel),
    Broadcast(BroadcastingModel, Seq<u8>),
}

impl View for AdvertisementStep {
    type V = AdvertisementStepModel;

    open spec fn view(&self) -> AdvertisementStepModel {
        match self {
            AdvertisementStep::Derive(s, q) => AdvertisementStepModel::Derive(s@, q@),
            AdvertisementStep::SignFields(s, q) => AdvertisementStepModel::SignFields(s@, q@),
            AdvertisementStep::Create(q) => AdvertisementStepModel::Create(q@),
            AdvertisementStep::Spend(s, q) => AdvertisementStepModel::Spend(s@, q@),
            AdvertisementStep::SignTransaction(s, q) => AdvertisementStepModel::SignTransaction(
                s@,
                q@,
            ),
            AdvertisementStep::Complete(q) => AdvertisementStepModel::Complete(q@),
            AdvertisementStep::Broadcast(s, tx) => AdvertisementStepModel::Broadcast(s@, tx@),
        }
    }
}

/// The request for the key that advertisements are locked to.
pub open spec fn advertisement_key_request() -> KeyRequestModel {
    KeyRequestModel {
        identity_key: false,
        protocol: Some(advertisement_protocol()),
        key_id: Some("1"@),
        counterparty: Some(PartyModel::Anyone),
        for_self: Some(true),
    }
}

/// The request for a signature with the key that advertisements are locked to.
pub open spec fn advertisement_signature_request(data: Seq<u8>) -> SignatureRequestModel {
    SignatureRequestModel {
        data,
        protocol: advertisement_protocol(),
        key_id: "1"@,
        counterparty: PartyModel::Anyone,
    }
}

fn signature_request(data: Vec<u8>) -> (r: SignatureRequest)
    ensures
        r@ == advertisement_signature_request(data@),
{
    SignatureRequest {
        data,
        protocol: protocol(1, "messagebox advertisement"),
        key_id: "1".to_owned(),
        counterparty: Party::Anyone,
    }
}

impl AnointingModel {
    /// The step after the wallet answered with the key.
    pub open spec fn derived(self, reply: Result<Seq<u8>, Seq<char>>) -> Result<
        AdvertisementStepModel,
        ErrorModel,
    > {
        match reply {
            Err(e) => Err(ErrorModel::Wallet(e)),
            Ok(key) => if key.len() != 33 {
                Err(ErrorModel::Wallet("the key is not in compressed notation"@))
            } else if is_hex(self.identity_key) {
                let s = AnointingSignedModel {
                    key,
                    identity_key: hex_bytes(self.identity_key),
                    host: encode_utf8(self.host),
                };
                Ok(
                    AdvertisementStepModel::SignFields(
                        s,
                        advertisement_signature_request(s.identity_key + s.host),
                    ),
                )
            } else {
                Err(
                    ErrorModel::Overlay(
                        "hex decode identity key: "@ + hex_error(self.identity_key),
                    ),
                )
            },
        }
    }
}

impl AnointingSignedModel {
    /// The script of the advertisement: the identity key, the host and the signature of both,
    /// locked to the key.
    pub open spec fn script(self, signature: Seq<u8>) -> Seq<u8> {
        push_drop_script(self.key, seq![self.identity_key, self.host, signature])
    }

    /// The transaction that makes the advertisement.
    pub open spec fn action(self, signature: Seq<u8>) -> ActionRequestModel {
        ActionRequestModel {
            description: "Anoint host for overlay routing"@,
            input_beef: None,
            inputs: Seq::empty(),
            outputs: seq![
                ActionOutputModel {
                    locking_script: self.script(signature),
                    satoshis: 1,
                    description: "Overlay advertisement output"@,
                    basket: Some("overlay advertisements"@),
                    custom_instructions: None,
                },
            ],
            labels: Seq::empty(),
            randomize_outputs: Some(false),
            accept_delayed_broadcast: Some(false),
        }
    }

    /// The step after the wallet answered with the signature of the fields.
    pub open spec fn signed(self, reply: Result<Seq<u8>, Seq<char>>) -> Result<
        AdvertisementStepModel,
        ErrorModel,
    > {
        match reply {
            Err(e) => Err(ErrorModel::Overlay("sign fields: "@ + e)),
            Ok(signature) => Ok(AdvertisementStepModel::Create(self.action(signature))),
        }
    }
}

impl MessageBoxClient {
    /// The first step of advertising a host.
    pub fn anoint_host(&self, identity_key: &str, host: &str) -> (r: AdvertisementStep)
        ensures
            r@ == AdvertisementStepModel::Derive(
                AnointingModel { identity_key: identity_key@, host: host@ },
                advertisement_key_request(),
            ),
    {
        let q = KeyRequest {
            identity_key: false,
            protocol: Some(protocol(1, "messagebox advertisement")),
            key_id: Some("1".to_owned()),
            counterparty: Some(Party::Anyone),
            for_self: Some(true),
        };
        AdvertisementStep::Derive(
            Anointing { identity_key: identity_key.to_owned(), host: host.to_owned() },
            q,
        )
    }
}

impl Anointing {
    /// The step after the wallet answered with the key, in compressed notation.
    pub fn derived(self, reply: Result<Vec<u8>, String>) -> (r: Result<
        AdvertisementStep,
        MessageBoxError,
    >)
        ensures
            result_view(r) == self@.derived(result_view(reply)),
    {
        let key = match reply {
            Err(e) => {
                return Err(MessageBoxError::Wallet(e));
            },
            Ok(key) => key,
        };
        if key.len() != 33 {
            return Err(
                MessageBoxError::Wallet("the key is not in compressed notation".to_owned()),
            );
        }
        match hex_decode(self.identity_key.as_str()) {
            Err(e) => Err(
                MessageBoxError::Overlay(joined("hex decode identity key: ", e.as_str())),
            ),
            Ok(identity_key) => {
                let host = self.host.as_str().as_bytes_vec();
                let mut data = duplicate_bytes(&identity_key);
                data.extend_from_slice(host.as_slice());
                assert(data@ =~= identity_key@ + host@);
                let q = signature_request(data);
                Ok(AdvertisementStep::SignFields(AnointingSigned { key, identity_key, host }, q))
            },
        }
    }
}

impl AnointingSigned {
    /// The step after the wallet answered with the signature of the fields.
    pub fn signed(self, reply: Result<Vec<u8>, String>) -> (r: Result<
        AdvertisementStep,
        MessageBoxError,
    >)
        requires
            self@.key.len() == 33,
        ensures
            result_view(r) == self@.signed(result_view(reply)),
    {
        let ghost model = self@;
        let signature = match reply {
            Err(e) => {
                return Err(MessageBoxError::Overlay(joined("sign fields: ", e.as_str())));
            },
            Ok(s) => s,
        };
        let fields = vec![self.identity_key, self.host, signature];
        assert(views(fields@) =~= seq![model.identity_key, model.host, signature@]);
        let locking_script = match advertisement_script(&self.key, fields) {
            Err(e) => {
                return Err(MessageBoxError::Overlay(joined("PushDrop lock: ", e.as_str())));
            },
            Ok(s) => s,
        };
        let output = ActionOutput {
            locking_script,
            satoshis: 1,
            description: "Overlay advertisement output".to_owned(),
            basket: Some("overlay advertisements".to_owned()),
            custom_instructions: None,
        };
        let q = ActionRequest {
            description: "Anoint host for overlay routing".to_owned(),
            input_beef: None,
            inputs: Vec::new(),
            outputs: vec![output],
            labels: Vec::new(),
            randomize_outputs: Some(false),
            accept_delayed_broadcast: Some(false),
        };
        assert(q@ == model.action(signature@)) by {
            assert(q@.inputs =~= Seq::empty());
            assert(q@.outputs =~= model.action(signature@).outputs);
            assert(q@.labels =~= Seq::empty());
        }
        Ok(AdvertisementStep::Create(q))
    }
}

/// The step after a transaction was made, given how it reads.
pub open spec fn made(
    tx: Seq<u8>,
    read: Result<TransactionModel, Seq<char>>,
    parse_context: Seq<char>,
    id_context: Seq<char>,
) -> Result<AdvertisementStepModel, ErrorModel> {
    match read {
        Err(e) => Err(ErrorModel::Overlay(parse_context + e)),
        Ok(t) => Ok(
            AdvertisementStepModel::Broadcast(
                BroadcastingModel { id: t.id, context: id_context },
                tx,
            ),
        ),
    }
}

fn make(
    tx: Vec<u8>,
    read: Result<ParsedTransaction, String>,
    parse_context: &str,
    id_context: &str,
) -> (r: Result<AdvertisementStep, MessageBoxError>)
    ensures
        result_view(r) == made(tx@, result_view(read), parse_context@, id_context@),
{
    match read {
        Err(e) => Err(MessageBoxError::Overlay(joined(parse_context, e.as_str()))),
        Ok(t) => Ok(
            AdvertisementStep::Broadcast(
                Broadcasting { id: t.id, context: id_context.to_owned() },
                tx,
            ),
        ),
    }
}

/// The step after the wallet answered with the transaction that makes the advertisement, given how
/// it reads.
pub open spec fn advertisement_created(
    reply: Result<ActionReplyModel, Seq<char>>,
    read: Result<TransactionModel, Seq<char>>,
) -> Result<AdvertisementStepModel, ErrorModel> {
    match reply {
        Err(e) => Err(ErrorModel::Wallet(e)),
        Ok(a) => match a.tx {
            None => Err(ErrorModel::Overlay("create_action returned no tx"@)),
            Some(tx) => made(tx, read, "parse BEEF: "@, "tx.id(): "@),
        },
    }
}

/// What there is to read in an answer of the wallet: nothing without a transaction.
pub open spec fn transaction_in(tx: Option<Seq<u8>>) -> Option<TransactionModel> {
    match tx {
        Some(tx) => transaction_of(tx),
        None => None,
    }
}

/// The transaction in an answer of the wallet.
pub open spec fn answered(reply: Result<ActionReplyModel, Seq<char>>) -> Option<Seq<u8>> {
    match reply {
        Ok(a) => a.tx,
        Err(_) => None,
    }
}

/// The step after the wallet answered with the transaction that makes the advertisement, given how
/// it reads.
pub fn host_anointed_with(
    reply: Result<ActionReply, String>,
    read: Result<ParsedTransaction, String>,
) -> (r: Result<AdvertisementStep, MessageBoxError>)
    ensures
        result_view(r) == advertisement_created(result_view(reply), result_view(read)),
{
    match reply {
        Err(e) => Err(MessageBoxError::Wallet(e)),
        Ok(a) => match a.tx {
            None => Err(MessageBoxError::Overlay("create_action returned no tx".to_owned())),
            Some(tx) => make(tx, read, "parse BEEF: ", "tx.id(): "),
        },
    }
}

/// The step after the wallet answered with the transaction that makes the advertisement.
pub fn host_anointed(reply: Result<ActionReply, String>) -> (r: Result<
    AdvertisementStep,
    MessageBoxError,
>)
    ensures
        exists|read: Result<TransactionModel, Seq<char>>| #[trigger]
            tells(transaction_in(answered(result_view(reply))), read) && result_view(r)
                == advertisement_created(result_view(reply), read),
{
    let mut read: Result<ParsedTransaction, String> = Err(String::new());
    if let Ok(a) = &reply {
        if let Some(tx) = &a.tx {
            read = read_transaction(tx);
        }
    }
    assert(tells(transaction_in(answered(result_view(reply))), result_view(read)));
    host_anointed_with(reply, read)
}

impl BroadcastingModel {
    /// The outcome after the transaction was broadcast: its identifier.
    pub open spec fn broadcast(self, outcome: Result<(), Seq<char>>) -> Result<
        Seq<char>,
        ErrorModel,
    > {
        match (outcome, self.id) {
            (Err(e), _) => Err(ErrorModel::Overlay(e)),
            (Ok(_), Err(e)) => Err(ErrorModel::Overlay(self.context + e)),
            (Ok(_), Ok(id)) => Ok(id),
        }
    }
}

impl Broadcasting {
    /// The outcome after the transaction was broadcast, or could not be.
    pub fn broadcast(self, outcome: Result<(), String>) -> (r: Result<String, MessageBoxError>)
        ensures
            result_view(r) == self@.broadcast(result_view(outcome)),
    {
        match outcome {
            Err(e) => Err(MessageBoxError::Overlay(e)),
            Ok(_) => match self.id {
                Err(e) => Err(MessageBoxError::Overlay(joined(self.context.as_str(), e.as_str()))),
                Ok(id) => Ok(id),
            },
        }
    }
}

// ---------------------------------------------------------------------------------------------
// Taking an advertisement back
// ---------------------------------------------------------------------------------------------

/// The output of an advertisement: the identifier of its transaction, a dot and its position.
pub open spec fn outpoint(token: AdvertisementTokenModel) -> Seq<char> {
    token.txid + "."@ + decimal_text(token.output_index as nat)
}

/// The transaction that takes an advertisement back.
pub open spec fn revocation_action(token: AdvertisementTokenModel) -> ActionRequestModel {
    ActionRequestModel {
        description: "Revoke MessageBox host advertisement"@,
        input_beef: Some(token.beef),
        inputs: seq![
            ActionInputModel {
                outpoint: outpoint(token),
                description: "Revoking host advertisement token"@,
                unlocking_script_length: 73,
            },
        ],
        outputs: Seq::empty(),
        labels: Seq::empty(),
        randomize_outputs: None,
        accept_delayed_broadcast: Some(false),
    }
}

impl RevocationModel {
    /// The step after the wallet answered with the transaction to sign, given how it and the
    /// script of the advertisement read, and what is to be signed.
    pub open spec fn created(
        self,
        reply: Result<ActionReplyModel, Seq<char>>,
        tx: Result<(), Seq<char>>,
        script: Result<Seq<u8>, Seq<char>>,
        data: Result<Seq<u8>, Seq<char>>,
    ) -> Result<AdvertisementStepModel, ErrorModel> {
        match reply {
            Err(e) => Err(ErrorModel::Wallet(e)),
            Ok(a) => match (a.signable, tx, script, data) {
                (None, _, _, _) => Err(
                    ErrorModel::Overlay("create_action returned no signable_transaction"@),
                ),
                (Some(_), Err(e), _, _) => Err(ErrorModel::Overlay("parse signable tx: "@ + e)),
                (Some(_), Ok(_), Err(e), _) => Err(
                    ErrorModel::Overlay("parse locking script hex: "@ + e),
                ),
                (Some(_), Ok(_), Ok(_), Err(e)) => Err(
                    ErrorModel::Overlay("sighash_preimage: "@ + e),
                ),
                (Some(s), Ok(_), Ok(_), Ok(d)) => Ok(
                    AdvertisementStepModel::SignTransaction(
                        RevocationDraftModel { reference: s.reference },
                        advertisement_signature_request(d),
                    ),
                ),
            },
        }
    }
}

/// Whether the transaction to sign can be read.
pub open spec fn signable_read(reply: Result<ActionReplyModel, Seq<char>>) -> Option<()> {
    match reply {
        Ok(a) => match a.signable {
            Some(s) => match transaction_of(s.tx) {
                Some(_) => Some(()),
                None => None,
            },
            None => None,
        },
        Err(_) => None,
    }
}

/// What is to be signed to spend an advertisement.
pub open spec fn signable_data(
    reply: Result<ActionReplyModel, Seq<char>>,
    script: Result<Seq<u8>, Seq<char>>,
) -> Option<Seq<u8>> {
    match (reply, script) {
        (Ok(a), Ok(bytes)) => match a.signable {
            Some(s) => spending_data(s.tx, SIGNATURE_SCOPE, 1, bytes),
            None => None,
        },
        _ => None,
    }
}

impl MessageBoxClient {
    /// The first step of taking an advertisement back.
    pub fn revoke_host_advertisement(&self, token: &AdvertisementToken) -> (r: AdvertisementStep)
        ensures
            r@ == AdvertisementStepModel::Spend(
                RevocationModel { locking_script: token@.locking_script },
                revocation_action(token@),
            ),
    {
        let index = decimal(token.output_index as u64);
        let input = ActionInput {
            outpoint: joined3(token.txid.as_str(), ".", index.as_str()),
            description: "Revoking host advertisement token".to_owned(),
            unlocking_script_length: 73,
        };
        let q = ActionRequest {
            description: "Revoke MessageBox host advertisement".to_owned(),
            input_beef: Some(duplicate_bytes(&token.beef)),
            inputs: vec![input],
            outputs: Vec::new(),
            labels: Vec::new(),
            randomize_outputs: None,
            accept_delayed_broadcast: Some(false),
        };
        assert(q@ == revocation_action(token@)) by {
            assert(q@.inputs =~= revocation_action(token@).inputs);
            assert(q@.outputs =~= Seq::empty());
            assert(q@.labels =~= Seq::empty());
        }
        AdvertisementStep::Spend(Revocation { locking_script: token.locking_script.clone() }, q)
    }
}

impl Revocation {
    /// The step after the wallet answered with the transaction to sign, given how it and the
    /// script of the advertisement read, and what is to be signed.
    pub fn created_with(
        self,
        reply: Result<ActionReply, String>,
        tx: Result<(), String>,
        script: Result<Vec<u8>, String>,
        data: Result<Vec<u8>, String>,
    ) -> (r: Result<AdvertisementStep, MessageBoxError>)
        ensures
            result_view(r) == self@.created(
                result_view(reply),
                result_view(tx),
                result_view(script),
                result_view(data),
            ),
    {
        let signable = match reply {
            Err(e) => {
                return Err(MessageBoxError::Wallet(e));
            },
            Ok(a) => match a.signable {
                None => {
                    return Err(
                        MessageBoxError::Overlay(
                            "create_action returned no signable_transaction".to_owned(),
                        ),
                    );
                },
                Some(s) => s,
            },
        };
        if let Err(e) = tx {
            return Err(MessageBoxError::Overlay(joined("parse signable tx: ", e.as_str())));
        }
        if let Err(e) = script {
            return Err(MessageBoxError::Overlay(joined("parse locking script hex: ", e.as_str())));
        }
        match data {
            Err(e) => Err(MessageBoxError::Overlay(joined("sighash_preimage: ", e.as_str()))),
            Ok(d) => Ok(
                AdvertisementStep::SignTransaction(
                    RevocationDraft { reference: signable.reference },
                    signature_request(d),
                ),
            ),
        }
    }

    /// The step after the wallet answered with the transaction to sign.
    pub fn created(self, reply: Result<ActionReply, String>) -> (r: Result<
        AdvertisementStep,
        MessageBoxError,
    >)
        ensures
            exists|tx: Result<(), Seq<char>>, data: Result<Seq<u8>, Seq<char>>|
                #![trigger tells(signable_read(result_view(reply)), tx), tells(
                    signable_data(result_view(reply), script_text(self@.locking_script)),
                    data,
                )]
                tells(signable_read(result_view(reply)), tx) && tells(
                    signable_data(result_view(reply), script_text(self@.locking_script)),
                    data,
                ) && result_view(r) == self@.created(
                    result_view(reply),
                    tx,
                    script_text(self@.locking_script),
                    data,
                ),
    {
        let script = read_script(self.locking_script.as_str());
        let mut tx: Result<(), String> = Err(String::new());
        let mut data: Result<Vec<u8>, String> = Err(String::new());
        if let Ok(a) = &reply {
            if let Some(s) = &a.signable {
                tx = match read_transaction(&s.tx) {
                    Ok(_) => Ok(()),
                    Err(e) => Err(e),
                };
                if let Ok(bytes) = &script {
                    data = read_spending_data(&s.tx, SIGNATURE_SCOPE, 1, bytes);
                }
            }
        }
        proof {
            assert(tells(signable_read(result_view(reply)), result_view(tx)));
            assert(tells(
                signable_data(result_view(reply), script_text(self@.locking_script)),
                result_view(data),
            ));
        }
        self.created_with(reply, tx, script, data)
    }
}

impl RevocationDraftModel {
    /// The request that completes the transaction: its first input is unlocked by one push, the
    /// signature with its scope behind it.
    pub open spec fn completion(self, signature: Seq<u8>) -> SignRequestModel {
        SignRequestModel {
            reference: self.reference,
            spends: seq![
                SpendModel {
                    input: 0,
                    unlocking_script: data_push(signature.push(SIGNATURE_SCOPE as u8)),
                },
            ],
        }
    }

    /// The step after the wallet answered with the signature of the transaction.
    pub open spec fn signed(self, reply: Result<Seq<u8>, Seq<char>>) -> Result<
        AdvertisementStepModel,
        ErrorModel,
    > {
        match reply {
            Err(e) => Err(ErrorModel::Wallet(e)),
            Ok(signature) => Ok(AdvertisementStepModel::Complete(self.completion(signature))),
        }
    }
}

impl RevocationDraft {
    /// The step after the wallet answered with the signature of the transaction.
    pub fn signed(self, reply: Result<Vec<u8>, String>) -> (r: Result<
        AdvertisementStep,
        MessageBoxError,
    >)
        ensures
            result_view(r) == self@.signed(result_view(reply)),
    {
        match reply {
            Err(e) => Err(MessageBoxError::Wallet(e)),
            Ok(signature) => {
                let ghost model = self@;
                let ghost given = signature@;
                let mut bytes = signature;
                bytes.push(0x41);
                assert(bytes@ =~= given.push(SIGNATURE_SCOPE as u8));
                let spend = Spend { input: 0, unlocking_script: make_data_push(bytes.as_slice()) };
                let q = SignRequest { reference: self.reference, spends: vec![spend] };
                assert(q@.spends =~= model.completion(given).spends);
                Ok(AdvertisementStep::Complete(q))
            },
        }
    }
}

/// The step after the wallet completed the transaction, given how it reads.
pub open spec fn revocation_completed(
    reply: Result<Option<Seq<u8>>, Seq<char>>,
    read: Result<TransactionModel, Seq<char>>,
) -> Result<AdvertisementStepModel, ErrorModel> {
    match reply {
        Err(e) => Err(ErrorModel::Wallet(e)),
        Ok(None) => Err(ErrorModel::Overlay("sign_action returned no tx"@)),
        Ok(Some(tx)) => made(tx, read, "parse signed tx: "@, "signed_tx.id(): "@),
    }
}

/// The contents of an answer of the wallet with a transaction.
pub open spec fn completion_view(reply: Result<Option<Vec<u8>>, String>) -> Result<
    Option<Seq<u8>>,
    Seq<char>,
> {
    match reply {
        Ok(tx) => Ok(opt_view(tx)),
        Err(e) => Err(e@),
    }
}

/// The transaction in an answer of the wallet with a transaction.
pub open spec fn completed(reply: Result<Option<Seq<u8>>, Seq<char>>) -> Option<Seq<u8>> {
    match reply {
        Ok(tx) => tx,
        Err(_) => None,
    }
}

/// The step after the wallet completed the transaction that takes an advertisement back, given how
/// it reads.
pub fn host_revoked_with(
    reply: Result<Option<Vec<u8>>, String>,
    read: Result<ParsedTransaction, String>,
) -> (r: Result<AdvertisementStep, MessageBoxError>)
    ensures
        result_view(r) == revocation_completed(completion_view(reply), result_view(read)),
{
    match reply {
        Err(e) => Err(MessageBoxError::Wallet(e)),
        Ok(None) => Err(MessageBoxError::Overlay("sign_action returned no tx".to_owned())),
        Ok(Some(tx)) => make(tx, read, "parse signed tx: ", "signed_tx.id(): "),
    }
}

/// The step after the wallet completed the transaction that takes an advertisement back.
pub fn host_revoked(reply: Result<Option<Vec<u8>>, String>) -> (r: Result<
    AdvertisementStep,
    MessageBoxError,
>)
    ensures
        exists|read: Result<TransactionModel, Seq<char>>| #[trigger]
            tells(transaction_in(completed(completion_view(reply))), read) && result_view(r)
                == revocation_completed(completion_view(reply), read),
{
    let mut read: Result<ParsedTransaction, String> = Err(String::new());
    if let Ok(Some(tx)) = &reply {
        read = read_transaction(tx);
    }
    assert(tells(transaction_in(completed(completion_view(reply))), result_view(read)));
    host_revoked_with(reply, read)
}

// ---------------------------------------------------------------------------------------------
// Devices
// ---------------------------------------------------------------------------------------------

/// The request that registers a device.
pub open spec fn register_request(
    host: Seq<char>,
    device: RegisterDeviceRequestModel,
) -> HttpPostModel {
    HttpPostModel {
        url: host + "/registerDevice"@,
        body: <RegisterDeviceRequest as ToJson>::text_of(device),
    }
}

impl MessageBoxClient {
    /// The request that registers a device, at a host in place of the own.
    pub fn register_device(
        &self,
        fcm_token: &str,
        device_id: Option<&str>,
        platform: Option<&str>,
        override_host: Option<&str>,
    ) -> (r: HttpPost)
        ensures
            r@ == register_request(
                host_choice(opt_view(override_host), self@.host),
                RegisterDeviceRequestModel {
                    fcm_token: fcm_token@,
                    device_id: opt_view(device_id),
                    platform: opt_view(platform),
                },
            ),
    {
        let host = self.host_or_own(override_host);
        let device = RegisterDeviceRequest {
            fcm_token: fcm_token.to_owned(),
            device_id: match device_id {
                Some(s) => Some(s.to_owned()),
                None => None,
            },
            platform: match platform {
                Some(s) => Some(s.to_owned()),
                None => None,
            },
        };
        HttpPost { url: joined(host.as_str(), "/registerDevice"), body: device.to_json() }
    }

    /// The address that the devices are listed from, at a host in place of the own.
    pub fn list_registered_devices(&self, override_host: Option<&str>) -> (r: String)
        ensures
            r@ == host_choice(opt_view(override_host), self@.host) + "/devices"@,
    {
        let host = self.host_or_own(override_host);
        joined(host.as_str(), "/devices")
    }
}

/// The outcome of registering a device, given how the body of the answer was read.
pub fn device_registered(
    url: &str,
    reply: Result<HttpReply, String>,
    read: Result<RegisterDeviceResponse, String>,
) -> (r: Result<RegisterDeviceResponse, MessageBoxError>)
    ensures
        match (successful_body(url@, result_view(reply)), read) {
            (Err(e), _) => r is Err && r->Err_0@ == e,
            (Ok(_), Err(e)) => r is Err && r->Err_0@ == ErrorModel::Overlay(
                "deserialize RegisterDeviceResponse: "@ + e@,
            ),
            (Ok(_), Ok(response)) => r is Ok && r->Ok_0@ == response@,
        },
{
    match take_body(url, reply) {
        Err(e) => Err(e),
        Ok(_) => match read {
            Err(e) => Err(
                MessageBoxError::Overlay(
                    joined("deserialize RegisterDeviceResponse: ", e.as_str()),
                ),
            ),
            Ok(response) => Ok(response),
        },
    }
}

/// The devices of an answer, given how its body was read.
pub fn devices_listed(
    url: &str,
    reply: Result<HttpReply, String>,
    read: Result<ListDevicesResponse, String>,
) -> (r: Result<Vec<RegisteredDevice>, MessageBoxError>)
    ensures
        match (successful_body(url@, result_view(reply)), read) {
            (Err(e), _) => r is Err && r->Err_0@ == e,
            (Ok(_), Err(e)) => r is Err && r->Err_0@ == ErrorModel::Overlay(
                "deserialize ListDevicesResponse: "@ + e@,
            ),
            (Ok(_), Ok(response)) => r is Ok && views(r->Ok_0@) == response@.devices,
        },
{
    match take_body(url, reply) {
        Err(e) => Err(e),
        Ok(_) => match read {
            Err(e) => Err(
                MessageBoxError::Overlay(joined("deserialize ListDevicesResponse: ", e.as_str())),
            ),
            Ok(response) => Ok(response.devices),
        },
    }
}

// ---------------------------------------------------------------------------------------------
// Laws
// ---------------------------------------------------------------------------------------------

/// A query asks for the advertisements of the one peer, and for those at a host exactly when one is
/// given that is not blank, without the white space round it.
pub proof fn queries_name_the_peer(identity_key: Seq<char>, host: Seq<char>)
    ensures
        query_members(identity_key, None) == seq![("identityKey"@, json_quoted(identity_key))],
        trimmed(host).len() == 0 ==> query_members(identity_key, Some(host)) == query_members(
            identity_key,
            None,
        ),
        trimmed(host).len() > 0 ==> query_members(identity_key, Some(host)) == seq![
            ("host"@, json_quoted(trimmed(host))),
            ("identityKey"@, json_quoted(identity_key)),
        ],
{
    assert(seq![("host"@, json_quoted(trimmed(host)))] + seq![
        ("identityKey"@, json_quoted(identity_key)),
    ] =~= seq![
        ("host"@, json_quoted(trimmed(host))),
        ("identityKey"@, json_quoted(identity_key)),
    ]);
}

/// An output holds an advertisement exactly when it is there, its transaction has an identifier and
/// its second field is text. The host is that text; the rest tells the very output, so that it can
/// be spent.
pub proof fn advertisements_tell_their_output(output: LookupOutputModel, tx: TransactionModel)
    ensures
        ({
            let script = tx.scripts[output.output_index as int];
            &&& advertisement_in(output, None) is None
            &&& advertisement_in(output, Some(tx)) is Some <==> output.output_index
                < tx.scripts.len() && tx.id is Ok && (fields_of(script) matches Ok(f) && f.len() >= 2
                && valid_utf8(f[1]))
            &&& advertisement_in(output, Some(tx)) matches Some(ad) ==> {
                &&& ad.host == decode_utf8(fields_of(script)->Ok_0[1])
                &&& tx.id == Ok::<Seq<char>, Seq<char>>(ad.txid)
                &&& ad.output_index == output.output_index
                &&& is_hex(ad.locking_script) && hex_bytes(ad.locking_script) == script
                &&& ad.beef == output.beef
            }
        }),
{
    hex_text_reads_back(tx.scripts[output.output_index as int]);
}

/// The advertisements are those that the outputs hold, all of them and in the order of the outputs.
pub proof fn advertisements_are_those_of_the_outputs(outputs: Seq<LookupOutputModel>)
    ensures
        advertisements_of(outputs) == outputs.filter(
            |o: LookupOutputModel| advertisement_of(o) is Some,
        ).map_values(|o: LookupOutputModel| advertisement_of(o)->0),
    decreases outputs.len(),
{
    reveal(Seq::filter);
    let holds = |o: LookupOutputModel| advertisement_of(o) is Some;
    let held = |o: LookupOutputModel| advertisement_of(o)->0;
    if outputs.len() > 0 {
        advertisements_are_those_of_the_outputs(outputs.drop_last());
        let before = outputs.drop_last().filter(holds);
        assert(before.push(outputs.last()).map_values(held) =~= before.map_values(held).push(
            held(outputs.last()),
        ));
    } else {
        assert(outputs.filter(holds).map_values(held) =~= Seq::empty());
    }
}

/// A peer is reached at the host that its first advertisement names, and at the own one only when it
/// advertises none.
pub proof fn peers_are_reached_where_they_advertise(
    ads: Seq<AdvertisementTokenModel>,
    own: Seq<char>,
)
    ensures
        ads.len() > 0 ==> resolved_host(ads, own) == ads.first().host,
        ads.len() == 0 ==> resolved_host(ads, own) == own,
{
}

/// Whether a signature is asked for over some bytes, with the key of advertisements, which anyone
/// can check.
pub open spec fn signs_for_anyone(q: SignatureRequestModel, data: Seq<u8>) -> bool {
    &&& q.data == data
    &&& q.protocol.security_level == 1
    &&& q.protocol.name == "messagebox advertisement"@
    &&& q.key_id == "1"@
    &&& q.counterparty == PartyModel::Anyone
}

/// An advertisement is locked to the own key of advertisements, and has the bytes of the identity
/// key, those of the host and the signature over both, in this order. It is made of one output of one
/// satoshi, without an input. What the wallet makes is broadcast as it is, and is told by its
/// identifier.
pub proof fn advertisements_are_made_as_ordered(
    identity_key: Seq<char>,
    host: Seq<char>,
    key: Result<Seq<u8>, Seq<char>>,
    signature: Result<Seq<u8>, Seq<char>>,
)
    ensures
        advertisement_key_request().identity_key == false,
        advertisement_key_request().protocol matches Some(p) && p.security_level == 1 && p.name
            == "messagebox advertisement"@,
        advertisement_key_request().key_id == Some("1"@),
        advertisement_key_request().counterparty == Some(PartyModel::Anyone),
        advertisement_key_request().for_self == Some(true),
        ({
            let s = AnointingModel { identity_key, host };
            &&& s.derived(key) is Ok <==> (key matches Ok(k) && k.len() == 33) && is_hex(
                identity_key,
            )
            &&& key matches Err(e) ==> s.derived(key)->Err_0 == ErrorModel::Wallet(e)
            &&& s.derived(key) is Ok ==> match s.derived(key)->Ok_0 {
                AdvertisementStepModel::SignFields(f, q) => {
                    &&& signs_for_anyone(q, hex_bytes(identity_key) + encode_utf8(host))
                    &&& signature is Ok <==> f.signed(signature) is Ok
                    &&& signature is Ok ==> match f.signed(signature)->Ok_0 {
                        AdvertisementStepModel::Create(a) => {
                            &&& a.inputs.len() == 0 && a.input_beef is None
                            &&& a.outputs.len() == 1
                            &&& a.outputs[0].satoshis == 1
                            &&& a.outputs[0].basket == Some("overlay advertisements"@)
                            &&& a.outputs[0].locking_script == push_drop_script(
                                key->Ok_0,
                                seq![
                                    hex_bytes(identity_key),
                                    encode_utf8(host),
                                    signature->Ok_0,
                                ],
                            )
                            &&& a.randomize_outputs == Some(false)
                            &&& a.accept_delayed_broadcast == Some(false)
                        },
                        _ => false,
                    }
                },
                _ => false,
            }
        }),
{
}

/// What the wallet made is broadcast exactly when it can be read, byte for byte. The outcome is the
/// identifier of the transaction exactly when it was taken up and has one.
pub proof fn transactions_are_broadcast_as_made(
    created: Result<ActionReplyModel, Seq<char>>,
    completed: Result<Option<Seq<u8>>, Seq<char>>,
    read: Result<TransactionModel, Seq<char>>,
    outcome: Result<(), Seq<char>>,
)
    ensures
        advertisement_created(created, read) is Ok <==> (created matches Ok(a) && a.tx is Some)
            && read is Ok,
        revocation_completed(completed, read) is Ok <==> (completed matches Ok(Some(_))) && read
            is Ok,
        advertisement_created(created, read) is Ok ==> match advertisement_created(
            created,
            read,
        )->Ok_0 {
            AdvertisementStepModel::Broadcast(b, tx) => {
                &&& Some(tx) == created->Ok_0.tx
                &&& b.broadcast(outcome) is Ok <==> outcome is Ok && read->Ok_0.id is Ok
                &&& b.broadcast(outcome) matches Ok(id) ==> read->Ok_0.id == Ok::<
                    Seq<char>,
                    Seq<char>,
                >(id)
                &&& outcome matches Err(e) ==> b.broadcast(outcome)->Err_0 == ErrorModel::Overlay(e)
            },
            _ => false,
        },
        revocation_completed(completed, read) is Ok ==> match revocation_completed(
            completed,
            read,
        )->Ok_0 {
            AdvertisementStepModel::Broadcast(b, tx) => {
                &&& Some(tx) == completed->Ok_0
                &&& b.broadcast(outcome) is Ok <==> outcome is Ok && read->Ok_0.id is Ok
                &&& b.broadcast(outcome) matches Ok(id) ==> read->Ok_0.id == Ok::<
                    Seq<char>,
                    Seq<char>,
                >(id)
                &&& outcome matches Err(e) ==> b.broadcast(outcome)->Err_0 == ErrorModel::Overlay(e)
            },
            _ => false,
        },
{
}

/// An advertisement is taken back by spending its own output, which its transaction comes along
/// for, and nothing else. The signature is over the whole transaction, for the one satoshi and the
/// script of the advertisement; it unlocks the input, with the scope behind it, and fits into the
/// room that was asked for.
pub proof fn advertisements_are_taken_back_by_spending_them(
    token: AdvertisementTokenModel,
    reply: Result<ActionReplyModel, Seq<char>>,
    tx: Result<(), Seq<char>>,
    script: Result<Seq<u8>, Seq<char>>,
    data: Result<Seq<u8>, Seq<char>>,
    signature: Result<Seq<u8>, Seq<char>>,
)
    ensures
        ({
            let a = revocation_action(token);
            let r = RevocationModel { locking_script: token.locking_script };
            &&& a.inputs.len() == 1 && a.outputs.len() == 0
            &&& a.inputs[0].outpoint == token.txid + seq!['.'] + decimal_text(
                token.output_index as nat,
            )
            &&& a.input_beef == Some(token.beef)
            &&& a.accept_delayed_broadcast == Some(false)
            &&& signable_data(reply, script) == (match (reply, script) {
                (Ok(ActionReplyModel { signable: Some(s), .. }), Ok(bytes)) => spending_data(
                    s.tx,
                    0x41,
                    1,
                    bytes,
                ),
                _ => None,
            })
            &&& r.created(reply, tx, script, data) is Ok <==> (reply matches Ok(x) && x.signable
                is Some) && tx is Ok && script is Ok && data is Ok
            &&& r.created(reply, tx, script, data) is Ok ==> match r.created(
                reply,
                tx,
                script,
                data,
            )->Ok_0 {
                AdvertisementStepModel::SignTransaction(d, q) => {
                    &&& signs_for_anyone(q, data->Ok_0)
                    &&& signature is Ok <==> d.signed(signature) is Ok
                    &&& signature is Ok ==> match d.signed(signature)->Ok_0 {
                        AdvertisementStepModel::Complete(c) => {
                            &&& c.reference == reply->Ok_0.signable->0.reference
                            &&& c.spends.len() == 1
                            &&& c.spends[0].input == 0
                            &&& c.spends[0].unlocking_script == data_push(
                                signature->Ok_0 + seq![0x41u8],
                            )
                            &&& signature->Ok_0.len() <= 71 ==> c.spends[0].unlocking_script.len()
                                <= a.inputs[0].unlocking_script_length
                        },
                        _ => false,
                    }
                },
                _ => false,
            }
        }),
{
    reveal_strlit(".");
    assert("."@ =~= seq!['.']);
    if let Ok(s) = signature {
        assert(s.push(0x41u8) =~= s + seq![0x41u8]);
    }
}

/// A device is registered by a post that tells its token, its name and its platform.
pub proof fn devices_are_registered_as_given(host: Seq<char>, device: RegisterDeviceRequestModel)
    ensures
        register_request(host, device).url == host + "/registerDevice"@,
        register_request(host, device).body == device.json_text(),
{
}

/// An answer of the wallet is read for the transaction that it brings, and for none where it brings
/// none.
pub proof fn answers_are_read_for_their_transaction(
    reply: Result<ActionReplyModel, Seq<char>>,
    completion: Result<Option<Seq<u8>>, Seq<char>>,
    tx: Seq<u8>,
)
    ensures
        transaction_in(Some(tx)) == transaction_of(tx),
        transaction_in(None) is None,
        answered(reply) == Some(tx) <==> (reply matches Ok(a) && a.tx == Some(tx)),
        completed(completion) == Some(tx) <==> completion == Ok::<_, Seq<char>>(Some(tx)),
        signable_read(reply) is Some <==> (reply matches Ok(a) && a.signable is Some
            && transaction_of(a.signable->0.tx) is Some),
{
}

/// An output with the script of an advertisement that was made here is one that is read back: its
/// script can be read to its end, whatever the key, the host and the signature are.
pub proof fn made_advertisements_are_readable(
    output: LookupOutputModel,
    tx: TransactionModel,
    s: AnointingSignedModel,
    signature: Seq<u8>,
)
    requires
        tx.id is Ok,
        output.output_index < tx.scripts.len(),
        tx.scripts[output.output_index as int] == s.script(signature),
        s.script(signature).len() <= 0x7fff_ffff,
        s.key.len() == 33,
        0 < s.identity_key.len() <= 0xffff_ffff,
        0 < s.host.len() <= 0xffff_ffff,
        0 < signature.len() <= 0xffff_ffff,
        valid_utf8(s.host),
    ensures
        advertises_host(output, Some(tx), s, signature),
        is_whole(s.script(signature)),
{
    carrying_scripts_are_whole(s.key, seq![s.identity_key, s.host, signature]);
}

} // verus!
