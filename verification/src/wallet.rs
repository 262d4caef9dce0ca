//! What the client asks of the wallet, and what the wallet answers, as plain values.

use crate::text::{duplicate_bytes, opt_view, views, Duplicate};
use vstd::prelude::*;
use vstd::string::*;

verus! {

broadcast use vstd::string::group_string_axioms;

/// The other side of a key derivation.
#[derive(Clone, Debug)]
pub enum Party {
    /// Everyone.
    Anyone,
    /// The holder of a public key, in compressed hexadecimal notation. It is absent when the text
    /// that should name it is no public key.
    Other(Option<String>),
}

/// The contents of a `Party`.
#[verifier::ext_equal]
pub enum PartyModel {
    Anyone,
    Other(Option<Seq<char>>),
}

impl View for Party {
    type V = PartyModel;

    open spec fn view(&self) -> PartyModel {
        match self {
            Party::Anyone => PartyModel::Anyone,
            Party::Other(key) => PartyModel::Other(opt_view(*key)),
        }
    }
}

/// A protocol of the wallet.
#[derive(Clone, Debug)]
pub struct ProtocolId {
    /// Its security level.
    pub security_level: u8,
    /// Its name.
    pub name: String,
}

/// The contents of a `ProtocolId`.
#[verifier::ext_equal]
pub struct ProtocolIdModel {
    pub security_level: u8,
    pub name: Seq<char>,
}

impl View for ProtocolId {
    type V = ProtocolIdModel;

    open spec fn view(&self) -> ProtocolIdModel {
        ProtocolIdModel {
            security_level: self.security_level,
            name: self.name@,
        }
    }
}

/// Asks the wallet for a public key: the identity key, or one derived for a protocol, a key
/// identifier and a counterparty.
#[derive(Clone, Debug)]
pub struct KeyRequest {
    /// Whether the identity key is asked for.
    pub identity_key: bool,
    /// The protocol.
    pub protocol: Option<ProtocolId>,
    /// The key identifier.
    pub key_id: Option<String>,
    /// The counterparty.
    pub counterparty: Option<Party>,
    /// Whether the key is the own side of the pair.
    pub for_self: Option<bool>,
}

/// The contents of a `KeyRequest`.
#[verifier::ext_equal]
pub struct KeyRequestModel {
    pub identity_key: bool,
    pub protocol: Option<ProtocolIdModel>,
    pub key_id: Option<Seq<char>>,
    pub counterparty: Option<PartyModel>,
    pub for_self: Option<bool>,
}

impl View for KeyRequest {
    type V = KeyRequestModel;

    open spec fn view(&self) -> KeyRequestModel {
        KeyRequestModel {
            identity_key: self.identity_key,
            protocol: opt_view(self.protocol),
            key_id: opt_view(self.key_id),
            counterparty: opt_view(self.counterparty),
            for_self: self.for_self,
        }
    }
}

/// Asks the wallet to encrypt.
#[derive(Clone, Debug)]
pub struct EncryptRequest {
    /// The protocol.
    pub protocol: ProtocolId,
    /// The key identifier.
    pub key_id: String,
    /// Who can decrypt.
    pub counterparty: Party,
    /// What to encrypt.
    pub plaintext: Vec<u8>,
}

/// The contents of a `EncryptRequest`.
#[verifier::ext_equal]
pub struct EncryptRequestModel {
    pub protocol: ProtocolIdModel,
    pub key_id: Seq<char>,
    pub counterparty: PartyModel,
    pub plaintext: Seq<u8>,
}

impl View for EncryptRequest {
    type V = EncryptRequestModel;

    open spec fn view(&self) -> EncryptRequestModel {
        EncryptRequestModel {
            protocol: self.protocol@,
            key_id: self.key_id@,
            counterparty: self.counterparty@,
            plaintext: self.plaintext@,
        }
    }
}

/// Asks the wallet to decrypt.
#[derive(Clone, Debug)]
pub struct DecryptRequest {
    /// The protocol.
    pub protocol: ProtocolId,
    /// The key identifier.
    pub key_id: String,
    /// Who encrypted.
    pub counterparty: Party,
    /// What to decrypt.
    pub ciphertext: Vec<u8>,
}

/// The contents of a `DecryptRequest`.
#[verifier::ext_equal]
pub struct DecryptRequestModel {
    pub protocol: ProtocolIdModel,
    pub key_id: Seq<char>,
    pub counterparty: PartyModel,
    pub ciphertext: Seq<u8>,
}

impl View for DecryptRequest {
    type V = DecryptRequestModel;

    open spec fn view(&self) -> DecryptRequestModel {
        DecryptRequestModel {
            protocol: self.protocol@,
            key_id: self.key_id@,
            counterparty: self.counterparty@,
            ciphertext: self.ciphertext@,
        }
    }
}

/// Asks the wallet for a keyed hash.
#[derive(Clone, Debug)]
pub struct HmacRequest {
    /// What to hash.
    pub data: Vec<u8>,
    /// The protocol.
    pub protocol: ProtocolId,
    /// The key identifier.
    pub key_id: String,
    /// Who can check it.
    pub counterparty: Party,
}

/// The contents of a `HmacRequest`.
#[verifier::ext_equal]
pub struct HmacRequestModel {
    pub data: Seq<u8>,
    pub protocol: ProtocolIdModel,
    pub key_id: Seq<char>,
    pub counterparty: PartyModel,
}

impl View for HmacRequest {
    type V = HmacRequestModel;

    open spec fn view(&self) -> HmacRequestModel {
        HmacRequestModel {
            data: self.data@,
            protocol: self.protocol@,
            key_id: self.key_id@,
            counterparty: self.counterparty@,
        }
    }
}

/// Asks the wallet whether a keyed hash is right.
#[derive(Clone, Debug)]
pub struct HmacCheck {
    /// What was hashed.
    pub data: Vec<u8>,
    /// The hash.
    pub hmac: Vec<u8>,
    /// The protocol.
    pub protocol: ProtocolId,
    /// The key identifier.
    pub key_id: String,
    /// Who made it.
    pub counterparty: Party,
}

/// The contents of a `HmacCheck`.
#[verifier::ext_equal]
pub struct HmacCheckModel {
    pub data: Seq<u8>,
    pub hmac: Seq<u8>,
    pub protocol: ProtocolIdModel,
    pub key_id: Seq<char>,
    pub counterparty: PartyModel,
}

impl View for HmacCheck {
    type V = HmacCheckModel;

    open spec fn view(&self) -> HmacCheckModel {
        HmacCheckModel {
            data: self.data@,
            hmac: self.hmac@,
            protocol: self.protocol@,
            key_id: self.key_id@,
            counterparty: self.counterparty@,
        }
    }
}

/// Asks the wallet for a signature.
#[derive(Clone, Debug)]
pub struct SignatureRequest {
    /// What to sign.
    pub data: Vec<u8>,
    /// The protocol.
    pub protocol: ProtocolId,
    /// The key identifier.
    pub key_id: String,
    /// Who can check it.
    pub counterparty: Party,
}

/// The contents of a `SignatureRequest`.
#[verifier::ext_equal]
pub struct SignatureRequestModel {
    pub data: Seq<u8>,
    pub protocol: ProtocolIdModel,
    pub key_id: Seq<char>,
    pub counterparty: PartyModel,
}

impl View for SignatureRequest {
    type V = SignatureRequestModel;

    open spec fn view(&self) -> SignatureRequestModel {
        SignatureRequestModel {
            data: self.data@,
            protocol: self.protocol@,
            key_id: self.key_id@,
            counterparty: self.counterparty@,
        }
    }
}

/// An input of a transaction to make.
#[derive(Clone, Debug)]
pub struct ActionInput {
    /// The output that it spends.
    pub outpoint: String,
    /// What it is for.
    pub description: String,
    /// How long its unlocking script will be.
    pub unlocking_script_length: u32,
}

/// The contents of a `ActionInput`.
#[verifier::ext_equal]
pub struct ActionInputModel {
    pub outpoint: Seq<char>,
    pub description: Seq<char>,
    pub unlocking_script_length: u32,
}

impl View for ActionInput {
    type V = ActionInputModel;

    open spec fn view(&self) -> ActionInputModel {
        ActionInputModel {
            outpoint: self.outpoint@,
            description: self.description@,
            unlocking_script_length: self.unlocking_script_length,
        }
    }
}

/// An output of a transaction to make.
#[derive(Clone, Debug)]
pub struct ActionOutput {
    /// Its script.
    pub locking_script: Vec<u8>,
    /// Its amount.
    pub satoshis: u64,
    /// What it is for.
    pub description: String,
    /// The basket that it goes into.
    pub basket: Option<String>,
    /// Instructions kept with it.
    pub custom_instructions: Option<String>,
}

/// The contents of a `ActionOutput`.
#[verifier::ext_equal]
pub struct ActionOutputModel {
    pub locking_script: Seq<u8>,
    pub satoshis: u64,
    pub description: Seq<char>,
    pub basket: Option<Seq<char>>,
    pub custom_instructions: Option<Seq<char>>,
}

impl View for ActionOutput {
    type V = ActionOutputModel;

    open spec fn view(&self) -> ActionOutputModel {
        ActionOutputModel {
            locking_script: self.locking_script@,
            satoshis: self.satoshis,
            description: self.description@,
            basket: opt_view(self.basket),
            custom_instructions: opt_view(self.custom_instructions),
        }
    }
}

/// Asks the wallet to make a transaction.
#[derive(Clone, Debug)]
pub struct ActionRequest {
    /// What it is for.
    pub description: String,
    /// The transactions that its inputs spend from.
    pub input_beef: Option<Vec<u8>>,
    /// Its inputs, besides those that the wallet adds.
    pub inputs: Vec<ActionInput>,
    /// Its outputs, besides those that the wallet adds.
    pub outputs: Vec<ActionOutput>,
    /// Its labels.
    pub labels: Vec<String>,
    /// Whether the wallet may reorder the outputs.
    pub randomize_outputs: Option<bool>,
    /// Whether the wallet may broadcast later.
    pub accept_delayed_broadcast: Option<bool>,
}

/// The contents of a `ActionRequest`.
#[verifier::ext_equal]
pub struct ActionRequestModel {
    pub description: Seq<char>,
    pub input_beef: Option<Seq<u8>>,
    pub inputs: Seq<ActionInputModel>,
    pub outputs: Seq<ActionOutputModel>,
    pub labels: Seq<Seq<char>>,
    pub randomize_outputs: Option<bool>,
    pub accept_delayed_broadcast: Option<bool>,
}

impl View for ActionRequest {
    type V = ActionRequestModel;

    open spec fn view(&self) -> ActionRequestModel {
        ActionRequestModel {
            description: self.description@,
            input_beef: opt_view(self.input_beef),
            inputs: views(self.inputs@),
            outputs: views(self.outputs@),
            labels: views(self.labels@),
            randomize_outputs: self.randomize_outputs,
            accept_delayed_broadcast: self.accept_delayed_broadcast,
        }
    }
}

/// A transaction that waits for signatures.
#[derive(Clone, Debug)]
pub struct SignableTransaction {
    /// The transaction, as BEEF bytes.
    pub tx: Vec<u8>,
    /// What the wallet knows it by.
    pub reference: Vec<u8>,
}

/// The contents of a `SignableTransaction`.
#[verifier::ext_equal]
pub struct SignableTransactionModel {
    pub tx: Seq<u8>,
    pub reference: Seq<u8>,
}

impl View for SignableTransaction {
    type V = SignableTransactionModel;

    open spec fn view(&self) -> SignableTransactionModel {
        SignableTransactionModel {
            tx: self.tx@,
            reference: self.reference@,
        }
    }
}

/// What the wallet answers to an `ActionRequest`.
#[derive(Clone, Debug)]
pub struct ActionReply {
    /// The transaction, as BEEF bytes, when it is complete.
    pub tx: Option<Vec<u8>>,
    /// The transaction, when it waits for signatures.
    pub signable: Option<SignableTransaction>,
}

/// The contents of a `ActionReply`.
#[verifier::ext_equal]
pub struct ActionReplyModel {
    pub tx: Option<Seq<u8>>,
    pub signable: Option<SignableTransactionModel>,
}

impl View for ActionReply {
    type V = ActionReplyModel;

    open spec fn view(&self) -> ActionReplyModel {
        ActionReplyModel {
            tx: opt_view(self.tx),
            signable: opt_view(self.signable),
        }
    }
}

/// The unlocking script of one input.
#[derive(Clone, Debug)]
pub struct Spend {
    /// The input.
    pub input: u32,
    /// The script.
    pub unlocking_script: Vec<u8>,
}

/// The contents of a `Spend`.
#[verifier::ext_equal]
pub struct SpendModel {
    pub input: u32,
    pub unlocking_script: Seq<u8>,
}

impl View for Spend {
    type V = SpendModel;

    open spec fn view(&self) -> SpendModel {
        SpendModel {
            input: self.input,
            unlocking_script: self.unlocking_script@,
        }
    }
}

/// Asks the wallet to complete a transaction.
#[derive(Clone, Debug)]
pub struct SignRequest {
    /// What the wallet knows it by.
    pub reference: Vec<u8>,
    /// The unlocking scripts.
    pub spends: Vec<Spend>,
}

/// The contents of a `SignRequest`.
#[verifier::ext_equal]
pub struct SignRequestModel {
    pub reference: Seq<u8>,
    pub spends: Seq<SpendModel>,
}

impl View for SignRequest {
    type V = SignRequestModel;

    open spec fn view(&self) -> SignRequestModel {
        SignRequestModel {
            reference: self.reference@,
            spends: views(self.spends@),
        }
    }
}

/// An output to take into the wallet.
#[derive(Clone, Debug)]
pub struct WalletPayment {
    /// Its position in the transaction.
    pub output_index: u32,
    /// The first part of the key identifier.
    pub derivation_prefix: Vec<u8>,
    /// The second part of the key identifier.
    pub derivation_suffix: Vec<u8>,
    /// The public key of the payer.
    pub sender_identity_key: String,
}

/// The contents of a `WalletPayment`.
#[verifier::ext_equal]
pub struct WalletPaymentModel {
    pub output_index: u32,
    pub derivation_prefix: Seq<u8>,
    pub derivation_suffix: Seq<u8>,
    pub sender_identity_key: Seq<char>,
}

impl View for WalletPayment {
    type V = WalletPaymentModel;

    open spec fn view(&self) -> WalletPaymentModel {
        WalletPaymentModel {
            output_index: self.output_index,
            derivation_prefix: self.derivation_prefix@,
            derivation_suffix: self.derivation_suffix@,
            sender_identity_key: self.sender_identity_key@,
        }
    }
}

impl Duplicate for WalletPayment {
    fn duplicate(&self) -> (r: WalletPayment) {
        WalletPayment {
            output_index: self.output_index,
            derivation_prefix: duplicate_bytes(&self.derivation_prefix),
            derivation_suffix: duplicate_bytes(&self.derivation_suffix),
            sender_identity_key: self.sender_identity_key.clone(),
        }
    }
}

/// Asks the wallet to take in a transaction.
#[derive(Clone, Debug)]
pub struct InternalizeRequest {
    /// The transaction, as BEEF bytes.
    pub tx: Vec<u8>,
    /// What it is for.
    pub description: String,
    /// Its labels.
    pub labels: Vec<String>,
    /// Whether the wallet may ask its user.
    pub seek_permission: Option<bool>,
    /// The outputs to take in.
    pub outputs: Vec<WalletPayment>,
}

/// The contents of a `InternalizeRequest`.
#[verifier::ext_equal]
pub struct InternalizeRequestModel {
    pub tx: Seq<u8>,
    pub description: Seq<char>,
    pub labels: Seq<Seq<char>>,
    pub seek_permission: Option<bool>,
    pub outputs: Seq<WalletPaymentModel>,
}

impl View for InternalizeRequest {
    type V = InternalizeRequestModel;

    open spec fn view(&self) -> InternalizeRequestModel {
        InternalizeRequestModel {
            tx: self.tx@,
            description: self.description@,
            labels: views(self.labels@),
            seek_permission: self.seek_permission,
            outputs: views(self.outputs@),
        }
    }
}

/// The protocol of message bodies and message identifiers.
pub open spec fn messagebox_protocol() -> ProtocolIdModel {
    ProtocolIdModel { security_level: 1, name: "messagebox"@ }
}

/// The protocol of payments.
pub open spec fn payment_protocol() -> ProtocolIdModel {
    ProtocolIdModel { security_level: 2, name: "3241645161d8"@ }
}

/// The protocol of host advertisements.
pub open spec fn advertisement_protocol() -> ProtocolIdModel {
    ProtocolIdModel { security_level: 1, name: "messagebox advertisement"@ }
}

/// The protocol of the proofs of payment requests.
pub open spec fn request_proof_protocol() -> ProtocolIdModel {
    ProtocolIdModel { security_level: 2, name: "payment request auth"@ }
}

/// A protocol by its level and name.
pub fn protocol(security_level: u8, name: &str) -> (r: ProtocolId)
    ensures
        r@ == (ProtocolIdModel { security_level, name: name@ }),
{
    ProtocolId { security_level, name: name.to_owned() }
}

/// The holder of a public key.
pub fn other(key: String) -> (r: Party)
    ensures
        r@ == PartyModel::Other(Some(key@)),
{
    Party::Other(Some(key))
}

/// The request for the identity key.
pub open spec fn identity_key_request() -> KeyRequestModel {
    KeyRequestModel {
        identity_key: true,
        protocol: None,
        key_id: None,
        counterparty: None,
        for_self: None,
    }
}

/// The request for a key derived for a counterparty.
pub open spec fn derived_key_request(
    protocol: ProtocolIdModel,
    key_id: Seq<char>,
    key: Seq<char>,
) -> KeyRequestModel {
    KeyRequestModel {
        identity_key: false,
        protocol: Some(protocol),
        key_id: Some(key_id),
        counterparty: Some(PartyModel::Other(Some(key))),
        for_self: None,
    }
}

impl KeyRequest {
    /// Asks for the identity key.
    pub fn identity() -> (r: KeyRequest)
        ensures
            r@ == identity_key_request(),
    {
        KeyRequest {
            identity_key: true,
            protocol: None,
            key_id: None,
            counterparty: None,
            for_self: None,
        }
    }

    /// Asks for a key derived for a counterparty.
    pub fn derived(protocol: ProtocolId, key_id: String, key: String) -> (r: KeyRequest)
        ensures
            r@ == derived_key_request(protocol@, key_id@, key@),
    {
        KeyRequest {
            identity_key: false,
            protocol: Some(protocol),
            key_id: Some(key_id),
            counterparty: Some(other(key)),
            for_self: None,
        }
    }
}

/// The identity key is asked for by itself; a derived key is asked for under its protocol and its
/// identifier, for the one counterparty, and is not the own side of it.
pub proof fn keys_are_asked_for_by_what_they_are(
    protocol: ProtocolIdModel,
    key_id: Seq<char>,
    key: Seq<char>,
)
    ensures
        identity_key_request().identity_key,
        identity_key_request().protocol is None && identity_key_request().key_id is None,
        identity_key_request().counterparty is None && identity_key_request().for_self is None,
        !derived_key_request(protocol, key_id, key).identity_key,
        derived_key_request(protocol, key_id, key).protocol == Some(protocol),
        derived_key_request(protocol, key_id, key).key_id == Some(key_id),
        derived_key_request(protocol, key_id, key).counterparty == Some(
            PartyModel::Other(Some(key)),
        ),
        derived_key_request(protocol, key_id, key).for_self is None,
{
}

} // verus!
