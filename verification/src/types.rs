//! The records that the client reads, writes and hands out, and their JSON text.
//!
//! Each record has a model, which contracts speak of, and each record that goes over the wire says
//! which JSON object stands for its model. Member names are in camel case, and an absent optional
//! member is left out.

use crate::json::{
    array, array_text, byte_array, json_object, json_quoted, named_object, optional_member,
    optional_texts, quoted_values, ObjectWriter, ToJson,
};
use crate::text::{
    decimal_text, duplicate_all, duplicate_bytes, opt_view, signed_text, opt_views, views,
    Duplicate,
};
use vstd::prelude::*;

verus! {

broadcast use vstd::string::group_string_axioms;

/// What to send to several recipients in one call.
#[derive(Clone, Debug)]
pub struct SendListParams {
    /// The recipients, as identity keys.
    pub recipients: Vec<String>,
    /// The message box of each recipient.
    pub message_box: String,
    /// The message.
    pub body: String,
    /// Whether the body goes out as it is. Absent means no.
    pub skip_encryption: Option<bool>,
}

/// The contents of a `SendListParams`.
#[verifier::ext_equal]
pub struct SendListParamsModel {
    pub recipients: Seq<Seq<char>>,
    pub message_box: Seq<char>,
    pub body: Seq<char>,
    pub skip_encryption: Option<bool>,
}

impl View for SendListParams {
    type V = SendListParamsModel;

    open spec fn view(&self) -> SendListParamsModel {
        SendListParamsModel {
            recipients: views(self.recipients@),
            message_box: self.message_box@,
            body: self.body@,
            skip_encryption: self.skip_encryption,
        }
    }
}

impl SendListParamsModel {
    /// The members of the JSON object, in order.
    pub open spec fn members(self) -> Seq<(Seq<char>, Seq<char>)> {
        seq![
            ("recipients"@, array_text::<String>(self.recipients)),
            ("messageBox"@, json_quoted(self.message_box)),
            ("body"@, json_quoted(self.body)),
        ] + optional_member::<bool>("skipEncryption"@, self.skip_encryption)
    }

    /// The JSON object.
    pub open spec fn json_text(self) -> Seq<char> {
        json_object(self.members())
    }
}

impl ToJson for SendListParams {
    open spec fn text_of(v: SendListParamsModel) -> Seq<char> {
        v.json_text()
    }

    fn to_json(&self) -> (r: String) {
        let mut w = ObjectWriter::new();
        w.value("recipients", array(&self.recipients).as_str());
        w.string("messageBox", self.message_box.as_str());
        w.string("body", self.body.as_str());
        w.optional("skipEncryption", &self.skip_encryption);
        assert(w.members() =~= self@.members());
        w.finish()
    }
}

/// A recipient that a message went to.
#[derive(Clone, Debug)]
pub struct SentRecipient {
    /// The identity key of the recipient.
    pub recipient: String,
    /// The identifier of the message.
    pub message_id: String,
}

/// The contents of a `SentRecipient`.
#[verifier::ext_equal]
pub struct SentRecipientModel {
    pub recipient: Seq<char>,
    pub message_id: Seq<char>,
}

impl View for SentRecipient {
    type V = SentRecipientModel;

    open spec fn view(&self) -> SentRecipientModel {
        SentRecipientModel {
            recipient: self.recipient@,
            message_id: self.message_id@,
        }
    }
}

impl SentRecipientModel {
    /// The members of the JSON object, in order.
    pub open spec fn members(self) -> Seq<(Seq<char>, Seq<char>)> {
        seq![
            ("recipient"@, json_quoted(self.recipient)),
            ("messageId"@, json_quoted(self.message_id)),
        ]
    }

    /// The JSON object.
    pub open spec fn json_text(self) -> Seq<char> {
        json_object(self.members())
    }
}

impl ToJson for SentRecipient {
    open spec fn text_of(v: SentRecipientModel) -> Seq<char> {
        v.json_text()
    }

    fn to_json(&self) -> (r: String) {
        let mut w = ObjectWriter::new();
        w.string("recipient", self.recipient.as_str());
        w.string("messageId", self.message_id.as_str());
        assert(w.members() =~= self@.members());
        w.finish()
    }
}

/// A recipient that a message did not go to.
#[derive(Clone, Debug)]
pub struct FailedRecipient {
    /// The identity key of the recipient.
    pub recipient: String,
    /// What went wrong.
    pub error: String,
}

/// The contents of a `FailedRecipient`.
#[verifier::ext_equal]
pub struct FailedRecipientModel {
    pub recipient: Seq<char>,
    pub error: Seq<char>,
}

impl View for FailedRecipient {
    type V = FailedRecipientModel;

    open spec fn view(&self) -> FailedRecipientModel {
        FailedRecipientModel {
            recipient: self.recipient@,
            error: self.error@,
        }
    }
}

impl FailedRecipientModel {
    /// The members of the JSON object, in order.
    pub open spec fn members(self) -> Seq<(Seq<char>, Seq<char>)> {
        seq![
            ("recipient"@, json_quoted(self.recipient)),
            ("error"@, json_quoted(self.error)),
        ]
    }

    /// The JSON object.
    pub open spec fn json_text(self) -> Seq<char> {
        json_object(self.members())
    }
}

impl ToJson for FailedRecipient {
    open spec fn text_of(v: FailedRecipientModel) -> Seq<char> {
        v.json_text()
    }

    fn to_json(&self) -> (r: String) {
        let mut w = ObjectWriter::new();
        w.string("recipient", self.recipient.as_str());
        w.string("error", self.error.as_str());
        assert(w.members() =~= self@.members());
        w.finish()
    }
}

/// Fees summed over several recipients.
#[derive(Clone, Debug)]
pub struct SendListTotals {
    /// What the servers ask.
    pub delivery_fees: i64,
    /// What the recipients ask.
    pub recipient_fees: i64,
    /// The sum over the recipients that can be paid.
    pub total_for_payable_recipients: i64,
}

/// The contents of a `SendListTotals`.
#[verifier::ext_equal]
pub struct SendListTotalsModel {
    pub delivery_fees: i64,
    pub recipient_fees: i64,
    pub total_for_payable_recipients: i64,
}

impl View for SendListTotals {
    type V = SendListTotalsModel;

    open spec fn view(&self) -> SendListTotalsModel {
        SendListTotalsModel {
            delivery_fees: self.delivery_fees,
            recipient_fees: self.recipient_fees,
            total_for_payable_recipients: self.total_for_payable_recipients,
        }
    }
}

impl SendListTotalsModel {
    /// The members of the JSON object, in order.
    pub open spec fn members(self) -> Seq<(Seq<char>, Seq<char>)> {
        seq![
            ("deliveryFees"@, signed_text(self.delivery_fees as int)),
            ("recipientFees"@, signed_text(self.recipient_fees as int)),
            ("totalForPayableRecipients"@, signed_text(self.total_for_payable_recipients as int)),
        ]
    }

    /// The JSON object.
    pub open spec fn json_text(self) -> Seq<char> {
        json_object(self.members())
    }
}

impl ToJson for SendListTotals {
    open spec fn text_of(v: SendListTotalsModel) -> Seq<char> {
        v.json_text()
    }

    fn to_json(&self) -> (r: String) {
        let mut w = ObjectWriter::new();
        w.value("deliveryFees", self.delivery_fees.to_json().as_str());
        w.value("recipientFees", self.recipient_fees.to_json().as_str());
        w.value("totalForPayableRecipients", self.total_for_payable_recipients.to_json().as_str());
        assert(w.members() =~= self@.members());
        w.finish()
    }
}

/// How a send to several recipients went.
#[derive(Clone, Debug)]
pub struct SendListResult {
    /// `success` or `error`.
    pub status: String,
    /// The outcome in words.
    pub description: String,
    /// The recipients that the message went to.
    pub sent: Vec<SentRecipient>,
    /// The recipients that block the sender.
    pub blocked: Vec<String>,
    /// The recipients that the message did not go to.
    pub failed: Vec<FailedRecipient>,
    /// The fees, where they are known.
    pub totals: Option<SendListTotals>,
}

/// The contents of a `SendListResult`.
#[verifier::ext_equal]
pub struct SendListResultModel {
    pub status: Seq<char>,
    pub description: Seq<char>,
    pub sent: Seq<SentRecipientModel>,
    pub blocked: Seq<Seq<char>>,
    pub failed: Seq<FailedRecipientModel>,
    pub totals: Option<SendListTotalsModel>,
}

impl View for SendListResult {
    type V = SendListResultModel;

    open spec fn view(&self) -> SendListResultModel {
        SendListResultModel {
            status: self.status@,
            description: self.description@,
            sent: views(self.sent@),
            blocked: views(self.blocked@),
            failed: views(self.failed@),
            totals: opt_view(self.totals),
        }
    }
}

impl SendListResultModel {
    /// The members of the JSON object, in order.
    pub open spec fn members(self) -> Seq<(Seq<char>, Seq<char>)> {
        seq![
            ("status"@, json_quoted(self.status)),
            ("description"@, json_quoted(self.description)),
            ("sent"@, array_text::<SentRecipient>(self.sent)),
            ("blocked"@, array_text::<String>(self.blocked)),
            ("failed"@, array_text::<FailedRecipient>(self.failed)),
        ] + optional_member::<SendListTotals>("totals"@, self.totals)
    }

    /// The JSON object.
    pub open spec fn json_text(self) -> Seq<char> {
        json_object(self.members())
    }
}

impl ToJson for SendListResult {
    open spec fn text_of(v: SendListResultModel) -> Seq<char> {
        v.json_text()
    }

    fn to_json(&self) -> (r: String) {
        let mut w = ObjectWriter::new();
        w.string("status", self.status.as_str());
        w.string("description", self.description.as_str());
        w.value("sent", array(&self.sent).as_str());
        w.value("blocked", array(&self.blocked).as_str());
        w.value("failed", array(&self.failed).as_str());
        w.optional("totals", &self.totals);
        assert(w.members() =~= self@.members());
        w.finish()
    }
}

/// The fees of one recipient among several.
#[derive(Clone, Debug)]
pub struct RecipientQuote {
    /// The identity key of the recipient.
    pub recipient: String,
    /// The message box.
    pub message_box: String,
    /// What the server asks.
    pub delivery_fee: i64,
    /// What the recipient asks; negative when the sender is blocked.
    pub recipient_fee: i64,
    /// The status that belongs to the recipient fee.
    pub status: String,
}

/// The contents of a `RecipientQuote`.
#[verifier::ext_equal]
pub struct RecipientQuoteModel {
    pub recipient: Seq<char>,
    pub message_box: Seq<char>,
    pub delivery_fee: i64,
    pub recipient_fee: i64,
    pub status: Seq<char>,
}

impl View for RecipientQuote {
    type V = RecipientQuoteModel;

    open spec fn view(&self) -> RecipientQuoteModel {
        RecipientQuoteModel {
            recipient: self.recipient@,
            message_box: self.message_box@,
            delivery_fee: self.delivery_fee,
            recipient_fee: self.recipient_fee,
            status: self.status@,
        }
    }
}

impl RecipientQuoteModel {
    /// The members of the JSON object, in order.
    pub open spec fn members(self) -> Seq<(Seq<char>, Seq<char>)> {
        seq![
            ("recipient"@, json_quoted(self.recipient)),
            ("messageBox"@, json_quoted(self.message_box)),
            ("deliveryFee"@, signed_text(self.delivery_fee as int)),
            ("recipientFee"@, signed_text(self.recipient_fee as int)),
            ("status"@, json_quoted(self.status)),
        ]
    }

    /// The JSON object.
    pub open spec fn json_text(self) -> Seq<char> {
        json_object(self.members())
    }
}

impl ToJson for RecipientQuote {
    open spec fn text_of(v: RecipientQuoteModel) -> Seq<char> {
        v.json_text()
    }

    fn to_json(&self) -> (r: String) {
        let mut w = ObjectWriter::new();
        w.string("recipient", self.recipient.as_str());
        w.string("messageBox", self.message_box.as_str());
        w.value("deliveryFee", self.delivery_fee.to_json().as_str());
        w.value("recipientFee", self.recipient_fee.to_json().as_str());
        w.string("status", self.status.as_str());
        assert(w.members() =~= self@.members());
        w.finish()
    }
}

/// The fees of several recipients.
#[derive(Clone, Debug)]
pub struct MessageBoxMultiQuote {
    /// One quote a recipient, in the order asked.
    pub quotes_by_recipient: Vec<RecipientQuote>,
    /// The fees of the recipients that do not block the sender.
    pub totals: Option<SendListTotals>,
    /// The recipients that block the sender.
    pub blocked_recipients: Vec<String>,
    /// The identity key of the delivery agent of each host, each host once.
    pub delivery_agent_identity_key_by_host: Vec<(String, String)>,
}

/// The contents of a `MessageBoxMultiQuote`.
#[verifier::ext_equal]
pub struct MessageBoxMultiQuoteModel {
    pub quotes_by_recipient: Seq<RecipientQuoteModel>,
    pub totals: Option<SendListTotalsModel>,
    pub blocked_recipients: Seq<Seq<char>>,
    pub delivery_agent_identity_key_by_host: Seq<(Seq<char>, Seq<char>)>,
}

impl View for MessageBoxMultiQuote {
    type V = MessageBoxMultiQuoteModel;

    open spec fn view(&self) -> MessageBoxMultiQuoteModel {
        MessageBoxMultiQuoteModel {
            quotes_by_recipient: views(self.quotes_by_recipient@),
            totals: opt_view(self.totals),
            blocked_recipients: views(self.blocked_recipients@),
            delivery_agent_identity_key_by_host: views(self.delivery_agent_identity_key_by_host@),
        }
    }
}

impl MessageBoxMultiQuoteModel {
    /// The members of the JSON object, in order.
    pub open spec fn members(self) -> Seq<(Seq<char>, Seq<char>)> {
        seq![
            ("quotesByRecipient"@, array_text::<RecipientQuote>(self.quotes_by_recipient)),
        ] + optional_member::<SendListTotals>("totals"@, self.totals) + seq![
            ("blockedRecipients"@, array_text::<String>(self.blocked_recipients)),
            (
                "deliveryAgentIdentityKeyByHost"@,
                json_object(quoted_values(self.delivery_agent_identity_key_by_host)),
            ),
        ]
    }

    /// The JSON object.
    pub open spec fn json_text(self) -> Seq<char> {
        json_object(self.members())
    }
}

impl ToJson for MessageBoxMultiQuote {
    open spec fn text_of(v: MessageBoxMultiQuoteModel) -> Seq<char> {
        v.json_text()
    }

    fn to_json(&self) -> (r: String) {
        let mut w = ObjectWriter::new();
        w.value("quotesByRecipient", array(&self.quotes_by_recipient).as_str());
        w.optional("totals", &self.totals);
        w.value("blockedRecipients", array(&self.blocked_recipients).as_str());
        let agents = named_object(&self.delivery_agent_identity_key_by_host);
        w.value("deliveryAgentIdentityKeyByHost", agents.as_str());
        assert(w.members() =~= self@.members());
        w.finish()
    }
}

/// What the receiver of a payment output needs to redeem it.
#[derive(Clone, Debug)]
pub struct PaymentRemittanceInfo {
    /// The first part of the key identifier.
    pub derivation_prefix: String,
    /// The second part of the key identifier.
    pub derivation_suffix: String,
    /// The identity key of the payer.
    pub sender_identity_key: String,
}

/// The contents of a `PaymentRemittanceInfo`.
#[verifier::ext_equal]
pub struct PaymentRemittanceInfoModel {
    pub derivation_prefix: Seq<char>,
    pub derivation_suffix: Seq<char>,
    pub sender_identity_key: Seq<char>,
}

impl View for PaymentRemittanceInfo {
    type V = PaymentRemittanceInfoModel;

    open spec fn view(&self) -> PaymentRemittanceInfoModel {
        PaymentRemittanceInfoModel {
            derivation_prefix: self.derivation_prefix@,
            derivation_suffix: self.derivation_suffix@,
            sender_identity_key: self.sender_identity_key@,
        }
    }
}

impl PaymentRemittanceInfoModel {
    /// The members of the JSON object, in order.
    pub open spec fn members(self) -> Seq<(Seq<char>, Seq<char>)> {
        seq![
            ("derivationPrefix"@, json_quoted(self.derivation_prefix)),
            ("derivationSuffix"@, json_quoted(self.derivation_suffix)),
            ("senderIdentityKey"@, json_quoted(self.sender_identity_key)),
        ]
    }

    /// The JSON object.
    pub open spec fn json_text(self) -> Seq<char> {
        json_object(self.members())
    }
}

impl ToJson for PaymentRemittanceInfo {
    open spec fn text_of(v: PaymentRemittanceInfoModel) -> Seq<char> {
        v.json_text()
    }

    fn to_json(&self) -> (r: String) {
        let mut w = ObjectWriter::new();
        w.string("derivationPrefix", self.derivation_prefix.as_str());
        w.string("derivationSuffix", self.derivation_suffix.as_str());
        w.string("senderIdentityKey", self.sender_identity_key.as_str());
        assert(w.members() =~= self@.members());
        w.finish()
    }
}

/// How an output goes into a basket.
#[derive(Clone, Debug)]
pub struct InsertionRemittanceInfo {
    /// The basket.
    pub basket: String,
    /// Instructions kept with the output.
    pub custom_instructions: Option<String>,
    /// Tags of the output.
    pub tags: Option<Vec<String>>,
}

/// The contents of a `InsertionRemittanceInfo`.
#[verifier::ext_equal]
pub struct InsertionRemittanceInfoModel {
    pub basket: Seq<char>,
    pub custom_instructions: Option<Seq<char>>,
    pub tags: Option<Seq<Seq<char>>>,
}

impl View for InsertionRemittanceInfo {
    type V = InsertionRemittanceInfoModel;

    open spec fn view(&self) -> InsertionRemittanceInfoModel {
        InsertionRemittanceInfoModel {
            basket: self.basket@,
            custom_instructions: opt_view(self.custom_instructions),
            tags: opt_views(self.tags),
        }
    }
}

impl InsertionRemittanceInfoModel {
    /// The members of the JSON object, in order.
    pub open spec fn members(self) -> Seq<(Seq<char>, Seq<char>)> {
        seq![
            ("basket"@, json_quoted(self.basket)),
        ]
            + optional_member::<String>("customInstructions"@, self.custom_instructions)
            + optional_texts("tags"@, self.tags)
    }

    /// The JSON object.
    pub open spec fn json_text(self) -> Seq<char> {
        json_object(self.members())
    }
}

impl ToJson for InsertionRemittanceInfo {
    open spec fn text_of(v: InsertionRemittanceInfoModel) -> Seq<char> {
        v.json_text()
    }

    fn to_json(&self) -> (r: String) {
        let mut w = ObjectWriter::new();
        w.string("basket", self.basket.as_str());
        w.optional("customInstructions", &self.custom_instructions);
        w.optional_texts("tags", &self.tags);
        assert(w.members() =~= self@.members());
        w.finish()
    }
}

/// One output of a payment.
#[derive(Clone, Debug)]
pub struct PaymentOutput {
    /// Its position in the transaction.
    pub output_index: u32,
    /// How the output is taken in.
    pub protocol: String,
    /// For a wallet payment.
    pub payment_remittance: Option<PaymentRemittanceInfo>,
    /// For a basket insertion.
    pub insertion_remittance: Option<InsertionRemittanceInfo>,
}

/// The contents of a `PaymentOutput`.
#[verifier::ext_equal]
pub struct PaymentOutputModel {
    pub output_index: u32,
    pub protocol: Seq<char>,
    pub payment_remittance: Option<PaymentRemittanceInfoModel>,
    pub insertion_remittance: Option<InsertionRemittanceInfoModel>,
}

impl View for PaymentOutput {
    type V = PaymentOutputModel;

    open spec fn view(&self) -> PaymentOutputModel {
        PaymentOutputModel {
            output_index: self.output_index,
            protocol: self.protocol@,
            payment_remittance: opt_view(self.payment_remittance),
            insertion_remittance: opt_view(self.insertion_remittance),
        }
    }
}

impl PaymentOutputModel {
    /// The members of the JSON object, in order.
    pub open spec fn members(self) -> Seq<(Seq<char>, Seq<char>)> {
        seq![
            ("outputIndex"@, decimal_text(self.output_index as nat)),
            ("protocol"@, json_quoted(self.protocol)),
        ]
            + optional_member::<PaymentRemittanceInfo>("paymentRemittance"@, self.payment_remittance)
            + optional_member::<InsertionRemittanceInfo>("insertionRemittance"@, self.insertion_remittance)
    }

    /// The JSON object.
    pub open spec fn json_text(self) -> Seq<char> {
        json_object(self.members())
    }
}

impl ToJson for PaymentOutput {
    open spec fn text_of(v: PaymentOutputModel) -> Seq<char> {
        v.json_text()
    }

    fn to_json(&self) -> (r: String) {
        let mut w = ObjectWriter::new();
        w.value("outputIndex", self.output_index.to_json().as_str());
        w.string("protocol", self.protocol.as_str());
        w.optional("paymentRemittance", &self.payment_remittance);
        w.optional("insertionRemittance", &self.insertion_remittance);
        assert(w.members() =~= self@.members());
        w.finish()
    }
}

/// An on-chain payment that goes along with a message.
#[derive(Clone, Debug)]
pub struct Payment {
    /// The transaction.
    pub tx: Vec<u8>,
    /// Its outputs.
    pub outputs: Vec<PaymentOutput>,
    /// What it is for.
    pub description: String,
    /// Labels of the action.
    pub labels: Option<Vec<String>>,
    /// Whether the wallet may ask its user.
    pub seek_permission: Option<bool>,
}

/// The contents of a `Payment`.
#[verifier::ext_equal]
pub struct PaymentModel {
    pub tx: Seq<u8>,
    pub outputs: Seq<PaymentOutputModel>,
    pub description: Seq<char>,
    pub labels: Option<Seq<Seq<char>>>,
    pub seek_permission: Option<bool>,
}

impl View for Payment {
    type V = PaymentModel;

    open spec fn view(&self) -> PaymentModel {
        PaymentModel {
            tx: self.tx@,
            outputs: views(self.outputs@),
            description: self.description@,
            labels: opt_views(self.labels),
            seek_permission: self.seek_permission,
        }
    }
}

impl PaymentModel {
    /// The members of the JSON object, in order.
    pub open spec fn members(self) -> Seq<(Seq<char>, Seq<char>)> {
        seq![
            ("tx"@, array_text::<u8>(self.tx)),
            ("outputs"@, array_text::<PaymentOutput>(self.outputs)),
            ("description"@, json_quoted(self.description)),
        ]
            + optional_texts("labels"@, self.labels)
            + optional_member::<bool>("seekPermission"@, self.seek_permission)
    }

    /// The JSON object.
    pub open spec fn json_text(self) -> Seq<char> {
        json_object(self.members())
    }
}

impl ToJson for Payment {
    open spec fn text_of(v: PaymentModel) -> Seq<char> {
        v.json_text()
    }

    fn to_json(&self) -> (r: String) {
        let mut w = ObjectWriter::new();
        w.value("tx", byte_array(&self.tx).as_str());
        w.value("outputs", array(&self.outputs).as_str());
        w.string("description", self.description.as_str());
        w.optional_texts("labels", &self.labels);
        w.optional("seekPermission", &self.seek_permission);
        assert(w.members() =~= self@.members());
        w.finish()
    }
}

/// A host advertisement found on the overlay.
#[derive(Clone, Debug)]
pub struct AdvertisementToken {
    /// The advertised host.
    pub host: String,
    /// The transaction of the advertisement.
    pub txid: String,
    /// Its output in that transaction.
    pub output_index: u32,
    /// The locking script of the output, in hexadecimal.
    pub locking_script: String,
    /// The transaction as BEEF bytes.
    pub beef: Vec<u8>,
}

/// The contents of a `AdvertisementToken`.
#[verifier::ext_equal]
pub struct AdvertisementTokenModel {
    pub host: Seq<char>,
    pub txid: Seq<char>,
    pub output_index: u32,
    pub locking_script: Seq<char>,
    pub beef: Seq<u8>,
}

impl View for AdvertisementToken {
    type V = AdvertisementTokenModel;

    open spec fn view(&self) -> AdvertisementTokenModel {
        AdvertisementTokenModel {
            host: self.host@,
            txid: self.txid@,
            output_index: self.output_index,
            locking_script: self.locking_script@,
            beef: self.beef@,
        }
    }
}

/// The request that registers a device for push notifications.
#[derive(Clone, Debug)]
pub struct RegisterDeviceRequest {
    /// The push token.
    pub fcm_token: String,
    /// The device.
    pub device_id: Option<String>,
    /// Its platform.
    pub platform: Option<String>,
}

/// The contents of a `RegisterDeviceRequest`.
#[verifier::ext_equal]
pub struct RegisterDeviceRequestModel {
    pub fcm_token: Seq<char>,
    pub device_id: Option<Seq<char>>,
    pub platform: Option<Seq<char>>,
}

impl View for RegisterDeviceRequest {
    type V = RegisterDeviceRequestModel;

    open spec fn view(&self) -> RegisterDeviceRequestModel {
        RegisterDeviceRequestModel {
            fcm_token: self.fcm_token@,
            device_id: opt_view(self.device_id),
            platform: opt_view(self.platform),
        }
    }
}

impl RegisterDeviceRequestModel {
    /// The members of the JSON object, in order.
    pub open spec fn members(self) -> Seq<(Seq<char>, Seq<char>)> {
        seq![
            ("fcmToken"@, json_quoted(self.fcm_token)),
        ]
            + optional_member::<String>("deviceId"@, self.device_id)
            + optional_member::<String>("platform"@, self.platform)
    }

    /// The JSON object.
    pub open spec fn json_text(self) -> Seq<char> {
        json_object(self.members())
    }
}

impl ToJson for RegisterDeviceRequest {
    open spec fn text_of(v: RegisterDeviceRequestModel) -> Seq<char> {
        v.json_text()
    }

    fn to_json(&self) -> (r: String) {
        let mut w = ObjectWriter::new();
        w.string("fcmToken", self.fcm_token.as_str());
        w.optional("deviceId", &self.device_id);
        w.optional("platform", &self.platform);
        assert(w.members() =~= self@.members());
        w.finish()
    }
}

/// A device as the server lists it.
#[derive(Clone, Debug)]
pub struct RegisteredDevice {
    /// The number of the record.
    pub id: Option<i64>,
    /// The device.
    pub device_id: Option<String>,
    /// Its platform.
    pub platform: Option<String>,
    /// The push token.
    pub fcm_token: String,
    /// Whether it is in use.
    pub active: Option<bool>,
    /// When it was registered.
    pub created_at: Option<String>,
    /// When the record changed.
    pub updated_at: Option<String>,
    /// When it was last used.
    pub last_used: Option<String>,
}

/// The contents of a `RegisteredDevice`.
#[verifier::ext_equal]
pub struct RegisteredDeviceModel {
    pub id: Option<i64>,
    pub device_id: Option<Seq<char>>,
    pub platform: Option<Seq<char>>,
    pub fcm_token: Seq<char>,
    pub active: Option<bool>,
    pub created_at: Option<Seq<char>>,
    pub updated_at: Option<Seq<char>>,
    pub last_used: Option<Seq<char>>,
}

impl View for RegisteredDevice {
    type V = RegisteredDeviceModel;

    open spec fn view(&self) -> RegisteredDeviceModel {
        RegisteredDeviceModel {
            id: self.id,
            device_id: opt_view(self.device_id),
            platform: opt_view(self.platform),
            fcm_token: self.fcm_token@,
            active: self.active,
            created_at: opt_view(self.created_at),
            updated_at: opt_view(self.updated_at),
            last_used: opt_view(self.last_used),
        }
    }
}

/// The answer to a device registration.
#[derive(Clone, Debug)]
pub struct RegisterDeviceResponse {
    /// The status.
    pub status: String,
    /// A remark.
    pub message: Option<String>,
    /// The number of the device.
    pub device_id: Option<i64>,
}

/// The contents of a `RegisterDeviceResponse`.
#[verifier::ext_equal]
pub struct RegisterDeviceResponseModel {
    pub status: Seq<char>,
    pub message: Option<Seq<char>>,
    pub device_id: Option<i64>,
}

impl View for RegisterDeviceResponse {
    type V = RegisterDeviceResponseModel;

    open spec fn view(&self) -> RegisterDeviceResponseModel {
        RegisterDeviceResponseModel {
            status: self.status@,
            message: opt_view(self.message),
            device_id: self.device_id,
        }
    }
}

/// The answer to a device listing.
#[derive(Clone, Debug)]
pub struct ListDevicesResponse {
    /// The status.
    pub status: String,
    /// The devices.
    pub devices: Vec<RegisteredDevice>,
}

/// The contents of a `ListDevicesResponse`.
#[verifier::ext_equal]
pub struct ListDevicesResponseModel {
    pub status: Seq<char>,
    pub devices: Seq<RegisteredDeviceModel>,
}

impl View for ListDevicesResponse {
    type V = ListDevicesResponseModel;

    open spec fn view(&self) -> ListDevicesResponseModel {
        ListDevicesResponseModel {
            status: self.status@,
            devices: views(self.devices@),
        }
    }
}

/// A permission rule for a message box. Without a sender it holds for all senders. A negative fee
/// blocks, zero always allows, and a positive one is the fee in satoshis.
#[derive(Clone, Debug)]
pub struct SetPermissionParams {
    /// The message box.
    pub message_box: String,
    /// The sender that the rule is for.
    pub sender: Option<String>,
    /// The fee that the recipient asks.
    pub recipient_fee: i64,
}

/// The contents of a `SetPermissionParams`.
#[verifier::ext_equal]
pub struct SetPermissionParamsModel {
    pub message_box: Seq<char>,
    pub sender: Option<Seq<char>>,
    pub recipient_fee: i64,
}

impl View for SetPermissionParams {
    type V = SetPermissionParamsModel;

    open spec fn view(&self) -> SetPermissionParamsModel {
        SetPermissionParamsModel {
            message_box: self.message_box@,
            sender: opt_view(self.sender),
            recipient_fee: self.recipient_fee,
        }
    }
}

impl SetPermissionParamsModel {
    /// The members of the JSON object, in order.
    pub open spec fn members(self) -> Seq<(Seq<char>, Seq<char>)> {
        seq![
            ("messageBox"@, json_quoted(self.message_box)),
        ] + optional_member::<String>("sender"@, self.sender) + seq![
            ("recipientFee"@, signed_text(self.recipient_fee as int)),
        ]
    }

    /// The JSON object.
    pub open spec fn json_text(self) -> Seq<char> {
        json_object(self.members())
    }
}

impl ToJson for SetPermissionParams {
    open spec fn text_of(v: SetPermissionParamsModel) -> Seq<char> {
        v.json_text()
    }

    fn to_json(&self) -> (r: String) {
        let mut w = ObjectWriter::new();
        w.string("messageBox", self.message_box.as_str());
        w.optional("sender", &self.sender);
        w.value("recipientFee", self.recipient_fee.to_json().as_str());
        assert(w.members() =~= self@.members());
        w.finish()
    }
}

/// A permission rule as the server holds it.
#[derive(Clone, Debug)]
pub struct MessageBoxPermission {
    /// The sender that the rule is for.
    pub sender: Option<String>,
    /// The message box.
    pub message_box: String,
    /// The fee that the recipient asks.
    pub recipient_fee: i64,
    /// When the rule was made.
    pub created_at: String,
    /// When the rule changed.
    pub updated_at: String,
}

/// The contents of a `MessageBoxPermission`.
#[verifier::ext_equal]
pub struct MessageBoxPermissionModel {
    pub sender: Option<Seq<char>>,
    pub message_box: Seq<char>,
    pub recipient_fee: i64,
    pub created_at: Seq<char>,
    pub updated_at: Seq<char>,
}

impl View for MessageBoxPermission {
    type V = MessageBoxPermissionModel;

    open spec fn view(&self) -> MessageBoxPermissionModel {
        MessageBoxPermissionModel {
            sender: opt_view(self.sender),
            message_box: self.message_box@,
            recipient_fee: self.recipient_fee,
            created_at: self.created_at@,
            updated_at: self.updated_at@,
        }
    }
}

impl MessageBoxPermissionModel {
    /// The members of the JSON object, in order.
    pub open spec fn members(self) -> Seq<(Seq<char>, Seq<char>)> {
        optional_member::<String>("sender"@, self.sender) + seq![
            ("message_box"@, json_quoted(self.message_box)),
            ("recipient_fee"@, signed_text(self.recipient_fee as int)),
            ("created_at"@, json_quoted(self.created_at)),
            ("updated_at"@, json_quoted(self.updated_at)),
        ]
    }

    /// The JSON object.
    pub open spec fn json_text(self) -> Seq<char> {
        json_object(self.members())
    }
}

impl ToJson for MessageBoxPermission {
    open spec fn text_of(v: MessageBoxPermissionModel) -> Seq<char> {
        v.json_text()
    }

    fn to_json(&self) -> (r: String) {
        let mut w = ObjectWriter::new();
        w.optional("sender", &self.sender);
        w.string("message_box", self.message_box.as_str());
        w.value("recipient_fee", self.recipient_fee.to_json().as_str());
        w.string("created_at", self.created_at.as_str());
        w.string("updated_at", self.updated_at.as_str());
        assert(w.members() =~= self@.members());
        w.finish()
    }
}

/// What it costs to deliver a message.
#[derive(Clone, Debug)]
pub struct MessageBoxQuote {
    /// What the server asks.
    pub delivery_fee: i64,
    /// What the recipient asks.
    pub recipient_fee: i64,
    /// The identity key of the delivery agent, from the response header.
    pub delivery_agent_identity_key: String,
}

/// The contents of a `MessageBoxQuote`.
#[verifier::ext_equal]
pub struct MessageBoxQuoteModel {
    pub delivery_fee: i64,
    pub recipient_fee: i64,
    pub delivery_agent_identity_key: Seq<char>,
}

impl View for MessageBoxQuote {
    type V = MessageBoxQuoteModel;

    open spec fn view(&self) -> MessageBoxQuoteModel {
        MessageBoxQuoteModel {
            delivery_fee: self.delivery_fee,
            recipient_fee: self.recipient_fee,
            delivery_agent_identity_key: self.delivery_agent_identity_key@,
        }
    }
}

/// A message for an inbox.
#[derive(Clone, Debug)]
pub struct SendMessageParams {
    /// The recipient.
    pub recipient: String,
    /// The message box.
    pub message_box: String,
    /// The body, as it goes over the wire.
    pub body: String,
    /// The identifier of the message.
    pub message_id: String,
}

/// The contents of a `SendMessageParams`.
#[verifier::ext_equal]
pub struct SendMessageParamsModel {
    pub recipient: Seq<char>,
    pub message_box: Seq<char>,
    pub body: Seq<char>,
    pub message_id: Seq<char>,
}

impl View for SendMessageParams {
    type V = SendMessageParamsModel;

    open spec fn view(&self) -> SendMessageParamsModel {
        SendMessageParamsModel {
            recipient: self.recipient@,
            message_box: self.message_box@,
            body: self.body@,
            message_id: self.message_id@,
        }
    }
}

impl SendMessageParamsModel {
    /// The members of the JSON object, in order.
    pub open spec fn members(self) -> Seq<(Seq<char>, Seq<char>)> {
        seq![
            ("recipient"@, json_quoted(self.recipient)),
            ("messageBox"@, json_quoted(self.message_box)),
            ("body"@, json_quoted(self.body)),
            ("messageId"@, json_quoted(self.message_id)),
        ]
    }

    /// The JSON object.
    pub open spec fn json_text(self) -> Seq<char> {
        json_object(self.members())
    }
}

impl ToJson for SendMessageParams {
    open spec fn text_of(v: SendMessageParamsModel) -> Seq<char> {
        v.json_text()
    }

    fn to_json(&self) -> (r: String) {
        let mut w = ObjectWriter::new();
        w.string("recipient", self.recipient.as_str());
        w.string("messageBox", self.message_box.as_str());
        w.string("body", self.body.as_str());
        w.string("messageId", self.message_id.as_str());
        assert(w.members() =~= self@.members());
        w.finish()
    }
}

/// One output of a message payment.
#[derive(Clone, Debug)]
pub struct MessagePaymentOutput {
    /// Its position in the transaction.
    pub output_index: u32,
    /// The first part of the key identifier.
    pub derivation_prefix: Vec<u8>,
    /// The second part of the key identifier.
    pub derivation_suffix: Vec<u8>,
    /// The identity key of the payer of this output.
    pub sender_identity_key: String,
}

/// The contents of a `MessagePaymentOutput`.
#[verifier::ext_equal]
pub struct MessagePaymentOutputModel {
    pub output_index: u32,
    pub derivation_prefix: Seq<u8>,
    pub derivation_suffix: Seq<u8>,
    pub sender_identity_key: Seq<char>,
}

impl View for MessagePaymentOutput {
    type V = MessagePaymentOutputModel;

    open spec fn view(&self) -> MessagePaymentOutputModel {
        MessagePaymentOutputModel {
            output_index: self.output_index,
            derivation_prefix: self.derivation_prefix@,
            derivation_suffix: self.derivation_suffix@,
            sender_identity_key: self.sender_identity_key@,
        }
    }
}

impl Duplicate for MessagePaymentOutput {
    fn duplicate(&self) -> (r: Self) {
        MessagePaymentOutput {
            output_index: self.output_index,
            derivation_prefix: duplicate_bytes(&self.derivation_prefix),
            derivation_suffix: duplicate_bytes(&self.derivation_suffix),
            sender_identity_key: self.sender_identity_key.duplicate(),
        }
    }
}

impl MessagePaymentOutputModel {
    /// The members of the JSON object, in order.
    pub open spec fn members(self) -> Seq<(Seq<char>, Seq<char>)> {
        seq![
            ("outputIndex"@, decimal_text(self.output_index as nat)),
            ("derivationPrefix"@, array_text::<u8>(self.derivation_prefix)),
            ("derivationSuffix"@, array_text::<u8>(self.derivation_suffix)),
            ("senderIdentityKey"@, json_quoted(self.sender_identity_key)),
        ]
    }

    /// The JSON object.
    pub open spec fn json_text(self) -> Seq<char> {
        json_object(self.members())
    }
}

impl ToJson for MessagePaymentOutput {
    open spec fn text_of(v: MessagePaymentOutputModel) -> Seq<char> {
        v.json_text()
    }

    fn to_json(&self) -> (r: String) {
        let mut w = ObjectWriter::new();
        w.value("outputIndex", self.output_index.to_json().as_str());
        w.value("derivationPrefix", byte_array(&self.derivation_prefix).as_str());
        w.value("derivationSuffix", byte_array(&self.derivation_suffix).as_str());
        w.string("senderIdentityKey", self.sender_identity_key.as_str());
        assert(w.members() =~= self@.members());
        w.finish()
    }
}

/// The payment of a message.
#[derive(Clone, Debug)]
pub struct MessagePayment {
    /// The transaction.
    pub tx: Vec<u8>,
    /// Its outputs.
    pub outputs: Vec<MessagePaymentOutput>,
}

/// The contents of a `MessagePayment`.
#[verifier::ext_equal]
pub struct MessagePaymentModel {
    pub tx: Seq<u8>,
    pub outputs: Seq<MessagePaymentOutputModel>,
}

impl View for MessagePayment {
    type V = MessagePaymentModel;

    open spec fn view(&self) -> MessagePaymentModel {
        MessagePaymentModel {
            tx: self.tx@,
            outputs: views(self.outputs@),
        }
    }
}

impl Duplicate for MessagePayment {
    fn duplicate(&self) -> (r: Self) {
        MessagePayment {
            tx: duplicate_bytes(&self.tx),
            outputs: duplicate_all(&self.outputs),
        }
    }
}

impl MessagePaymentModel {
    /// The members of the JSON object, in order.
    pub open spec fn members(self) -> Seq<(Seq<char>, Seq<char>)> {
        seq![
            ("tx"@, array_text::<u8>(self.tx)),
            ("outputs"@, array_text::<MessagePaymentOutput>(self.outputs)),
        ]
    }

    /// The JSON object.
    pub open spec fn json_text(self) -> Seq<char> {
        json_object(self.members())
    }
}

impl ToJson for MessagePayment {
    open spec fn text_of(v: MessagePaymentModel) -> Seq<char> {
        v.json_text()
    }

    fn to_json(&self) -> (r: String) {
        let mut w = ObjectWriter::new();
        w.value("tx", byte_array(&self.tx).as_str());
        w.value("outputs", array(&self.outputs).as_str());
        assert(w.members() =~= self@.members());
        w.finish()
    }
}

/// The request that sends a message.
#[derive(Clone, Debug)]
pub struct SendMessageRequest {
    /// The message.
    pub message: SendMessageParams,
    /// Its payment, where one is due.
    pub payment: Option<MessagePayment>,
}

/// The contents of a `SendMessageRequest`.
#[verifier::ext_equal]
pub struct SendMessageRequestModel {
    pub message: SendMessageParamsModel,
    pub payment: Option<MessagePaymentModel>,
}

impl View for SendMessageRequest {
    type V = SendMessageRequestModel;

    open spec fn view(&self) -> SendMessageRequestModel {
        SendMessageRequestModel {
            message: self.message@,
            payment: opt_view(self.payment),
        }
    }
}

impl SendMessageRequestModel {
    /// The members of the JSON object, in order.
    pub open spec fn members(self) -> Seq<(Seq<char>, Seq<char>)> {
        seq![
            ("message"@, self.message.json_text()),
        ] + optional_member::<MessagePayment>("payment"@, self.payment)
    }

    /// The JSON object.
    pub open spec fn json_text(self) -> Seq<char> {
        json_object(self.members())
    }
}

impl ToJson for SendMessageRequest {
    open spec fn text_of(v: SendMessageRequestModel) -> Seq<char> {
        v.json_text()
    }

    fn to_json(&self) -> (r: String) {
        let mut w = ObjectWriter::new();
        w.value("message", self.message.to_json().as_str());
        w.optional("payment", &self.payment);
        assert(w.members() =~= self@.members());
        w.finish()
    }
}

/// The request that lists an inbox.
#[derive(Clone, Debug)]
pub struct ListMessagesParams {
    /// The message box.
    pub message_box: String,
}

/// The contents of a `ListMessagesParams`.
#[verifier::ext_equal]
pub struct ListMessagesParamsModel {
    pub message_box: Seq<char>,
}

impl View for ListMessagesParams {
    type V = ListMessagesParamsModel;

    open spec fn view(&self) -> ListMessagesParamsModel {
        ListMessagesParamsModel {
            message_box: self.message_box@,
        }
    }
}

impl ListMessagesParamsModel {
    /// The members of the JSON object, in order.
    pub open spec fn members(self) -> Seq<(Seq<char>, Seq<char>)> {
        seq![
            ("messageBox"@, json_quoted(self.message_box)),
        ]
    }

    /// The JSON object.
    pub open spec fn json_text(self) -> Seq<char> {
        json_object(self.members())
    }
}

impl ToJson for ListMessagesParams {
    open spec fn text_of(v: ListMessagesParamsModel) -> Seq<char> {
        v.json_text()
    }

    fn to_json(&self) -> (r: String) {
        let mut w = ObjectWriter::new();
        w.string("messageBox", self.message_box.as_str());
        assert(w.members() =~= self@.members());
        w.finish()
    }
}

/// The request that acknowledges messages.
#[derive(Clone, Debug)]
pub struct AcknowledgeMessageParams {
    /// The messages.
    pub message_ids: Vec<String>,
}

/// The contents of a `AcknowledgeMessageParams`.
#[verifier::ext_equal]
pub struct AcknowledgeMessageParamsModel {
    pub message_ids: Seq<Seq<char>>,
}

impl View for AcknowledgeMessageParams {
    type V = AcknowledgeMessageParamsModel;

    open spec fn view(&self) -> AcknowledgeMessageParamsModel {
        AcknowledgeMessageParamsModel {
            message_ids: views(self.message_ids@),
        }
    }
}

impl AcknowledgeMessageParamsModel {
    /// The members of the JSON object, in order.
    pub open spec fn members(self) -> Seq<(Seq<char>, Seq<char>)> {
        seq![
            ("messageIds"@, array_text::<String>(self.message_ids)),
        ]
    }

    /// The JSON object.
    pub open spec fn json_text(self) -> Seq<char> {
        json_object(self.members())
    }
}

impl ToJson for AcknowledgeMessageParams {
    open spec fn text_of(v: AcknowledgeMessageParamsModel) -> Seq<char> {
        v.json_text()
    }

    fn to_json(&self) -> (r: String) {
        let mut w = ObjectWriter::new();
        w.value("messageIds", array(&self.message_ids).as_str());
        assert(w.members() =~= self@.members());
        w.finish()
    }
}

/// A message as the server lists it.
#[derive(Clone, Debug)]
pub struct ServerPeerMessage {
    /// The identifier of the message.
    pub message_id: String,
    /// Its body.
    pub body: String,
    /// Its sender.
    pub sender: String,
    /// When it was stored.
    pub created_at: String,
    /// When it changed.
    pub updated_at: String,
    /// Whether it was acknowledged.
    pub acknowledged: Option<bool>,
}

/// The contents of a `ServerPeerMessage`.
#[verifier::ext_equal]
pub struct ServerPeerMessageModel {
    pub message_id: Seq<char>,
    pub body: Seq<char>,
    pub sender: Seq<char>,
    pub created_at: Seq<char>,
    pub updated_at: Seq<char>,
    pub acknowledged: Option<bool>,
}

impl View for ServerPeerMessage {
    type V = ServerPeerMessageModel;

    open spec fn view(&self) -> ServerPeerMessageModel {
        ServerPeerMessageModel {
            message_id: self.message_id@,
            body: self.body@,
            sender: self.sender@,
            created_at: self.created_at@,
            updated_at: self.updated_at@,
            acknowledged: self.acknowledged,
        }
    }
}

impl ServerPeerMessageModel {
    /// The members of the JSON object, in order.
    pub open spec fn members(self) -> Seq<(Seq<char>, Seq<char>)> {
        seq![
            ("messageId"@, json_quoted(self.message_id)),
            ("body"@, json_quoted(self.body)),
            ("sender"@, json_quoted(self.sender)),
            ("created_at"@, json_quoted(self.created_at)),
            ("updated_at"@, json_quoted(self.updated_at)),
        ] + optional_member::<bool>("acknowledged"@, self.acknowledged)
    }

    /// The JSON object.
    pub open spec fn json_text(self) -> Seq<char> {
        json_object(self.members())
    }
}

impl ToJson for ServerPeerMessage {
    open spec fn text_of(v: ServerPeerMessageModel) -> Seq<char> {
        v.json_text()
    }

    fn to_json(&self) -> (r: String) {
        let mut w = ObjectWriter::new();
        w.string("messageId", self.message_id.as_str());
        w.string("body", self.body.as_str());
        w.string("sender", self.sender.as_str());
        w.string("created_at", self.created_at.as_str());
        w.string("updated_at", self.updated_at.as_str());
        w.optional("acknowledged", &self.acknowledged);
        assert(w.members() =~= self@.members());
        w.finish()
    }
}

/// The answer to a listing.
#[derive(Clone, Debug)]
pub struct ListMessagesResponse {
    /// The status.
    pub status: String,
    /// The messages.
    pub messages: Vec<ServerPeerMessage>,
}

/// The contents of a `ListMessagesResponse`.
#[verifier::ext_equal]
pub struct ListMessagesResponseModel {
    pub status: Seq<char>,
    pub messages: Seq<ServerPeerMessageModel>,
}

impl View for ListMessagesResponse {
    type V = ListMessagesResponseModel;

    open spec fn view(&self) -> ListMessagesResponseModel {
        ListMessagesResponseModel {
            status: self.status@,
            messages: views(self.messages@),
        }
    }
}

impl ListMessagesResponseModel {
    /// The members of the JSON object, in order.
    pub open spec fn members(self) -> Seq<(Seq<char>, Seq<char>)> {
        seq![
            ("status"@, json_quoted(self.status)),
            ("messages"@, array_text::<ServerPeerMessage>(self.messages)),
        ]
    }

    /// The JSON object.
    pub open spec fn json_text(self) -> Seq<char> {
        json_object(self.members())
    }
}

impl ToJson for ListMessagesResponse {
    open spec fn text_of(v: ListMessagesResponseModel) -> Seq<char> {
        v.json_text()
    }

    fn to_json(&self) -> (r: String) {
        let mut w = ObjectWriter::new();
        w.string("status", self.status.as_str());
        w.value("messages", array(&self.messages).as_str());
        assert(w.members() =~= self@.members());
        w.finish()
    }
}

/// The answer to a sent message.
#[derive(Clone, Debug)]
pub struct SendMessageResponse {
    /// The status.
    pub status: String,
    /// The identifier that the server gave the message.
    pub message_id: Option<String>,
}

/// The contents of a `SendMessageResponse`.
#[verifier::ext_equal]
pub struct SendMessageResponseModel {
    pub status: Seq<char>,
    pub message_id: Option<Seq<char>>,
}

impl View for SendMessageResponse {
    type V = SendMessageResponseModel;

    open spec fn view(&self) -> SendMessageResponseModel {
        SendMessageResponseModel {
            status: self.status@,
            message_id: opt_view(self.message_id),
        }
    }
}

impl SendMessageResponseModel {
    /// The members of the JSON object, in order.
    pub open spec fn members(self) -> Seq<(Seq<char>, Seq<char>)> {
        seq![
            ("status"@, json_quoted(self.status)),
        ] + optional_member::<String>("messageId"@, self.message_id)
    }

    /// The JSON object.
    pub open spec fn json_text(self) -> Seq<char> {
        json_object(self.members())
    }
}

impl ToJson for SendMessageResponse {
    open spec fn text_of(v: SendMessageResponseModel) -> Seq<char> {
        v.json_text()
    }

    fn to_json(&self) -> (r: String) {
        let mut w = ObjectWriter::new();
        w.string("status", self.status.as_str());
        w.optional("messageId", &self.message_id);
        assert(w.members() =~= self@.members());
        w.finish()
    }
}

/// The message inside a live send.
#[derive(Clone, Debug)]
pub struct WsSendMessagePayload {
    /// The identifier of the message.
    pub message_id: String,
    /// The recipient.
    pub recipient: String,
    /// The body, as it goes over the wire.
    pub body: String,
}

/// The contents of a `WsSendMessagePayload`.
#[verifier::ext_equal]
pub struct WsSendMessagePayloadModel {
    pub message_id: Seq<char>,
    pub recipient: Seq<char>,
    pub body: Seq<char>,
}

impl View for WsSendMessagePayload {
    type V = WsSendMessagePayloadModel;

    open spec fn view(&self) -> WsSendMessagePayloadModel {
        WsSendMessagePayloadModel {
            message_id: self.message_id@,
            recipient: self.recipient@,
            body: self.body@,
        }
    }
}

impl WsSendMessagePayloadModel {
    /// The members of the JSON object, in order.
    pub open spec fn members(self) -> Seq<(Seq<char>, Seq<char>)> {
        seq![
            ("messageId"@, json_quoted(self.message_id)),
            ("recipient"@, json_quoted(self.recipient)),
            ("body"@, json_quoted(self.body)),
        ]
    }

    /// The JSON object.
    pub open spec fn json_text(self) -> Seq<char> {
        json_object(self.members())
    }
}

impl ToJson for WsSendMessagePayload {
    open spec fn text_of(v: WsSendMessagePayloadModel) -> Seq<char> {
        v.json_text()
    }

    fn to_json(&self) -> (r: String) {
        let mut w = ObjectWriter::new();
        w.string("messageId", self.message_id.as_str());
        w.string("recipient", self.recipient.as_str());
        w.string("body", self.body.as_str());
        assert(w.members() =~= self@.members());
        assert(Self::text_of(self@) == self@.json_text());
        w.finish()
    }
}

/// A live send.
#[derive(Clone, Debug)]
pub struct WsSendMessageData {
    /// The room of the recipient.
    pub room_id: String,
    /// The message.
    pub message: WsSendMessagePayload,
}

/// The contents of a `WsSendMessageData`.
#[verifier::ext_equal]
pub struct WsSendMessageDataModel {
    pub room_id: Seq<char>,
    pub message: WsSendMessagePayloadModel,
}

impl View for WsSendMessageData {
    type V = WsSendMessageDataModel;

    open spec fn view(&self) -> WsSendMessageDataModel {
        WsSendMessageDataModel {
            room_id: self.room_id@,
            message: self.message@,
        }
    }
}

impl WsSendMessageDataModel {
    /// The members of the JSON object, in order.
    pub open spec fn members(self) -> Seq<(Seq<char>, Seq<char>)> {
        seq![
            ("roomId"@, json_quoted(self.room_id)),
            ("message"@, self.message.json_text()),
        ]
    }

    /// The JSON object.
    pub open spec fn json_text(self) -> Seq<char> {
        json_object(self.members())
    }
}

impl ToJson for WsSendMessageData {
    open spec fn text_of(v: WsSendMessageDataModel) -> Seq<char> {
        v.json_text()
    }

    fn to_json(&self) -> (r: String) {
        let mut w = ObjectWriter::new();
        w.string("roomId", self.room_id.as_str());
        w.value("message", self.message.to_json().as_str());
        assert(w.members() =~= self@.members());
        w.finish()
    }
}

/// What the receiver of a payment needs to find its key.
#[derive(Clone, Debug)]
pub struct PaymentCustomInstructions {
    /// The first part of the key identifier.
    pub derivation_prefix: String,
    /// The second part of the key identifier.
    pub derivation_suffix: String,
    /// The payee.
    pub payee: Option<String>,
}

/// The contents of a `PaymentCustomInstructions`.
#[verifier::ext_equal]
pub struct PaymentCustomInstructionsModel {
    pub derivation_prefix: Seq<char>,
    pub derivation_suffix: Seq<char>,
    pub payee: Option<Seq<char>>,
}

impl View for PaymentCustomInstructions {
    type V = PaymentCustomInstructionsModel;

    open spec fn view(&self) -> PaymentCustomInstructionsModel {
        PaymentCustomInstructionsModel {
            derivation_prefix: self.derivation_prefix@,
            derivation_suffix: self.derivation_suffix@,
            payee: opt_view(self.payee),
        }
    }
}

impl PaymentCustomInstructionsModel {
    /// The members of the JSON object, in order.
    pub open spec fn members(self) -> Seq<(Seq<char>, Seq<char>)> {
        seq![
            ("derivationPrefix"@, json_quoted(self.derivation_prefix)),
            ("derivationSuffix"@, json_quoted(self.derivation_suffix)),
        ] + optional_member::<String>("payee"@, self.payee)
    }

    /// The JSON object.
    pub open spec fn json_text(self) -> Seq<char> {
        json_object(self.members())
    }
}

impl ToJson for PaymentCustomInstructions {
    open spec fn text_of(v: PaymentCustomInstructionsModel) -> Seq<char> {
        v.json_text()
    }

    fn to_json(&self) -> (r: String) {
        let mut w = ObjectWriter::new();
        w.string("derivationPrefix", self.derivation_prefix.as_str());
        w.string("derivationSuffix", self.derivation_suffix.as_str());
        w.optional("payee", &self.payee);
        assert(w.members() =~= self@.members());
        w.finish()
    }
}

/// A payment, as it goes into the inbox of its receiver.
#[derive(Clone, Debug)]
pub struct PaymentToken {
    /// How the receiver finds its key.
    pub custom_instructions: PaymentCustomInstructions,
    /// The transaction.
    pub transaction: Vec<u8>,
    /// The amount in satoshis.
    pub amount: u64,
    /// The paying output. Absent means the first.
    pub output_index: Option<u32>,
}

/// The contents of a `PaymentToken`.
#[verifier::ext_equal]
pub struct PaymentTokenModel {
    pub custom_instructions: PaymentCustomInstructionsModel,
    pub transaction: Seq<u8>,
    pub amount: u64,
    pub output_index: Option<u32>,
}

impl View for PaymentToken {
    type V = PaymentTokenModel;

    open spec fn view(&self) -> PaymentTokenModel {
        PaymentTokenModel {
            custom_instructions: self.custom_instructions@,
            transaction: self.transaction@,
            amount: self.amount,
            output_index: self.output_index,
        }
    }
}

impl PaymentTokenModel {
    /// The members of the JSON object, in order.
    pub open spec fn members(self) -> Seq<(Seq<char>, Seq<char>)> {
        seq![
            ("customInstructions"@, self.custom_instructions.json_text()),
            ("transaction"@, array_text::<u8>(self.transaction)),
            ("amount"@, decimal_text(self.amount as nat)),
        ] + optional_member::<u32>("outputIndex"@, self.output_index)
    }

    /// The JSON object.
    pub open spec fn json_text(self) -> Seq<char> {
        json_object(self.members())
    }
}

impl ToJson for PaymentToken {
    open spec fn text_of(v: PaymentTokenModel) -> Seq<char> {
        v.json_text()
    }

    fn to_json(&self) -> (r: String) {
        let mut w = ObjectWriter::new();
        w.value("customInstructions", self.custom_instructions.to_json().as_str());
        w.value("transaction", byte_array(&self.transaction).as_str());
        w.value("amount", self.amount.to_json().as_str());
        w.optional("outputIndex", &self.output_index);
        assert(w.members() =~= self@.members());
        w.finish()
    }
}

/// A payment found in the inbox.
#[derive(Clone, Debug)]
pub struct IncomingPayment {
    /// The payment.
    pub token: PaymentToken,
    /// Its sender.
    pub sender: String,
    /// The message that carried it.
    pub message_id: String,
}

/// The contents of a `IncomingPayment`.
#[verifier::ext_equal]
pub struct IncomingPaymentModel {
    pub token: PaymentTokenModel,
    pub sender: Seq<char>,
    pub message_id: Seq<char>,
}

impl View for IncomingPayment {
    type V = IncomingPaymentModel;

    open spec fn view(&self) -> IncomingPaymentModel {
        IncomingPaymentModel {
            token: self.token@,
            sender: self.sender@,
            message_id: self.message_id@,
        }
    }
}

/// A message between two peers.
#[derive(Clone, Debug)]
pub struct PeerMessage {
    /// The identifier of the message.
    pub message_id: String,
    /// Its sender.
    pub sender: String,
    /// Its recipient.
    pub recipient: String,
    /// The message box.
    pub message_box: String,
    /// Its body, in the clear where it could be decrypted.
    pub body: String,
}

/// The contents of a `PeerMessage`.
#[verifier::ext_equal]
pub struct PeerMessageModel {
    pub message_id: Seq<char>,
    pub sender: Seq<char>,
    pub recipient: Seq<char>,
    pub message_box: Seq<char>,
    pub body: Seq<char>,
}

impl View for PeerMessage {
    type V = PeerMessageModel;

    open spec fn view(&self) -> PeerMessageModel {
        PeerMessageModel {
            message_id: self.message_id@,
            sender: self.sender@,
            recipient: self.recipient@,
            message_box: self.message_box@,
            body: self.body@,
        }
    }
}

/// A message between two peers, with what is known of its origin.
#[derive(Clone, Debug)]
pub struct AuthenticatedPeerMessage {
    /// The identifier of the message.
    pub message_id: String,
    /// Its sender.
    pub sender: String,
    /// Its recipient.
    pub recipient: String,
    /// The message box.
    pub message_box: String,
    /// Its body, in the clear where it could be decrypted.
    pub body: String,
    /// Whether the body was decrypted under the key of the sender.
    pub authenticated_decrypt: bool,
}

/// The contents of a `AuthenticatedPeerMessage`.
#[verifier::ext_equal]
pub struct AuthenticatedPeerMessageModel {
    pub message_id: Seq<char>,
    pub sender: Seq<char>,
    pub recipient: Seq<char>,
    pub message_box: Seq<char>,
    pub body: Seq<char>,
    pub authenticated_decrypt: bool,
}

impl View for AuthenticatedPeerMessage {
    type V = AuthenticatedPeerMessageModel;

    open spec fn view(&self) -> AuthenticatedPeerMessageModel {
        AuthenticatedPeerMessageModel {
            message_id: self.message_id@,
            sender: self.sender@,
            recipient: self.recipient@,
            message_box: self.message_box@,
            body: self.body@,
            authenticated_decrypt: self.authenticated_decrypt,
        }
    }
}

/// A request for a payment, or the cancellation of one.
#[derive(Clone, Debug)]
pub struct PaymentRequestMessage {
    /// The identifier of the request.
    pub request_id: String,
    /// Who asks.
    pub sender_identity_key: String,
    /// The proof that ties the request to its sender, in hexadecimal.
    pub request_proof: String,
    /// The amount in satoshis.
    pub amount: Option<u64>,
    /// What it is for.
    pub description: Option<String>,
    /// When it expires, in milliseconds.
    pub expires_at: Option<u64>,
    /// Whether this cancels the request.
    pub cancelled: Option<bool>,
}

/// The contents of a `PaymentRequestMessage`.
#[verifier::ext_equal]
pub struct PaymentRequestMessageModel {
    pub request_id: Seq<char>,
    pub sender_identity_key: Seq<char>,
    pub request_proof: Seq<char>,
    pub amount: Option<u64>,
    pub description: Option<Seq<char>>,
    pub expires_at: Option<u64>,
    pub cancelled: Option<bool>,
}

impl View for PaymentRequestMessage {
    type V = PaymentRequestMessageModel;

    open spec fn view(&self) -> PaymentRequestMessageModel {
        PaymentRequestMessageModel {
            request_id: self.request_id@,
            sender_identity_key: self.sender_identity_key@,
            request_proof: self.request_proof@,
            amount: self.amount,
            description: opt_view(self.description),
            expires_at: self.expires_at,
            cancelled: self.cancelled,
        }
    }
}

impl PaymentRequestMessageModel {
    /// The members of the JSON object, in order.
    pub open spec fn members(self) -> Seq<(Seq<char>, Seq<char>)> {
        seq![
            ("requestId"@, json_quoted(self.request_id)),
            ("senderIdentityKey"@, json_quoted(self.sender_identity_key)),
            ("requestProof"@, json_quoted(self.request_proof)),
        ]
            + optional_member::<u64>("amount"@, self.amount)
            + optional_member::<String>("description"@, self.description)
            + optional_member::<u64>("expiresAt"@, self.expires_at)
            + optional_member::<bool>("cancelled"@, self.cancelled)
    }

    /// The JSON object.
    pub open spec fn json_text(self) -> Seq<char> {
        json_object(self.members())
    }
}

impl ToJson for PaymentRequestMessage {
    open spec fn text_of(v: PaymentRequestMessageModel) -> Seq<char> {
        v.json_text()
    }

    fn to_json(&self) -> (r: String) {
        let mut w = ObjectWriter::new();
        w.string("requestId", self.request_id.as_str());
        w.string("senderIdentityKey", self.sender_identity_key.as_str());
        w.string("requestProof", self.request_proof.as_str());
        w.optional("amount", &self.amount);
        w.optional("description", &self.description);
        w.optional("expiresAt", &self.expires_at);
        w.optional("cancelled", &self.cancelled);
        assert(w.members() =~= self@.members());
        w.finish()
    }
}

/// A request for a payment found in the inbox.
#[derive(Clone, Debug)]
pub struct IncomingPaymentRequest {
    /// The message that carried it.
    pub message_id: String,
    /// Its sender.
    pub sender: String,
    /// The identifier of the request.
    pub request_id: String,
    /// The amount in satoshis.
    pub amount: u64,
    /// What it is for.
    pub description: String,
    /// When it expires, in milliseconds.
    pub expires_at: u64,
}

/// The contents of a `IncomingPaymentRequest`.
#[verifier::ext_equal]
pub struct IncomingPaymentRequestModel {
    pub message_id: Seq<char>,
    pub sender: Seq<char>,
    pub request_id: Seq<char>,
    pub amount: u64,
    pub description: Seq<char>,
    pub expires_at: u64,
}

impl View for IncomingPaymentRequest {
    type V = IncomingPaymentRequestModel;

    open spec fn view(&self) -> IncomingPaymentRequestModel {
        IncomingPaymentRequestModel {
            message_id: self.message_id@,
            sender: self.sender@,
            request_id: self.request_id@,
            amount: self.amount,
            description: self.description@,
            expires_at: self.expires_at,
        }
    }
}

/// The answer to a request for a payment.
#[derive(Clone, Debug)]
pub struct PaymentRequestResponse {
    /// The identifier of the request.
    pub request_id: String,
    /// `paid` or `declined`.
    pub status: String,
    /// A note of the payer.
    pub note: Option<String>,
    /// The amount paid.
    pub amount_paid: Option<u64>,
}

/// The contents of a `PaymentRequestResponse`.
#[verifier::ext_equal]
pub struct PaymentRequestResponseModel {
    pub request_id: Seq<char>,
    pub status: Seq<char>,
    pub note: Option<Seq<char>>,
    pub amount_paid: Option<u64>,
}

impl View for PaymentRequestResponse {
    type V = PaymentRequestResponseModel;

    open spec fn view(&self) -> PaymentRequestResponseModel {
        PaymentRequestResponseModel {
            request_id: self.request_id@,
            status: self.status@,
            note: opt_view(self.note),
            amount_paid: self.amount_paid,
        }
    }
}

impl PaymentRequestResponseModel {
    /// The members of the JSON object, in order.
    pub open spec fn members(self) -> Seq<(Seq<char>, Seq<char>)> {
        seq![
            ("requestId"@, json_quoted(self.request_id)),
            ("status"@, json_quoted(self.status)),
        ]
            + optional_member::<String>("note"@, self.note)
            + optional_member::<u64>("amountPaid"@, self.amount_paid)
    }

    /// The JSON object.
    pub open spec fn json_text(self) -> Seq<char> {
        json_object(self.members())
    }
}

impl ToJson for PaymentRequestResponse {
    open spec fn text_of(v: PaymentRequestResponseModel) -> Seq<char> {
        v.json_text()
    }

    fn to_json(&self) -> (r: String) {
        let mut w = ObjectWriter::new();
        w.string("requestId", self.request_id.as_str());
        w.string("status", self.status.as_str());
        w.optional("note", &self.note);
        w.optional("amountPaid", &self.amount_paid);
        assert(w.members() =~= self@.members());
        w.finish()
    }
}

/// What the sender of a request keeps to cancel it.
#[derive(Clone, Debug)]
pub struct PaymentRequestResult {
    /// The identifier of the request.
    pub request_id: String,
    /// The proof that went with it.
    pub request_proof: String,
}

/// The contents of a `PaymentRequestResult`.
#[verifier::ext_equal]
pub struct PaymentRequestResultModel {
    pub request_id: Seq<char>,
    pub request_proof: Seq<char>,
}

impl View for PaymentRequestResult {
    type V = PaymentRequestResultModel;

    open spec fn view(&self) -> PaymentRequestResultModel {
        PaymentRequestResultModel {
            request_id: self.request_id@,
            request_proof: self.request_proof@,
        }
    }
}

impl MessageBoxPermission {
    /// The status that belongs to the fee: a negative one blocks, zero always allows, and a
    /// positive one has to be paid.
    pub fn status(&self) -> (r: &str)
        ensures
            r@ == fee_status(self.recipient_fee as int),
    {
        status_of_fee(self.recipient_fee)
    }
}

/// The status that belongs to a recipient fee.
pub open spec fn fee_status(fee: int) -> Seq<char> {
    if fee < 0 {
        "blocked"@
    } else if fee == 0 {
        "always_allow"@
    } else {
        "payment_required"@
    }
}

/// The status that belongs to a recipient fee.
pub fn status_of_fee(fee: i64) -> (r: &'static str)
    ensures
        r@ == fee_status(fee as int),
{
    if fee < 0 {
        "blocked"
    } else if fee == 0 {
        "always_allow"
    } else {
        "payment_required"
    }
}

/// The inbox of requests for payments.
pub const PAYMENT_REQUESTS_MESSAGEBOX: &'static str = "payment_requests";

/// The inbox of answers to requests for payments.
pub const PAYMENT_REQUEST_RESPONSES_MESSAGEBOX: &'static str = "payment_request_responses";

/// The amounts, in satoshis, that a payment request may ask for.
#[derive(Clone, Copy, Debug)]
pub struct PaymentRequestLimits {
    /// The least amount.
    pub min_amount: u64,
    /// The greatest amount.
    pub max_amount: u64,
}

impl Default for PaymentRequestLimits {
    fn default() -> (r: PaymentRequestLimits)
        ensures
            r.min_amount == 1000,
            r.max_amount == 10_000_000,
    {
        PaymentRequestLimits { min_amount: 1000, max_amount: 10_000_000 }
    }
}

} // verus!
