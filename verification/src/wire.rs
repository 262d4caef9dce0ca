//! What the objects on the wire say: each part of a value stands under its own name, and nothing
//! else is said.

use crate::json::{array_text, bool_text, json_object, json_quoted, quoted_values};
use crate::text::{decimal_text, signed_text};
use crate::types::{
    AcknowledgeMessageParamsModel, FailedRecipient, FailedRecipientModel,
    InsertionRemittanceInfoModel, ListMessagesParamsModel, ListMessagesResponseModel,
    MessageBoxMultiQuoteModel, MessageBoxPermissionModel, MessagePaymentModel, MessagePaymentOutput,
    MessagePaymentOutputModel, PaymentCustomInstructionsModel, PaymentModel, PaymentOutput,
    PaymentOutputModel, PaymentRemittanceInfoModel, PaymentRequestMessageModel,
    PaymentRequestResponseModel, PaymentTokenModel, RecipientQuote, RecipientQuoteModel,
    RegisterDeviceRequestModel, SendListParamsModel, SendListResultModel, SendListTotalsModel,
    SendMessageParamsModel, SendMessageRequestModel, SendMessageResponseModel, SentRecipient,
    SentRecipientModel, ServerPeerMessage, ServerPeerMessageModel, SetPermissionParamsModel,
    WsSendMessageDataModel, WsSendMessagePayloadModel,
};
use vstd::prelude::*;
use vstd::string::*;

verus! {

/// Whether an object with these members says a text under a name.
pub open spec fn says(
    members: Seq<(Seq<char>, Seq<char>)>,
    name: Seq<char>,
    text: Seq<char>,
) -> bool {
    members.contains((name, text))
}

/// How many parts there are of one that may be left out.
pub open spec fn parts<T>(part: Option<T>) -> int {
    if part is Some {
        1
    } else {
        0
    }
}

/// The object of a list to send says every part under its own name, and nothing else.
pub proof fn send_list_params_says_every_part(v: SendListParamsModel)
    ensures
        v.json_text() == json_object(v.members()),
        v.members().len() == 3 + parts(v.skip_encryption),
        says(v.members(), "recipients"@, array_text::<String>(v.recipients)),
        says(v.members(), "messageBox"@, json_quoted(v.message_box)),
        says(v.members(), "body"@, json_quoted(v.body)),
        v.skip_encryption is Some ==> says(
            v.members(),
            "skipEncryption"@,
            bool_text(v.skip_encryption->0),
        ),
{
    let ms = v.members();
    assert(ms[0] == ("recipients"@, array_text::<String>(v.recipients)));
    assert(ms[1] == ("messageBox"@, json_quoted(v.message_box)));
    assert(ms[2] == ("body"@, json_quoted(v.body)));
    assert(v.skip_encryption is Some ==> ms[3] == (
        "skipEncryption"@,
        bool_text(v.skip_encryption->0),
    ));
}

/// The object of a recipient that was reached says every part under its own name, and nothing else.
pub proof fn sent_recipient_says_every_part(v: SentRecipientModel)
    ensures
        v.json_text() == json_object(v.members()),
        v.members().len() == 2,
        says(v.members(), "recipient"@, json_quoted(v.recipient)),
        says(v.members(), "messageId"@, json_quoted(v.message_id)),
{
    let ms = v.members();
    assert(ms[0] == ("recipient"@, json_quoted(v.recipient)));
    assert(ms[1] == ("messageId"@, json_quoted(v.message_id)));
}

/// The object of a recipient that was not reached says every part under its own name, and nothing
/// else.
pub proof fn failed_recipient_says_every_part(v: FailedRecipientModel)
    ensures
        v.json_text() == json_object(v.members()),
        v.members().len() == 2,
        says(v.members(), "recipient"@, json_quoted(v.recipient)),
        says(v.members(), "error"@, json_quoted(v.error)),
{
    let ms = v.members();
    assert(ms[0] == ("recipient"@, json_quoted(v.recipient)));
    assert(ms[1] == ("error"@, json_quoted(v.error)));
}

/// The object of the totals of a list says every part under its own name, and nothing else.
pub proof fn send_list_totals_says_every_part(v: SendListTotalsModel)
    ensures
        v.json_text() == json_object(v.members()),
        v.members().len() == 3,
        says(v.members(), "deliveryFees"@, signed_text(v.delivery_fees as int)),
        says(v.members(), "recipientFees"@, signed_text(v.recipient_fees as int)),
        says(
            v.members(),
            "totalForPayableRecipients"@,
            signed_text(v.total_for_payable_recipients as int),
        ),
{
    let ms = v.members();
    assert(ms[0] == ("deliveryFees"@, signed_text(v.delivery_fees as int)));
    assert(ms[1] == ("recipientFees"@, signed_text(v.recipient_fees as int)));
    assert(ms[2] == (
        "totalForPayableRecipients"@,
        signed_text(v.total_for_payable_recipients as int),
    ));
}

/// The object of the outcome of a list says every part under its own name, and nothing else.
pub proof fn send_list_result_says_every_part(v: SendListResultModel)
    ensures
        v.json_text() == json_object(v.members()),
        v.members().len() == 5 + parts(v.totals),
        says(v.members(), "status"@, json_quoted(v.status)),
        says(v.members(), "description"@, json_quoted(v.description)),
        says(v.members(), "sent"@, array_text::<SentRecipient>(v.sent)),
        says(v.members(), "blocked"@, array_text::<String>(v.blocked)),
        says(v.members(), "failed"@, array_text::<FailedRecipient>(v.failed)),
        v.totals is Some ==> says(v.members(), "totals"@, v.totals->0.json_text()),
{
    let ms = v.members();
    assert(ms[0] == ("status"@, json_quoted(v.status)));
    assert(ms[1] == ("description"@, json_quoted(v.description)));
    assert(ms[2] == ("sent"@, array_text::<SentRecipient>(v.sent)));
    assert(ms[3] == ("blocked"@, array_text::<String>(v.blocked)));
    assert(ms[4] == ("failed"@, array_text::<FailedRecipient>(v.failed)));
    assert(v.totals is Some ==> ms[5] == ("totals"@, v.totals->0.json_text()));
}

/// The object of the quote of a recipient says every part under its own name, and nothing else.
pub proof fn recipient_quote_says_every_part(v: RecipientQuoteModel)
    ensures
        v.json_text() == json_object(v.members()),
        v.members().len() == 5,
        says(v.members(), "recipient"@, json_quoted(v.recipient)),
        says(v.members(), "messageBox"@, json_quoted(v.message_box)),
        says(v.members(), "deliveryFee"@, signed_text(v.delivery_fee as int)),
        says(v.members(), "recipientFee"@, signed_text(v.recipient_fee as int)),
        says(v.members(), "status"@, json_quoted(v.status)),
{
    let ms = v.members();
    assert(ms[0] == ("recipient"@, json_quoted(v.recipient)));
    assert(ms[1] == ("messageBox"@, json_quoted(v.message_box)));
    assert(ms[2] == ("deliveryFee"@, signed_text(v.delivery_fee as int)));
    assert(ms[3] == ("recipientFee"@, signed_text(v.recipient_fee as int)));
    assert(ms[4] == ("status"@, json_quoted(v.status)));
}

/// The object of the quotes of several recipients says every part under its own name, and nothing
/// else.
pub proof fn message_box_multi_quote_says_every_part(v: MessageBoxMultiQuoteModel)
    ensures
        v.json_text() == json_object(v.members()),
        v.members().len() == 3 + parts(v.totals),
        says(
            v.members(),
            "quotesByRecipient"@,
            array_text::<RecipientQuote>(v.quotes_by_recipient),
        ),
        v.totals is Some ==> says(v.members(), "totals"@, v.totals->0.json_text()),
        says(v.members(), "blockedRecipients"@, array_text::<String>(v.blocked_recipients)),
        says(
            v.members(),
            "deliveryAgentIdentityKeyByHost"@,
            json_object(quoted_values(v.delivery_agent_identity_key_by_host)),
        ),
{
    let ms = v.members();
    assert(ms[0] == ("quotesByRecipient"@, array_text::<RecipientQuote>(v.quotes_by_recipient)));
    assert(v.totals is Some ==> ms[1] == ("totals"@, v.totals->0.json_text()));
    assert(ms[1 + parts(v.totals)] == (
        "blockedRecipients"@,
        array_text::<String>(v.blocked_recipients),
    ));
    assert(ms[2 + parts(v.totals)] == (
        "deliveryAgentIdentityKeyByHost"@,
        json_object(quoted_values(v.delivery_agent_identity_key_by_host)),
    ));
}

/// The object of what a payment to the wallet is remitted with says every part under its own name,
/// and nothing else.
pub proof fn payment_remittance_info_says_every_part(v: PaymentRemittanceInfoModel)
    ensures
        v.json_text() == json_object(v.members()),
        v.members().len() == 3,
        says(v.members(), "derivationPrefix"@, json_quoted(v.derivation_prefix)),
        says(v.members(), "derivationSuffix"@, json_quoted(v.derivation_suffix)),
        says(v.members(), "senderIdentityKey"@, json_quoted(v.sender_identity_key)),
{
    let ms = v.members();
    assert(ms[0] == ("derivationPrefix"@, json_quoted(v.derivation_prefix)));
    assert(ms[1] == ("derivationSuffix"@, json_quoted(v.derivation_suffix)));
    assert(ms[2] == ("senderIdentityKey"@, json_quoted(v.sender_identity_key)));
}

/// The object of what an insertion into a basket is remitted with says every part under its own
/// name, and nothing else.
pub proof fn insertion_remittance_info_says_every_part(v: InsertionRemittanceInfoModel)
    ensures
        v.json_text() == json_object(v.members()),
        v.members().len() == 1 + parts(v.custom_instructions) + parts(v.tags),
        says(v.members(), "basket"@, json_quoted(v.basket)),
        v.custom_instructions is Some ==> says(
            v.members(),
            "customInstructions"@,
            json_quoted(v.custom_instructions->0),
        ),
        v.tags is Some ==> says(v.members(), "tags"@, array_text::<String>(v.tags->0)),
{
    let ms = v.members();
    assert(ms[0] == ("basket"@, json_quoted(v.basket)));
    assert(v.custom_instructions is Some ==> ms[1] == (
        "customInstructions"@,
        json_quoted(v.custom_instructions->0),
    ));
    assert(v.tags is Some ==> ms[1 + parts(v.custom_instructions)] == (
        "tags"@,
        array_text::<String>(v.tags->0),
    ));
}

/// The object of an output of a payment says every part under its own name, and nothing else.
pub proof fn payment_output_says_every_part(v: PaymentOutputModel)
    ensures
        v.json_text() == json_object(v.members()),
        v.members().len() == 2 + parts(v.payment_remittance) + parts(v.insertion_remittance),
        says(v.members(), "outputIndex"@, decimal_text(v.output_index as nat)),
        says(v.members(), "protocol"@, json_quoted(v.protocol)),
        v.payment_remittance is Some ==> says(
            v.members(),
            "paymentRemittance"@,
            v.payment_remittance->0.json_text(),
        ),
        v.insertion_remittance is Some ==> says(
            v.members(),
            "insertionRemittance"@,
            v.insertion_remittance->0.json_text(),
        ),
{
    let ms = v.members();
    assert(ms[0] == ("outputIndex"@, decimal_text(v.output_index as nat)));
    assert(ms[1] == ("protocol"@, json_quoted(v.protocol)));
    assert(v.payment_remittance is Some ==> ms[2] == (
        "paymentRemittance"@,
        v.payment_remittance->0.json_text(),
    ));
    assert(v.insertion_remittance is Some ==> ms[2 + parts(v.payment_remittance)] == (
        "insertionRemittance"@,
        v.insertion_remittance->0.json_text(),
    ));
}

/// The object of a payment says every part under its own name, and nothing else.
pub proof fn payment_says_every_part(v: PaymentModel)
    ensures
        v.json_text() == json_object(v.members()),
        v.members().len() == 3 + parts(v.labels) + parts(v.seek_permission),
        says(v.members(), "tx"@, array_text::<u8>(v.tx)),
        says(v.members(), "outputs"@, array_text::<PaymentOutput>(v.outputs)),
        says(v.members(), "description"@, json_quoted(v.description)),
        v.labels is Some ==> says(v.members(), "labels"@, array_text::<String>(v.labels->0)),
        v.seek_permission is Some ==> says(
            v.members(),
            "seekPermission"@,
            bool_text(v.seek_permission->0),
        ),
{
    let ms = v.members();
    assert(ms[0] == ("tx"@, array_text::<u8>(v.tx)));
    assert(ms[1] == ("outputs"@, array_text::<PaymentOutput>(v.outputs)));
    assert(ms[2] == ("description"@, json_quoted(v.description)));
    assert(v.labels is Some ==> ms[3] == ("labels"@, array_text::<String>(v.labels->0)));
    assert(v.seek_permission is Some ==> ms[3 + parts(v.labels)] == (
        "seekPermission"@,
        bool_text(v.seek_permission->0),
    ));
}

/// The object of a device to register says every part under its own name, and nothing else.
pub proof fn register_device_request_says_every_part(v: RegisterDeviceRequestModel)
    ensures
        v.json_text() == json_object(v.members()),
        v.members().len() == 1 + parts(v.device_id) + parts(v.platform),
        says(v.members(), "fcmToken"@, json_quoted(v.fcm_token)),
        v.device_id is Some ==> says(v.members(), "deviceId"@, json_quoted(v.device_id->0)),
        v.platform is Some ==> says(v.members(), "platform"@, json_quoted(v.platform->0)),
{
    let ms = v.members();
    assert(ms[0] == ("fcmToken"@, json_quoted(v.fcm_token)));
    assert(v.device_id is Some ==> ms[1] == ("deviceId"@, json_quoted(v.device_id->0)));
    assert(v.platform is Some ==> ms[1 + parts(v.device_id)] == (
        "platform"@,
        json_quoted(v.platform->0),
    ));
}

/// The object of a permission to set says every part under its own name, and nothing else.
pub proof fn set_permission_params_says_every_part(v: SetPermissionParamsModel)
    ensures
        v.json_text() == json_object(v.members()),
        v.members().len() == 2 + parts(v.sender),
        says(v.members(), "messageBox"@, json_quoted(v.message_box)),
        v.sender is Some ==> says(v.members(), "sender"@, json_quoted(v.sender->0)),
        says(v.members(), "recipientFee"@, signed_text(v.recipient_fee as int)),
{
    let ms = v.members();
    assert(ms[0] == ("messageBox"@, json_quoted(v.message_box)));
    assert(v.sender is Some ==> ms[1] == ("sender"@, json_quoted(v.sender->0)));
    assert(ms[1 + parts(v.sender)] == ("recipientFee"@, signed_text(v.recipient_fee as int)));
}

/// The object of a permission says every part under its own name, and nothing else.
pub proof fn message_box_permission_says_every_part(v: MessageBoxPermissionModel)
    ensures
        v.json_text() == json_object(v.members()),
        v.members().len() == 4 + parts(v.sender),
        v.sender is Some ==> says(v.members(), "sender"@, json_quoted(v.sender->0)),
        says(v.members(), "message_box"@, json_quoted(v.message_box)),
        says(v.members(), "recipient_fee"@, signed_text(v.recipient_fee as int)),
        says(v.members(), "created_at"@, json_quoted(v.created_at)),
        says(v.members(), "updated_at"@, json_quoted(v.updated_at)),
{
    let ms = v.members();
    assert(v.sender is Some ==> ms[0] == ("sender"@, json_quoted(v.sender->0)));
    assert(ms[0 + parts(v.sender)] == ("message_box"@, json_quoted(v.message_box)));
    assert(ms[1 + parts(v.sender)] == ("recipient_fee"@, signed_text(v.recipient_fee as int)));
    assert(ms[2 + parts(v.sender)] == ("created_at"@, json_quoted(v.created_at)));
    assert(ms[3 + parts(v.sender)] == ("updated_at"@, json_quoted(v.updated_at)));
}

/// The object of a message to post says every part under its own name, and nothing else.
pub proof fn send_message_params_says_every_part(v: SendMessageParamsModel)
    ensures
        v.json_text() == json_object(v.members()),
        v.members().len() == 4,
        says(v.members(), "recipient"@, json_quoted(v.recipient)),
        says(v.members(), "messageBox"@, json_quoted(v.message_box)),
        says(v.members(), "body"@, json_quoted(v.body)),
        says(v.members(), "messageId"@, json_quoted(v.message_id)),
{
    let ms = v.members();
    assert(ms[0] == ("recipient"@, json_quoted(v.recipient)));
    assert(ms[1] == ("messageBox"@, json_quoted(v.message_box)));
    assert(ms[2] == ("body"@, json_quoted(v.body)));
    assert(ms[3] == ("messageId"@, json_quoted(v.message_id)));
}

/// The object of an output of the payment of a message says every part under its own name, and
/// nothing else.
pub proof fn message_payment_output_says_every_part(v: MessagePaymentOutputModel)
    ensures
        v.json_text() == json_object(v.members()),
        v.members().len() == 4,
        says(v.members(), "outputIndex"@, decimal_text(v.output_index as nat)),
        says(v.members(), "derivationPrefix"@, array_text::<u8>(v.derivation_prefix)),
        says(v.members(), "derivationSuffix"@, array_text::<u8>(v.derivation_suffix)),
        says(v.members(), "senderIdentityKey"@, json_quoted(v.sender_identity_key)),
{
    let ms = v.members();
    assert(ms[0] == ("outputIndex"@, decimal_text(v.output_index as nat)));
    assert(ms[1] == ("derivationPrefix"@, array_text::<u8>(v.derivation_prefix)));
    assert(ms[2] == ("derivationSuffix"@, array_text::<u8>(v.derivation_suffix)));
    assert(ms[3] == ("senderIdentityKey"@, json_quoted(v.sender_identity_key)));
}

/// The object of the payment of a message says every part under its own name, and nothing else.
pub proof fn message_payment_says_every_part(v: MessagePaymentModel)
    ensures
        v.json_text() == json_object(v.members()),
        v.members().len() == 2,
        says(v.members(), "tx"@, array_text::<u8>(v.tx)),
        says(v.members(), "outputs"@, array_text::<MessagePaymentOutput>(v.outputs)),
{
    let ms = v.members();
    assert(ms[0] == ("tx"@, array_text::<u8>(v.tx)));
    assert(ms[1] == ("outputs"@, array_text::<MessagePaymentOutput>(v.outputs)));
}

/// The object of a post says every part under its own name, and nothing else.
pub proof fn send_message_request_says_every_part(v: SendMessageRequestModel)
    ensures
        v.json_text() == json_object(v.members()),
        v.members().len() == 1 + parts(v.payment),
        says(v.members(), "message"@, v.message.json_text()),
        v.payment is Some ==> says(v.members(), "payment"@, v.payment->0.json_text()),
{
    let ms = v.members();
    assert(ms[0] == ("message"@, v.message.json_text()));
    assert(v.payment is Some ==> ms[1] == ("payment"@, v.payment->0.json_text()));
}

/// The object of a listing says every part under its own name, and nothing else.
pub proof fn list_messages_params_says_every_part(v: ListMessagesParamsModel)
    ensures
        v.json_text() == json_object(v.members()),
        v.members().len() == 1,
        says(v.members(), "messageBox"@, json_quoted(v.message_box)),
{
    let ms = v.members();
    assert(ms[0] == ("messageBox"@, json_quoted(v.message_box)));
}

/// The object of an acknowledgement says every part under its own name, and nothing else.
pub proof fn acknowledge_message_params_says_every_part(v: AcknowledgeMessageParamsModel)
    ensures
        v.json_text() == json_object(v.members()),
        v.members().len() == 1,
        says(v.members(), "messageIds"@, array_text::<String>(v.message_ids)),
{
    let ms = v.members();
    assert(ms[0] == ("messageIds"@, array_text::<String>(v.message_ids)));
}

/// The object of a message of the server says every part under its own name, and nothing else.
pub proof fn server_peer_message_says_every_part(v: ServerPeerMessageModel)
    ensures
        v.json_text() == json_object(v.members()),
        v.members().len() == 5 + parts(v.acknowledged),
        says(v.members(), "messageId"@, json_quoted(v.message_id)),
        says(v.members(), "body"@, json_quoted(v.body)),
        says(v.members(), "sender"@, json_quoted(v.sender)),
        says(v.members(), "created_at"@, json_quoted(v.created_at)),
        says(v.members(), "updated_at"@, json_quoted(v.updated_at)),
        v.acknowledged is Some ==> says(v.members(), "acknowledged"@, bool_text(v.acknowledged->0)),
{
    let ms = v.members();
    assert(ms[0] == ("messageId"@, json_quoted(v.message_id)));
    assert(ms[1] == ("body"@, json_quoted(v.body)));
    assert(ms[2] == ("sender"@, json_quoted(v.sender)));
    assert(ms[3] == ("created_at"@, json_quoted(v.created_at)));
    assert(ms[4] == ("updated_at"@, json_quoted(v.updated_at)));
    assert(v.acknowledged is Some ==> ms[5] == ("acknowledged"@, bool_text(v.acknowledged->0)));
}

/// The object of a list of the server says every part under its own name, and nothing else.
pub proof fn list_messages_response_says_every_part(v: ListMessagesResponseModel)
    ensures
        v.json_text() == json_object(v.members()),
        v.members().len() == 2,
        says(v.members(), "status"@, json_quoted(v.status)),
        says(v.members(), "messages"@, array_text::<ServerPeerMessage>(v.messages)),
{
    let ms = v.members();
    assert(ms[0] == ("status"@, json_quoted(v.status)));
    assert(ms[1] == ("messages"@, array_text::<ServerPeerMessage>(v.messages)));
}

/// The object of the answer to a post says every part under its own name, and nothing else.
pub proof fn send_message_response_says_every_part(v: SendMessageResponseModel)
    ensures
        v.json_text() == json_object(v.members()),
        v.members().len() == 1 + parts(v.message_id),
        says(v.members(), "status"@, json_quoted(v.status)),
        v.message_id is Some ==> says(v.members(), "messageId"@, json_quoted(v.message_id->0)),
{
    let ms = v.members();
    assert(ms[0] == ("status"@, json_quoted(v.status)));
    assert(v.message_id is Some ==> ms[1] == ("messageId"@, json_quoted(v.message_id->0)));
}

/// The object of a live message says every part under its own name, and nothing else.
pub proof fn ws_send_message_payload_says_every_part(v: WsSendMessagePayloadModel)
    ensures
        v.json_text() == json_object(v.members()),
        v.members().len() == 3,
        says(v.members(), "messageId"@, json_quoted(v.message_id)),
        says(v.members(), "recipient"@, json_quoted(v.recipient)),
        says(v.members(), "body"@, json_quoted(v.body)),
{
    let ms = v.members();
    assert(ms[0] == ("messageId"@, json_quoted(v.message_id)));
    assert(ms[1] == ("recipient"@, json_quoted(v.recipient)));
    assert(ms[2] == ("body"@, json_quoted(v.body)));
}

/// The object of the data of a live message says every part under its own name, and nothing else.
pub proof fn ws_send_message_data_says_every_part(v: WsSendMessageDataModel)
    ensures
        v.json_text() == json_object(v.members()),
        v.members().len() == 2,
        says(v.members(), "roomId"@, json_quoted(v.room_id)),
        says(v.members(), "message"@, v.message.json_text()),
{
    let ms = v.members();
    assert(ms[0] == ("roomId"@, json_quoted(v.room_id)));
    assert(ms[1] == ("message"@, v.message.json_text()));
}

/// The object of what a payee is told says every part under its own name, and nothing else.
pub proof fn payment_custom_instructions_says_every_part(v: PaymentCustomInstructionsModel)
    ensures
        v.json_text() == json_object(v.members()),
        v.members().len() == 2 + parts(v.payee),
        says(v.members(), "derivationPrefix"@, json_quoted(v.derivation_prefix)),
        says(v.members(), "derivationSuffix"@, json_quoted(v.derivation_suffix)),
        v.payee is Some ==> says(v.members(), "payee"@, json_quoted(v.payee->0)),
{
    let ms = v.members();
    assert(ms[0] == ("derivationPrefix"@, json_quoted(v.derivation_prefix)));
    assert(ms[1] == ("derivationSuffix"@, json_quoted(v.derivation_suffix)));
    assert(v.payee is Some ==> ms[2] == ("payee"@, json_quoted(v.payee->0)));
}

/// The object of a payment token says every part under its own name, and nothing else.
pub proof fn payment_token_says_every_part(v: PaymentTokenModel)
    ensures
        v.json_text() == json_object(v.members()),
        v.members().len() == 3 + parts(v.output_index),
        says(v.members(), "customInstructions"@, v.custom_instructions.json_text()),
        says(v.members(), "transaction"@, array_text::<u8>(v.transaction)),
        says(v.members(), "amount"@, decimal_text(v.amount as nat)),
        v.output_index is Some ==> says(
            v.members(),
            "outputIndex"@,
            decimal_text(v.output_index->0 as nat),
        ),
{
    let ms = v.members();
    assert(ms[0] == ("customInstructions"@, v.custom_instructions.json_text()));
    assert(ms[1] == ("transaction"@, array_text::<u8>(v.transaction)));
    assert(ms[2] == ("amount"@, decimal_text(v.amount as nat)));
    assert(v.output_index is Some ==> ms[3] == (
        "outputIndex"@,
        decimal_text(v.output_index->0 as nat),
    ));
}

/// The object of a request for a payment says every part under its own name, and nothing else.
pub proof fn payment_request_message_says_every_part(v: PaymentRequestMessageModel)
    ensures
        v.json_text() == json_object(v.members()),
        v.members().len() == 3 + parts(v.amount) + parts(v.description) + parts(v.expires_at) + parts(v.cancelled),
        says(v.members(), "requestId"@, json_quoted(v.request_id)),
        says(v.members(), "senderIdentityKey"@, json_quoted(v.sender_identity_key)),
        says(v.members(), "requestProof"@, json_quoted(v.request_proof)),
        v.amount is Some ==> says(v.members(), "amount"@, decimal_text(v.amount->0 as nat)),
        v.description is Some ==> says(v.members(), "description"@, json_quoted(v.description->0)),
        v.expires_at is Some ==> says(
            v.members(),
            "expiresAt"@,
            decimal_text(v.expires_at->0 as nat),
        ),
        v.cancelled is Some ==> says(v.members(), "cancelled"@, bool_text(v.cancelled->0)),
{
    let ms = v.members();
    assert(ms[0] == ("requestId"@, json_quoted(v.request_id)));
    assert(ms[1] == ("senderIdentityKey"@, json_quoted(v.sender_identity_key)));
    assert(ms[2] == ("requestProof"@, json_quoted(v.request_proof)));
    assert(v.amount is Some ==> ms[3] == ("amount"@, decimal_text(v.amount->0 as nat)));
    assert(v.description is Some ==> ms[3 + parts(v.amount)] == (
        "description"@,
        json_quoted(v.description->0),
    ));
    assert(v.expires_at is Some ==> ms[3 + parts(v.amount) + parts(v.description)] == (
        "expiresAt"@,
        decimal_text(v.expires_at->0 as nat),
    ));
    assert(v.cancelled is Some ==> ms[3 + parts(v.amount) + parts(v.description) + parts(v.expires_at)] == (
        "cancelled"@,
        bool_text(v.cancelled->0),
    ));
}

/// The object of the response to a request says every part under its own name, and nothing else.
pub proof fn payment_request_response_says_every_part(v: PaymentRequestResponseModel)
    ensures
        v.json_text() == json_object(v.members()),
        v.members().len() == 2 + parts(v.note) + parts(v.amount_paid),
        says(v.members(), "requestId"@, json_quoted(v.request_id)),
        says(v.members(), "status"@, json_quoted(v.status)),
        v.note is Some ==> says(v.members(), "note"@, json_quoted(v.note->0)),
        v.amount_paid is Some ==> says(
            v.members(),
            "amountPaid"@,
            decimal_text(v.amount_paid->0 as nat),
        ),
{
    let ms = v.members();
    assert(ms[0] == ("requestId"@, json_quoted(v.request_id)));
    assert(ms[1] == ("status"@, json_quoted(v.status)));
    assert(v.note is Some ==> ms[2] == ("note"@, json_quoted(v.note->0)));
    assert(v.amount_paid is Some ==> ms[2 + parts(v.note)] == (
        "amountPaid"@,
        decimal_text(v.amount_paid->0 as nat),
    ));
}

} // verus!
