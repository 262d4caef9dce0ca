//! Payments between peers: making a payment token, sending it, and taking it in or sending it
//! back.

use crate::chain::{key_of, payment_script, payment_script_of, public_key};
use crate::client::MessageBoxClient;
use crate::codec::{base64_bytes, base64_decode, hex_text};
use crate::encryption::envelope_text;
use crate::error::{ErrorModel, MessageBoxError};
use crate::json::ToJson;
use crate::message_payment::{key_id, key_identifier};
use crate::sending::{
    orders_are_carried_out, MessageOrder, MessageOrderModel, MessageStepModel, SendAnswers,
    SendStepModel,
};
use crate::text::{
    contains, contains_text, duplicate_bytes, joined, occurs_at, opt_view, result_view, views,
};
use crate::types::{
    IncomingPayment, IncomingPaymentModel, PaymentCustomInstructions,
    PaymentCustomInstructionsModel, PaymentToken, PaymentTokenModel, PeerMessage, PeerMessageModel,
    SendMessageParamsModel, SendMessageRequestModel,
};
use crate::wallet::{
    derived_key_request, payment_protocol, protocol, ActionOutput, ActionOutputModel, ActionReply,
    ActionReplyModel, ActionRequest, ActionRequestModel, InternalizeRequest,
    InternalizeRequestModel, KeyRequest, KeyRequestModel, PartyModel, SignRequest,
    SignRequestModel, WalletPayment, WalletPaymentModel,
};
use vstd::prelude::*;
use vstd::string::*;
use vstd::utf8::*;

verus! {

broadcast use vstd::string::group_string_axioms;

/// The message box that payment tokens are sent to.
pub const PAYMENT_INBOX: &'static str = "payment_inbox";

/// What it costs to send a rejected payment back, in satoshis.
pub const REJECTION_FEE: u64 = 1000;

/// The least payment that is sent back when it is rejected, in satoshis.
pub const LEAST_REFUNDABLE: u64 = 2000;

/// A payment token before its key identifier is known.
pub struct TokenStart {
    /// Whom it pays.
    recipient: String,
    /// What it pays, in satoshis.
    amount: u64,
    /// The first part of the key identifier, once it is known.
    prefix: Option<String>,
}

/// The contents of a `TokenStart`.
#[verifier::ext_equal]
pub struct TokenStartModel {
    pub recipient: Seq<char>,
    pub amount: u64,
    pub prefix: Option<Seq<char>>,
}

impl View for TokenStart {
    type V = TokenStartModel;

    closed spec fn view(&self) -> TokenStartModel {
        TokenStartModel {
            recipient: self.recipient@,
            amount: self.amount,
            prefix: opt_view(self.prefix),
        }
    }
}

/// A payment token whose key identifier is known.
pub struct TokenDraft {
    /// Whom it pays.
    recipient: String,
    /// What it pays, in satoshis.
    amount: u64,
    /// The first part of the key identifier.
    prefix: String,
    /// The second part of the key identifier.
    suffix: String,
}

/// The contents of a `TokenDraft`.
#[verifier::ext_equal]
pub struct TokenDraftModel {
    pub recipient: Seq<char>,
    pub amount: u64,
    pub prefix: Seq<char>,
    pub suffix: Seq<char>,
}

impl View for TokenDraft {
    type V = TokenDraftModel;

    closed spec fn view(&self) -> TokenDraftModel {
        TokenDraftModel {
            recipient: self.recipient@,
            amount: self.amount,
            prefix: self.prefix@,
            suffix: self.suffix@,
        }
    }
}

/// A message of the payment box, with the payment token that its body holds, if it holds one.
#[derive(Clone, Debug)]
pub struct PaymentMessage {
    /// The message.
    pub message: PeerMessage,
    /// The payment token.
    pub token: Option<PaymentToken>,
}

/// The contents of a `PaymentMessage`.
#[verifier::ext_equal]
pub struct PaymentMessageModel {
    pub message: PeerMessageModel,
    pub token: Option<PaymentTokenModel>,
}

impl View for PaymentMessage {
    type V = PaymentMessageModel;

    open spec fn view(&self) -> PaymentMessageModel {
        PaymentMessageModel {
            message: self.message@,
            token: opt_view(self.token),
        }
    }
}

/// A payment that is to be sent back.
pub struct Rejection {
    /// Who paid.
    sender: String,
    /// The message that brought the payment.
    message_id: String,
    /// What was paid, in satoshis.
    amount: u64,
}

/// The contents of a `Rejection`.
#[verifier::ext_equal]
pub struct RejectionModel {
    pub sender: Seq<char>,
    pub message_id: Seq<char>,
    pub amount: u64,
}

impl View for Rejection {
    type V = RejectionModel;

    closed spec fn view(&self) -> RejectionModel {
        RejectionModel {
            sender: self.sender@,
            message_id: self.message_id@,
            amount: self.amount,
        }
    }
}

/// A payment that was accepted, and whose refund is on its way.
pub struct Refunding {
    /// The message that brought the payment.
    message_id: String,
}

/// The contents of a `Refunding`.
#[verifier::ext_equal]
pub struct RefundingModel {
    pub message_id: Seq<char>,
}

impl View for Refunding {
    type V = RefundingModel;

    closed spec fn view(&self) -> RefundingModel {
        RefundingModel {
            message_id: self.message_id@,
        }
    }
}

/// The last step of a rejection.
pub struct LastAcknowledgement {
    /// The message that brought the payment.
    message_id: String,
}

/// The contents of a `LastAcknowledgement`.
#[verifier::ext_equal]
pub struct LastAcknowledgementModel {
    pub message_id: Seq<char>,
}

impl View for LastAcknowledgement {
    type V = LastAcknowledgementModel;

    closed spec fn view(&self) -> LastAcknowledgementModel {
        LastAcknowledgementModel {
            message_id: self.message_id@,
        }
    }
}

/// The next step of making a payment token.
pub enum TokenStep {
    /// Ask for a nonce.
    Nonce(TokenStart),
    /// Ask for the key to pay to.
    Derive(TokenDraft, KeyRequest),
    /// Ask for the transaction.
    Create(TokenDraft, ActionRequest),
    /// Ask to complete the transaction.
    Sign(TokenDraft, SignRequest),
    /// The token is made.
    Done(PaymentToken),
}

/// The contents of a `TokenStep`.
#[verifier::ext_equal]
pub enum TokenStepModel {
    Nonce(TokenStartModel),
    Derive(TokenDraftModel, KeyRequestModel),
    Create(TokenDraftModel, ActionRequestModel),
    Sign(TokenDraftModel, SignRequestModel),
    Done(PaymentTokenModel),
}

impl View for TokenStep {
    type V = TokenStepModel;

    open spec fn view(&self) -> TokenStepModel {
        match self {
            TokenStep::Nonce(s) => TokenStepModel::Nonce(s@),
            TokenStep::Derive(d, q) => TokenStepModel::Derive(d@, q@),
            TokenStep::Create(d, q) => TokenStepModel::Create(d@, q@),
            TokenStep::Sign(d, q) => TokenStepModel::Sign(d@, q@),
            TokenStep::Done(t) => TokenStepModel::Done(t@),
        }
    }
}

impl TokenStartModel {
    /// The step after a nonce was given. The first is the first part of the key identifier, the
    /// second the second.
    pub open spec fn nonce_given(
        self,
        reply: Result<Seq<char>, Seq<char>>,
        recipient: Result<Seq<char>, Seq<char>>,
    ) -> Result<TokenStepModel, ErrorModel> {
        match (self.prefix, reply) {
            (None, Err(e)) => Err(ErrorModel::Auth("create_nonce prefix: "@ + e)),
            (None, Ok(n)) => Ok(
                TokenStepModel::Nonce(TokenStartModel { prefix: Some(n), ..self }),
            ),
            (Some(_), Err(e)) => Err(ErrorModel::Auth("create_nonce suffix: "@ + e)),
            (Some(p), Ok(n)) => match recipient {
                Err(e) => Err(ErrorModel::Wallet(e)),
                Ok(key) => Ok(
                    TokenStepModel::Derive(
                        TokenDraftModel {
                            recipient: self.recipient,
                            amount: self.amount,
                            prefix: p,
                            suffix: n,
                        },
                        derived_key_request(payment_protocol(), key_identifier(p, n), key),
                    ),
                ),
            },
        }
    }
}

impl TokenDraftModel {
    /// What the payee is told of the key.
    pub open spec fn instructions(self) -> PaymentCustomInstructionsModel {
        PaymentCustomInstructionsModel {
            derivation_prefix: self.prefix,
            derivation_suffix: self.suffix,
            payee: Some(self.recipient),
        }
    }

    /// The transaction that pays to a script.
    pub open spec fn action(self, script: Seq<u8>) -> ActionRequestModel {
        ActionRequestModel {
            description: "PeerPay payment"@,
            input_beef: None,
            inputs: Seq::empty(),
            outputs: seq![
                ActionOutputModel {
                    locking_script: script,
                    satoshis: self.amount,
                    description: "Payment for PeerPay transaction"@,
                    basket: None,
                    custom_instructions: Some(
                        <PaymentCustomInstructions as ToJson>::text_of(self.instructions()),
                    ),
                },
            ],
            labels: seq!["peerpay"@],
            randomize_outputs: Some(false),
            accept_delayed_broadcast: None,
        }
    }

    /// The token that hands a transaction over. The position of the output is left out: it is the
    /// first.
    pub open spec fn token(self, tx: Seq<u8>) -> PaymentTokenModel {
        PaymentTokenModel {
            custom_instructions: self.instructions(),
            transaction: tx,
            amount: self.amount,
            output_index: None,
        }
    }

    /// The step after the wallet answered with the key to pay to.
    pub open spec fn derived(
        self,
        script: Result<Result<Seq<u8>, Seq<char>>, Seq<char>>,
    ) -> Result<TokenStepModel, ErrorModel> {
        match script {
            Err(e) => Err(ErrorModel::Wallet(e)),
            Ok(Err(e)) => Err(ErrorModel::Wallet("P2PKH lock error: "@ + e)),
            Ok(Ok(s)) => Ok(TokenStepModel::Create(self, self.action(s))),
        }
    }

    /// The step after the wallet answered with the transaction. One that is not complete yet is
    /// handed back to the wallet.
    pub open spec fn created(self, reply: Result<ActionReplyModel, Seq<char>>) -> Result<
        TokenStepModel,
        ErrorModel,
    > {
        match reply {
            Err(e) => Err(ErrorModel::Wallet(e)),
            Ok(a) => match (a.tx, a.signable) {
                (Some(tx), _) => Ok(TokenStepModel::Done(self.token(tx))),
                (None, Some(s)) => Ok(
                    TokenStepModel::Sign(
                        self,
                        SignRequestModel { reference: s.reference, spends: Seq::empty() },
                    ),
                ),
                (None, None) => Err(
                    ErrorModel::Wallet(
                        "create_action returned neither tx nor signable_transaction"@,
                    ),
                ),
            },
        }
    }

    /// The outcome after the wallet completed the transaction.
    pub open spec fn signed(self, reply: Result<Option<Seq<u8>>, Seq<char>>) -> Result<
        PaymentTokenModel,
        ErrorModel,
    > {
        match reply {
            Err(e) => Err(ErrorModel::Wallet(e)),
            Ok(None) => Err(ErrorModel::Wallet("sign_action returned no tx"@)),
            Ok(Some(tx)) => Ok(self.token(tx)),
        }
    }
}

/// The script to pay to, given the wallet's answer.
pub open spec fn script_to_pay(reply: Result<Seq<char>, Seq<char>>) -> Result<
    Result<Seq<u8>, Seq<char>>,
    Seq<char>,
> {
    match reply {
        Err(e) => Err(e),
        Ok(key) => Ok(payment_script_of(key)),
    }
}

impl MessageBoxClient {
    /// The first step of making a payment token for a recipient.
    pub fn create_payment_token(&self, recipient: &str, amount: u64) -> (r: TokenStep)
        ensures
            r@ == TokenStepModel::Nonce(
                TokenStartModel { recipient: recipient@, amount, prefix: None },
            ),
    {
        TokenStep::Nonce(TokenStart { recipient: recipient.to_owned(), amount, prefix: None })
    }
}

impl TokenStart {
    /// The step after a nonce was given, when the recipient's key reads as given.
    pub fn nonce_given_for(
        self,
        reply: Result<String, String>,
        recipient: Result<String, String>,
    ) -> (r: Result<TokenStep, MessageBoxError>)
        ensures
            result_view(r) == self@.nonce_given(result_view(reply), result_view(recipient)),
    {
        match self.prefix {
            None => match reply {
                Err(e) => Err(MessageBoxError::Auth(joined("create_nonce prefix: ", e.as_str()))),
                Ok(n) => Ok(
                    TokenStep::Nonce(
                        TokenStart {
                            recipient: self.recipient,
                            amount: self.amount,
                            prefix: Some(n),
                        },
                    ),
                ),
            },
            Some(prefix) => match reply {
                Err(e) => Err(MessageBoxError::Auth(joined("create_nonce suffix: ", e.as_str()))),
                Ok(suffix) => match recipient {
                    Err(e) => Err(MessageBoxError::Wallet(e)),
                    Ok(key) => {
                        let id = key_id(prefix.as_str(), suffix.as_str());
                        let q = KeyRequest::derived(protocol(2, "3241645161d8"), id, key);
                        Ok(
                            TokenStep::Derive(
                                TokenDraft {
                                    recipient: self.recipient,
                                    amount: self.amount,
                                    prefix,
                                    suffix,
                                },
                                q,
                            ),
                        )
                    },
                },
            },
        }
    }

    /// The step after a nonce was given.
    pub fn nonce_given(self, reply: Result<String, String>) -> (r: Result<
        TokenStep,
        MessageBoxError,
    >)
        ensures
            result_view(r) == self@.nonce_given(result_view(reply), key_of(self@.recipient)),
    {
        let key = public_key(self.recipient.as_str());
        self.nonce_given_for(reply, key)
    }
}

impl TokenDraft {
    fn instructions(&self) -> (r: PaymentCustomInstructions)
        ensures
            r@ == self@.instructions(),
    {
        PaymentCustomInstructions {
            derivation_prefix: self.prefix.clone(),
            derivation_suffix: self.suffix.clone(),
            payee: Some(self.recipient.clone()),
        }
    }

    fn token(self, tx: Vec<u8>) -> (r: PaymentToken)
        ensures
            r@ == self@.token(tx@),
    {
        PaymentToken {
            custom_instructions: self.instructions(),
            transaction: tx,
            amount: self.amount,
            output_index: None,
        }
    }

    /// The step after the wallet answered with the key to pay to, when the script of that key is
    /// as given.
    pub fn derived_for(self, script: Result<Result<Vec<u8>, String>, String>) -> (r: Result<
        TokenStep,
        MessageBoxError,
    >)
        ensures
            result_view(r) == self@.derived(
                match script {
                    Err(e) => Err(e@),
                    Ok(s) => Ok(result_view(s)),
                },
            ),
    {
        match script {
            Err(e) => Err(MessageBoxError::Wallet(e)),
            Ok(Err(e)) => Err(MessageBoxError::Wallet(joined("P2PKH lock error: ", e.as_str()))),
            Ok(Ok(locking_script)) => {
                let instructions = self.instructions();
                let output = ActionOutput {
                    locking_script,
                    satoshis: self.amount,
                    description: "Payment for PeerPay transaction".to_owned(),
                    basket: None,
                    custom_instructions: Some(instructions.to_json()),
                };
                let q = ActionRequest {
                    description: "PeerPay payment".to_owned(),
                    input_beef: None,
                    inputs: Vec::new(),
                    outputs: vec![output],
                    labels: vec!["peerpay".to_owned()],
                    randomize_outputs: Some(false),
                    accept_delayed_broadcast: None,
                };
                assert(q@ =~= self@.action(locking_script@)) by {
                    assert(q@.inputs =~= Seq::empty());
                    assert(q@.outputs =~= self@.action(locking_script@).outputs);
                    assert(q@.labels =~= seq!["peerpay"@]);
                }
                Ok(TokenStep::Create(self, q))
            },
        }
    }

    /// The step after the wallet answered with the key to pay to.
    pub fn derived(self, reply: Result<String, String>) -> (r: Result<TokenStep, MessageBoxError>)
        ensures
            result_view(r) == self@.derived(script_to_pay(result_view(reply))),
    {
        match reply {
            Err(e) => self.derived_for(Err(e)),
            Ok(key) => {
                let script = payment_script(key.as_str());
                self.derived_for(Ok(script))
            },
        }
    }

    /// The step after the wallet answered with the transaction.
    pub fn created(self, reply: Result<ActionReply, String>) -> (r: Result<
        TokenStep,
        MessageBoxError,
    >)
        ensures
            result_view(r) == self@.created(result_view(reply)),
    {
        match reply {
            Err(e) => Err(MessageBoxError::Wallet(e)),
            Ok(a) => match a.tx {
                Some(tx) => Ok(TokenStep::Done(self.token(tx))),
                None => match a.signable {
                    Some(s) => {
                        let q = SignRequest { reference: s.reference, spends: Vec::new() };
                        assert(q@.spends =~= Seq::empty());
                        Ok(TokenStep::Sign(self, q))
                    },
                    None => Err(
                        MessageBoxError::Wallet(
                            "create_action returned neither tx nor signable_transaction".to_owned(),
                        ),
                    ),
                },
            },
        }
    }

    /// The outcome after the wallet completed the transaction.
    pub fn signed(self, reply: Result<Option<Vec<u8>>, String>) -> (r: Result<
        PaymentToken,
        MessageBoxError,
    >)
        ensures
            result_view(r) == self@.signed(
                match reply {
                    Ok(tx) => Ok(opt_view(tx)),
                    Err(e) => Err(e@),
                },
            ),
    {
        match reply {
            Err(e) => Err(MessageBoxError::Wallet(e)),
            Ok(None) => Err(MessageBoxError::Wallet("sign_action returned no tx".to_owned())),
            Ok(Some(tx)) => Ok(self.token(tx)),
        }
    }
}

/// The message that hands a payment token over.
pub open spec fn payment_message(recipient: Seq<char>, token: PaymentTokenModel) -> MessageOrderModel {
    MessageOrderModel {
        recipient,
        message_box: PAYMENT_INBOX@,
        body: <PaymentToken as ToJson>::text_of(token),
        host: None,
        skip_encryption: false,
        check_permissions: false,
        message_id: None,
    }
}

impl MessageBoxClient {
    /// The message that hands a payment token over, by mail or live.
    pub fn send_payment(&self, recipient: &str, token: &PaymentToken) -> (r: MessageOrder)
        ensures
            r@ == payment_message(recipient@, token@),
    {
        MessageOrder {
            recipient: recipient.to_owned(),
            message_box: PAYMENT_INBOX.to_owned(),
            body: token.to_json(),
            host: None,
            skip_encryption: false,
            check_permissions: false,
            message_id: None,
        }
    }
}

/// The request to take a payment in, when its parts read as given.
pub open spec fn accept_model(
    payment: IncomingPaymentModel,
    sender: Result<Seq<char>, Seq<char>>,
    prefix: Result<Seq<u8>, Seq<char>>,
    suffix: Result<Seq<u8>, Seq<char>>,
) -> Result<InternalizeRequestModel, ErrorModel> {
    match (sender, prefix, suffix) {
        (Err(e), _, _) => Err(ErrorModel::Wallet("invalid sender key: "@ + e)),
        (Ok(_), Err(e), _) => Err(ErrorModel::Wallet("base64 decode prefix: "@ + e)),
        (Ok(_), Ok(_), Err(e)) => Err(ErrorModel::Wallet("base64 decode suffix: "@ + e)),
        (Ok(key), Ok(p), Ok(s)) => Ok(
            InternalizeRequestModel {
                tx: payment.token.transaction,
                description: "PeerPay Payment"@,
                labels: seq!["peerpay"@],
                seek_permission: Some(true),
                outputs: seq![
                    WalletPaymentModel {
                        output_index: match payment.token.output_index {
                            Some(i) => i,
                            None => 0,
                        },
                        derivation_prefix: p,
                        derivation_suffix: s,
                        sender_identity_key: key,
                    },
                ],
            },
        ),
    }
}

/// The request to take a payment in, when the key of its sender and the two parts of its key
/// identifier read as given.
pub fn accept_payment_with(
    payment: &IncomingPayment,
    sender: Result<String, String>,
    prefix: Result<Vec<u8>, String>,
    suffix: Result<Vec<u8>, String>,
) -> (r: Result<InternalizeRequest, MessageBoxError>)
    ensures
        result_view(r) == accept_model(
            payment@,
            result_view(sender),
            result_view(prefix),
            result_view(suffix),
        ),
{
    let sender_identity_key = match sender {
        Err(e) => {
            return Err(MessageBoxError::Wallet(joined("invalid sender key: ", e.as_str())));
        },
        Ok(k) => k,
    };
    let derivation_prefix = match prefix {
        Err(e) => {
            return Err(MessageBoxError::Wallet(joined("base64 decode prefix: ", e.as_str())));
        },
        Ok(b) => b,
    };
    let derivation_suffix = match suffix {
        Err(e) => {
            return Err(MessageBoxError::Wallet(joined("base64 decode suffix: ", e.as_str())));
        },
        Ok(b) => b,
    };
    let output = WalletPayment {
        output_index: match payment.token.output_index {
            Some(i) => i,
            None => 0,
        },
        derivation_prefix,
        derivation_suffix,
        sender_identity_key,
    };
    let q = InternalizeRequest {
        tx: duplicate_bytes(&payment.token.transaction),
        description: "PeerPay Payment".to_owned(),
        labels: vec!["peerpay".to_owned()],
        seek_permission: Some(true),
        outputs: vec![output],
    };
    assert(q@.labels =~= seq!["peerpay"@]);
    assert(q@.outputs =~= seq![output@]);
    Ok(q)
}

impl MessageBoxClient {
    /// The request to take a payment in. The two parts of its key identifier are base64 texts.
    pub fn accept_payment(&self, payment: &IncomingPayment) -> (r: Result<
        InternalizeRequest,
        MessageBoxError,
    >)
        ensures
            result_view(r) == accept_model(
                payment@,
                key_of(payment@.sender),
                base64_bytes(payment@.token.custom_instructions.derivation_prefix),
                base64_bytes(payment@.token.custom_instructions.derivation_suffix),
            ),
    {
        let sender = public_key(payment.sender.as_str());
        let instructions = &payment.token.custom_instructions;
        let prefix = base64_decode(instructions.derivation_prefix.as_str());
        let suffix = base64_decode(instructions.derivation_suffix.as_str());
        accept_payment_with(payment, sender, prefix, suffix)
    }
}

/// The messages to acknowledge once the wallet took a payment in.
pub fn payment_internalized(payment: &IncomingPayment, reply: Result<(), String>) -> (r: Result<
    Vec<String>,
    MessageBoxError,
>)
    ensures
        match reply {
            Ok(_) => r is Ok && views(r->Ok_0@) == seq![payment@.message_id],
            Err(e) => r is Err && r->Err_0@ == ErrorModel::Wallet(e@),
        },
{
    match reply {
        Err(e) => Err(MessageBoxError::Wallet(e)),
        Ok(_) => {
            let ids = vec![payment.message_id.clone()];
            assert(views(ids@) =~= seq![payment@.message_id]);
            Ok(ids)
        },
    }
}

/// Whether an error says that the server does not know who asks.
pub open spec fn is_unauthorized(e: ErrorModel) -> bool {
    match e {
        ErrorModel::Http(status, _) => status == 401,
        ErrorModel::Auth(s) => contains_text(s, "401"@),
        _ => false,
    }
}

/// Whether an error says that the server does not know who asks.
pub fn is_401_error(e: &MessageBoxError) -> (r: bool)
    ensures
        r == is_unauthorized(e@),
{
    match e {
        MessageBoxError::Http(status, _) => *status == 401,
        MessageBoxError::Auth(s) => contains(s.as_str(), "401"),
        _ => false,
    }
}

/// The next step of a rejection.
pub enum RejectStep {
    /// Acknowledge the message that brought the payment.
    Acknowledge(LastAcknowledgement, Vec<String>),
    /// Accept the payment, to send it back.
    Accept(Rejection),
    /// Pay this amount to the sender.
    Refund(Refunding, String, u64),
    /// Nothing is left to do.
    Done,
}

/// The contents of a `RejectStep`.
#[verifier::ext_equal]
pub enum RejectStepModel {
    Acknowledge(LastAcknowledgementModel, Seq<Seq<char>>),
    Accept(RejectionModel),
    Refund(RefundingModel, Seq<char>, u64),
    Done,
}

impl View for RejectStep {
    type V = RejectStepModel;

    open spec fn view(&self) -> RejectStepModel {
        match self {
            RejectStep::Acknowledge(l, ids) => RejectStepModel::Acknowledge(l@, views(ids@)),
            RejectStep::Accept(s) => RejectStepModel::Accept(s@),
            RejectStep::Refund(s, recipient, amount) => RejectStepModel::Refund(
                s@,
                recipient@,
                *amount,
            ),
            RejectStep::Done => RejectStepModel::Done,
        }
    }
}

/// The step that acknowledges the message.
pub open spec fn last_acknowledgement(message_id: Seq<char>) -> RejectStepModel {
    RejectStepModel::Acknowledge(LastAcknowledgementModel { message_id }, seq![message_id])
}

/// The first step of a rejection: a payment that is too small to send back is only acknowledged.
pub open spec fn rejection(payment: IncomingPaymentModel) -> RejectStepModel {
    if payment.token.amount < LEAST_REFUNDABLE {
        last_acknowledgement(payment.message_id)
    } else {
        RejectStepModel::Accept(
            RejectionModel {
                sender: payment.sender,
                message_id: payment.message_id,
                amount: payment.token.amount,
            },
        )
    }
}

impl RejectionModel {
    /// The step after the payment was accepted: what was paid goes back, less the fee. That the
    /// server does not know who asks ends the rejection without an error.
    pub open spec fn accepted(self, outcome: Result<(), ErrorModel>) -> Result<
        RejectStepModel,
        ErrorModel,
    > {
        match outcome {
            Err(e) => if is_unauthorized(e) {
                Ok(RejectStepModel::Done)
            } else {
                Err(e)
            },
            Ok(_) => Ok(
                RejectStepModel::Refund(
                    RefundingModel { message_id: self.message_id },
                    self.sender,
                    (self.amount - REJECTION_FEE) as u64,
                ),
            ),
        }
    }
}

impl RefundingModel {
    /// The step after the refund was sent. That the server does not know who asks ends the
    /// rejection without an error.
    pub open spec fn refunded(self, outcome: Result<Seq<char>, ErrorModel>) -> Result<
        RejectStepModel,
        ErrorModel,
    > {
        match outcome {
            Ok(_) => Ok(last_acknowledgement(self.message_id)),
            Err(e) => if is_unauthorized(e) {
                Ok(RejectStepModel::Done)
            } else {
                Err(e)
            },
        }
    }
}

impl LastAcknowledgementModel {
    /// The outcome after the message was acknowledged. It is no error that the server does not
    /// know who asks.
    pub open spec fn acknowledged(self, outcome: Result<(), ErrorModel>) -> Result<(), ErrorModel> {
        match outcome {
            Ok(_) => Ok(()),
            Err(e) => if is_unauthorized(e) {
                Ok(())
            } else {
                Err(e)
            },
        }
    }
}

fn acknowledge_last(message_id: &str) -> (r: RejectStep)
    ensures
        r@ == last_acknowledgement(message_id@),
{
    let ids = vec![message_id.to_owned()];
    assert(views(ids@) =~= seq![message_id@]);
    RejectStep::Acknowledge(LastAcknowledgement { message_id: message_id.to_owned() }, ids)
}

impl MessageBoxClient {
    /// The first step of a rejection.
    pub fn reject_payment(&self, payment: &IncomingPayment) -> (r: RejectStep)
        ensures
            r@ == rejection(payment@),
    {
        if payment.token.amount < LEAST_REFUNDABLE {
            acknowledge_last(payment.message_id.as_str())
        } else {
            RejectStep::Accept(
                Rejection {
                    sender: payment.sender.clone(),
                    message_id: payment.message_id.clone(),
                    amount: payment.token.amount,
                },
            )
        }
    }
}

impl Rejection {
    /// The step after the payment was accepted, or could not be.
    pub fn accepted(self, outcome: Result<(), MessageBoxError>) -> (r: Result<
        RejectStep,
        MessageBoxError,
    >)
        requires
            self@.amount >= LEAST_REFUNDABLE,
        ensures
            result_view(r) == self@.accepted(result_view(outcome)),
    {
        match outcome {
            Err(e) => if is_401_error(&e) {
                Ok(RejectStep::Done)
            } else {
                Err(e)
            },
            Ok(_) => Ok(
                RejectStep::Refund(
                    Refunding { message_id: self.message_id },
                    self.sender,
                    self.amount - REJECTION_FEE,
                ),
            ),
        }
    }
}

impl Refunding {
    /// The step after the refund was sent, or could not be.
    pub fn refunded(self, outcome: Result<String, MessageBoxError>) -> (r: Result<
        RejectStep,
        MessageBoxError,
    >)
        ensures
            result_view(r) == self@.refunded(result_view(outcome)),
    {
        match outcome {
            Ok(_) => Ok(acknowledge_last(self.message_id.as_str())),
            Err(e) => if is_401_error(&e) {
                Ok(RejectStep::Done)
            } else {
                Err(e)
            },
        }
    }
}

impl LastAcknowledgement {
    /// The outcome after the message was acknowledged, or could not be.
    pub fn acknowledged(self, outcome: Result<(), MessageBoxError>) -> (r: Result<
        (),
        MessageBoxError,
    >)
        ensures
            result_view(r) == self@.acknowledged(result_view(outcome)),
    {
        match outcome {
            Ok(_) => Ok(()),
            Err(e) => if is_401_error(&e) {
                Ok(())
            } else {
                Err(e)
            },
        }
    }
}

/// The payment that a message brings: none, when its body holds no payment token.
pub open spec fn payment_of(m: PaymentMessageModel) -> Option<IncomingPaymentModel> {
    match m.token {
        Some(token) => Some(
            IncomingPaymentModel {
                token,
                sender: m.message.sender,
                message_id: m.message.message_id,
            },
        ),
        None => None,
    }
}

/// The payments that messages bring, in their order.
pub open spec fn payments_of(ms: Seq<PaymentMessageModel>) -> Seq<IncomingPaymentModel>
    decreases ms.len(),
{
    if ms.len() == 0 {
        Seq::empty()
    } else {
        let before = payments_of(ms.drop_last());
        match payment_of(ms.last()) {
            Some(p) => before.push(p),
            None => before,
        }
    }
}

/// The payment that a message brings, if its body holds a payment token.
pub fn incoming_payment(m: PaymentMessage) -> (r: Option<IncomingPayment>)
    ensures
        opt_view(r) == payment_of(m@),
{
    match m.token {
        Some(token) => Some(
            IncomingPayment {
                token,
                sender: m.message.sender,
                message_id: m.message.message_id,
            },
        ),
        None => None,
    }
}

impl MessageBoxClient {
    /// The payments that messages bring. A message whose body holds no payment token is passed
    /// over.
    pub fn list_incoming_payments(&self, messages: Vec<PaymentMessage>) -> (r: Vec<IncomingPayment>)
        ensures
            views(r@) == payments_of(views(messages@)),
    {
        let ghost all = views(messages@);
        let mut r: Vec<IncomingPayment> = Vec::new();
        assert(views(r@) =~= payments_of(all.take(0)));
        for m in it: messages
            invariant
                it.seq() == messages@,
                all == views(messages@),
                views(r@) == payments_of(all.take(it.index() as int)),
        {
            let ghost n = it.index() as int;
            let ghost before = views(r@);
            assert(all.take(n + 1).drop_last() =~= all.take(n));
            if let Some(p) = incoming_payment(m) {
                r.push(p);
                assert(views(r@) =~= before.push(p@));
            }
        }
        assert(all.take(all.len() as int) =~= all);
        r
    }
}

/// A message brings a payment exactly when its body holds a payment token, and no payment comes
/// from anywhere else.
pub proof fn every_payment_token_is_listed(ms: Seq<PaymentMessageModel>, p: IncomingPaymentModel)
    ensures
        payments_of(ms).contains(p) <==> exists|i: int|
            0 <= i < ms.len() && payment_of(#[trigger] ms[i]) == Some(p),
    decreases ms.len(),
{
    if ms.len() > 0 {
        let rest = ms.drop_last();
        let before = payments_of(rest);
        let now = payments_of(ms);
        every_payment_token_is_listed(rest, p);
        if now.contains(p) {
            let j = choose|j: int| 0 <= j < now.len() && now[j] == p;
            if j < before.len() {
                assert(before[j] == p);
                let i = choose|i: int| 0 <= i < rest.len() && payment_of(#[trigger] rest[i]) == Some(p);
                assert(ms[i] == rest[i]);
            } else {
                assert(ms[ms.len() - 1] == ms.last());
            }
        }
        if exists|i: int| 0 <= i < ms.len() && payment_of(#[trigger] ms[i]) == Some(p) {
            let i = choose|i: int| 0 <= i < ms.len() && payment_of(#[trigger] ms[i]) == Some(p);
            if i < rest.len() {
                assert(rest[i] == ms[i]);
                let j = choose|j: int| 0 <= j < before.len() && before[j] == p;
                assert(now[j] == p);
            } else {
                assert(now[before.len() as int] == p);
            }
        }
    }
}

/// A payment is sent back exactly when it is at least the least refundable amount, and then all of
/// it goes back but the fee, to whom it came from. A smaller one is acknowledged and kept from the
/// wallet.
pub proof fn rejections_refund_all_but_the_fee(payment: IncomingPaymentModel)
    ensures
        payment.token.amount < LEAST_REFUNDABLE <==> rejection(payment) == last_acknowledgement(
            payment.message_id,
        ),
        payment.token.amount >= LEAST_REFUNDABLE ==> {
            &&& rejection(payment) matches RejectStepModel::Accept(s)
            &&& s.accepted(Ok(())) matches Ok(RejectStepModel::Refund(_, recipient, amount))
            &&& recipient == payment.sender
            &&& amount + REJECTION_FEE == payment.token.amount
            &&& amount >= REJECTION_FEE
        },
{
}

/// Whichever step of a rejection fails, the rejection ends there: without an error where the server
/// does not know who asks, and with the error of the step elsewhere.
pub proof fn rejections_put_up_with_unknown_askers(
    accepting: RejectionModel,
    refunding: RefundingModel,
    last: LastAcknowledgementModel,
    e: ErrorModel,
)
    ensures
        is_unauthorized(e) ==> {
            &&& accepting.accepted(Err(e)) == Ok::<_, ErrorModel>(RejectStepModel::Done)
            &&& refunding.refunded(Err(e)) == Ok::<_, ErrorModel>(RejectStepModel::Done)
            &&& last.acknowledged(Err(e)) == Ok::<_, ErrorModel>(())
        },
        !is_unauthorized(e) ==> {
            &&& accepting.accepted(Err(e)) == Err::<RejectStepModel, _>(e)
            &&& refunding.refunded(Err(e)) == Err::<RejectStepModel, _>(e)
            &&& last.acknowledged(Err(e)) == Err::<(), _>(e)
        },
{
}

/// A payment token is never handed over in the clear: at whichever host, the first thing that is
/// asked is that the wallet encrypts the JSON text of the token for the recipient, and what is posted
/// is the envelope of the ciphertext, to the payment inbox of the recipient, without a fee. The
/// recipient is looked up first.
pub proof fn payment_tokens_are_handed_over_encrypted(
    recipient: Seq<char>,
    token: PaymentTokenModel,
    host: Seq<char>,
    a: SendAnswers,
)
    ensures
        payment_message(recipient, token).first_step() matches Ok(MessageStepModel::Resolve(o))
            && match (o.routed(Ok(host)), key_of(recipient)) {
            (Ok(SendStepModel::Encrypt(s, q)), Ok(k)) => {
                &&& q.plaintext == encode_utf8(<PaymentToken as ToJson>::text_of(token))
                &&& q.counterparty == PartyModel::Other(Some(k))
                &&& a.steps(SendStepModel::Encrypt(s, q), 4).last() matches SendStepModel::Post(_, p)
                    ==> p.url == host + "/sendMessage"@ && p.body == (SendMessageRequestModel {
                    message: SendMessageParamsModel {
                        recipient,
                        message_box: "payment_inbox"@,
                        body: envelope_text(a.ciphertext->Ok_0),
                        message_id: hex_text(a.hmac->Ok_0),
                    },
                    payment: None,
                }).json_text()
            },
            (Err(_), Err(_)) => true,
            _ => false,
        },
{
    orders_are_carried_out(
        payment_message(recipient, token),
        host,
        ErrorModel::NotInitialized,
        a,
    );
}

/// What is answered while a payment token is made: the two nonces, the key that the wallet derives,
/// the transaction that it makes, and the transaction once it is complete.
pub struct TokenAnswers {
    pub prefix: Result<Seq<char>, Seq<char>>,
    pub suffix: Result<Seq<char>, Seq<char>>,
    pub key: Result<Seq<char>, Seq<char>>,
    pub action: Result<ActionReplyModel, Seq<char>>,
    pub completed: Result<Option<Seq<u8>>, Seq<char>>,
}

impl TokenAnswers {
    /// The step that follows one when it is answered.
    pub open spec fn follow(self, step: TokenStepModel) -> Result<TokenStepModel, ErrorModel> {
        match step {
            TokenStepModel::Nonce(s) => s.nonce_given(
                if s.prefix is None {
                    self.prefix
                } else {
                    self.suffix
                },
                key_of(s.recipient),
            ),
            TokenStepModel::Derive(d, _) => d.derived(script_to_pay(self.key)),
            TokenStepModel::Create(d, _) => d.created(self.action),
            TokenStepModel::Sign(d, _) => match d.signed(self.completed) {
                Ok(t) => Ok(TokenStepModel::Done(t)),
                Err(e) => Err(e),
            },
            TokenStepModel::Done(_) => Ok(step),
        }
    }

    /// The step that is reached after `n` answers, or the first error.
    pub open spec fn step(self, first: TokenStepModel, n: nat) -> Result<TokenStepModel, ErrorModel>
        decreases n,
    {
        if n == 0 {
            Ok(first)
        } else {
            match self.step(first, (n - 1) as nat) {
                Ok(step) => self.follow(step),
                Err(e) => Err(e),
            }
        }
    }
}

/// Whether a step of making a token asks for what belongs to a payment: a key under both nonces for
/// the recipient; a transaction of one output, which pays the whole amount to that key and tells
/// both nonces in their places; its completion; and in the end a token of the amount, with the
/// transaction and the nonces.
pub open spec fn asks_for_token(
    step: TokenStepModel,
    recipient: Seq<char>,
    amount: u64,
    a: TokenAnswers,
) -> bool {
    let told = PaymentCustomInstructionsModel {
        derivation_prefix: a.prefix->Ok_0,
        derivation_suffix: a.suffix->Ok_0,
        payee: Some(recipient),
    };
    match step {
        TokenStepModel::Nonce(_) => true,
        TokenStepModel::Derive(_, q) => {
            &&& a.prefix is Ok && a.suffix is Ok && key_of(recipient) is Ok
            &&& q.identity_key == false
            &&& q.protocol matches Some(p)
            &&& p.security_level == 2 && p.name == "3241645161d8"@
            &&& q.key_id == Some(a.prefix->Ok_0 + seq![' '] + a.suffix->Ok_0)
            &&& q.counterparty == Some(PartyModel::Other(Some(key_of(recipient)->Ok_0)))
            &&& q.for_self is None
        },
        TokenStepModel::Create(_, q) => {
            &&& a.key matches Ok(k)
            &&& payment_script_of(k) matches Ok(script)
            &&& q.outputs.len() == 1
            &&& q.outputs[0].satoshis == amount
            &&& q.outputs[0].locking_script == script
            &&& q.outputs[0].custom_instructions == Some(
                <PaymentCustomInstructions as ToJson>::text_of(told),
            )
            &&& q.outputs[0].basket is None
            &&& q.inputs.len() == 0 && q.input_beef is None
            &&& q.randomize_outputs == Some(false)
            &&& q.labels == seq!["peerpay"@]
        },
        TokenStepModel::Sign(_, q) => {
            &&& a.action matches Ok(r)
            &&& r.tx is None && r.signable is Some
            &&& q.reference == r.signable->0.reference
            &&& q.spends.len() == 0
        },
        TokenStepModel::Done(t) => {
            &&& t.amount == amount
            &&& t.custom_instructions == told
            &&& t.output_index is None
            &&& a.action matches Ok(r)
            &&& t.transaction == (match r.tx {
                Some(tx) => tx,
                None => a.completed->Ok_0->0,
            })
        },
    }
}

/// The whole way of a payment token, whatever is answered: at every step what is asked for belongs
/// to the payment, and when every answer is good the token is made.
pub proof fn tokens_are_made_as_ordered(
    recipient: Seq<char>,
    amount: u64,
    a: TokenAnswers,
    n: nat,
)
    ensures
        a.step(
            TokenStepModel::Nonce(TokenStartModel { recipient, amount, prefix: None }),
            n,
        ) matches Ok(step) ==> asks_for_token(step, recipient, amount, a),
        key_of(recipient) is Ok && a.prefix is Ok && a.suffix is Ok && (a.key matches Ok(k)
            && payment_script_of(k) is Ok) && (a.action matches Ok(r) && (r.tx is Some || r.signable
            is Some && a.completed matches Ok(Some(_)))) ==> (a.step(
            TokenStepModel::Nonce(TokenStartModel { recipient, amount, prefix: None }),
            5,
        ) matches Ok(TokenStepModel::Done(_))),
{
    token_steps_go_on(recipient, amount, a, n);
    reveal_with_fuel(TokenAnswers::step, 6);
}

proof fn token_steps_go_on(recipient: Seq<char>, amount: u64, a: TokenAnswers, n: nat)
    ensures
        a.step(
            TokenStepModel::Nonce(TokenStartModel { recipient, amount, prefix: None }),
            n,
        ) matches Ok(step) ==> asks_for_token(step, recipient, amount, a) && match step {
            TokenStepModel::Nonce(s) => s.recipient == recipient && s.amount == amount && (s.prefix
                is Some ==> a.prefix == Ok::<_, Seq<char>>(s.prefix->0)),
            TokenStepModel::Derive(d, _) | TokenStepModel::Create(d, _) | TokenStepModel::Sign(
                d,
                _,
            ) => d.recipient == recipient && d.amount == amount && a.prefix == Ok::<_, Seq<char>>(
                d.prefix,
            ) && a.suffix == Ok::<_, Seq<char>>(d.suffix),
            TokenStepModel::Done(_) => true,
        },
    decreases n,
{
    if n > 0 {
        token_steps_go_on(recipient, amount, a, (n - 1) as nat);
    }
}

/// A payment is taken in with the transaction of its token, at the place that the token tells or
/// else the first, under both parts of its key identifier, each in its own place, and from its
/// sender. It is refused exactly when one of these cannot be read.
pub proof fn payments_are_taken_in_as_sent(
    payment: IncomingPaymentModel,
    sender: Result<Seq<char>, Seq<char>>,
    prefix: Result<Seq<u8>, Seq<char>>,
    suffix: Result<Seq<u8>, Seq<char>>,
)
    ensures
        accept_model(payment, sender, prefix, suffix) is Ok <==> sender is Ok && prefix is Ok
            && suffix is Ok,
        accept_model(payment, sender, prefix, suffix) matches Ok(q) ==> {
            &&& q.tx == payment.token.transaction
            &&& q.outputs.len() == 1
            &&& payment.token.output_index is Some ==> q.outputs[0].output_index
                == payment.token.output_index->0
            &&& payment.token.output_index is None ==> q.outputs[0].output_index == 0
            &&& prefix == Ok::<_, Seq<char>>(q.outputs[0].derivation_prefix)
            &&& suffix == Ok::<_, Seq<char>>(q.outputs[0].derivation_suffix)
            &&& sender == Ok::<_, Seq<char>>(q.outputs[0].sender_identity_key)
            &&& q.labels == seq!["peerpay"@]
            &&& q.seek_permission == Some(true)
        },
{
}

/// The payments of some messages come in the order of the messages, one for each with a token, and
/// each tells the token, the sender and the name of its own message.
pub proof fn payments_are_listed_as_sent(ms: Seq<PaymentMessageModel>)
    ensures
        ({
            let paying = ms.filter(|m: PaymentMessageModel| m.token is Some);
            &&& payments_of(ms).len() == paying.len()
            &&& forall|i: int|
                0 <= i < paying.len() ==> {
                    &&& paying[i].token == Some((#[trigger] payments_of(ms)[i]).token)
                    &&& paying[i].message.sender == payments_of(ms)[i].sender
                    &&& paying[i].message.message_id == payments_of(ms)[i].message_id
                }
        }),
    decreases ms.len(),
{
    reveal(Seq::filter);
    if ms.len() > 0 {
        let rest = ms.drop_last();
        let f = |m: PaymentMessageModel| m.token is Some;
        payments_are_listed_as_sent(rest);
        assert forall|i: int| 0 <= i < ms.filter(f).len() implies {
            &&& ms.filter(f)[i].token == Some((#[trigger] payments_of(ms)[i]).token)
            &&& ms.filter(f)[i].message.sender == payments_of(ms)[i].sender
            &&& ms.filter(f)[i].message.message_id == payments_of(ms)[i].message_id
        } by {
            if i < rest.filter(f).len() {
                assert(payments_of(ms)[i] == payments_of(rest)[i]);
            }
        }
    }
}

/// The whole way of a rejection without errors: a payment below two thousand satoshis is
/// acknowledged and nothing else; any other is accepted, all but one thousand satoshis of it is
/// paid back to its sender, and then it is acknowledged. What is acknowledged is the message that
/// brought the payment.
pub proof fn rejections_send_back_and_acknowledge(payment: IncomingPaymentModel, id: Seq<char>)
    ensures
        payment.token.amount < 2000 ==> (rejection(payment) matches RejectStepModel::Acknowledge(
            last,
            ids,
        ) && ids == seq![payment.message_id] && last.acknowledged(Ok(())) is Ok),
        payment.token.amount >= 2000 ==> {
            &&& rejection(payment) matches RejectStepModel::Accept(s)
            &&& s.accepted(Ok(())) matches Ok(RejectStepModel::Refund(refunding, to, amount))
            &&& to == payment.sender
            &&& amount == payment.token.amount - 1000
            &&& refunding.refunded(Ok(id)) matches Ok(RejectStepModel::Acknowledge(last, ids))
            &&& ids == seq![payment.message_id]
            &&& last.acknowledged(Ok(())) is Ok
        },
{
}

/// An error says that the server does not know who asks exactly when it is the status code for that,
/// or an authentication error that names the code.
pub proof fn unknown_askers_are_told_by_the_code(e: ErrorModel)
    ensures
        is_unauthorized(e) <==> match e {
            ErrorModel::Http(status, _) => status == 401,
            ErrorModel::Auth(s) => exists|i: int|
                0 <= i <= s.len() - 3 && #[trigger] s[i] == '4' && s[i + 1] == '0' && s[i + 2]
                    == '1',
            _ => false,
        },
{
    reveal_strlit("401");
    if let ErrorModel::Auth(s) = e {
        if contains_text(s, "401"@) {
            let i = choose|i: int| occurs_at(s, "401"@, i);
            let part = s.subrange(i, i + 3);
            assert(part[0] == s[i] && part[1] == s[i + 1] && part[2] == s[i + 2]);
        }
        if exists|i: int|
            0 <= i <= s.len() - 3 && #[trigger] s[i] == '4' && s[i + 1] == '0' && s[i + 2] == '1' {
            let i = choose|i: int|
                0 <= i <= s.len() - 3 && #[trigger] s[i] == '4' && s[i + 1] == '0' && s[i + 2]
                    == '1';
            assert(s.subrange(i, i + 3) =~= "401"@);
            assert(occurs_at(s, "401"@, i));
        }
    }
}

/// A payment token that cannot be made ends with the failure that stopped it: a nonce that is not
/// given as one of the authentication, and everything else as one of the wallet.
pub proof fn token_failures_are_told(
    s: TokenStartModel,
    d: TokenDraftModel,
    recipient: Result<Seq<char>, Seq<char>>,
    nonce: Seq<char>,
    e: Seq<char>,
)
    ensures
        s.nonce_given(Err(e), recipient) matches Err(ErrorModel::Auth(t)) && t == (if s.prefix
            is None {
            "create_nonce prefix: "@ + e
        } else {
            "create_nonce suffix: "@ + e
        }),
        s.prefix is Some && recipient is Err ==> s.nonce_given(Ok(nonce), recipient) == Err::<
            TokenStepModel,
            _,
        >(ErrorModel::Wallet(recipient->Err_0)),
        d.derived(Err(e)) == Err::<TokenStepModel, _>(ErrorModel::Wallet(e)),
        d.derived(Ok(Err(e))) matches Err(ErrorModel::Wallet(_)),
        d.created(Err(e)) == Err::<TokenStepModel, _>(ErrorModel::Wallet(e)),
        d.created(Ok(ActionReplyModel { tx: None, signable: None })) matches Err(
            ErrorModel::Wallet(_),
        ),
        d.signed(Err(e)) == Err::<PaymentTokenModel, _>(ErrorModel::Wallet(e)),
        d.signed(Ok(None)) matches Err(ErrorModel::Wallet(_)),
        script_to_pay(Err(e)) == Err::<Result<Seq<u8>, Seq<char>>, _>(e),
        script_to_pay(Ok(nonce)) == Ok::<_, Seq<char>>(payment_script_of(nonce)),
{
}

/// A payment that cannot be taken in is refused for the first thing that cannot be read: its
/// sender, then the first part of its key identifier, then the second.
pub proof fn unreadable_payments_are_refused(
    payment: IncomingPaymentModel,
    sender: Result<Seq<char>, Seq<char>>,
    prefix: Result<Seq<u8>, Seq<char>>,
    suffix: Result<Seq<u8>, Seq<char>>,
)
    ensures
        sender matches Err(e) ==> accept_model(payment, sender, prefix, suffix)->Err_0
            == ErrorModel::Wallet("invalid sender key: "@ + e),
        sender is Ok && prefix is Err ==> accept_model(payment, sender, prefix, suffix)->Err_0
            == ErrorModel::Wallet("base64 decode prefix: "@ + prefix->Err_0),
        sender is Ok && prefix is Ok && suffix is Err ==> accept_model(
            payment,
            sender,
            prefix,
            suffix,
        )->Err_0 == ErrorModel::Wallet("base64 decode suffix: "@ + suffix->Err_0),
{
}

/// A payment token goes to the payment inbox of its recipient as its JSON text, encrypted, without
/// asking for fees, and to wherever the recipient is.
pub proof fn payment_messages_are_encrypted(recipient: Seq<char>, token: PaymentTokenModel)
    ensures
        !payment_message(recipient, token).skip_encryption,
        !payment_message(recipient, token).check_permissions,
        payment_message(recipient, token).recipient == recipient,
        payment_message(recipient, token).message_box == "payment_inbox"@,
        payment_message(recipient, token).body == token.json_text(),
        payment_message(recipient, token).host is None,
        payment_message(recipient, token).message_id is None,
{
}

} // verus!
