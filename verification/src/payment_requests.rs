//! Requests for payments: making and cancelling one, answering one, and who may ask.
//!
//! A request carries a proof, a keyed hash that only the two peers can make. It ties the request
//! to who asks and to who is asked.

use crate::chain::{key_of, public_key};
use crate::client::MessageBoxClient;
use crate::codec::{hex_encode, hex_text, hex_text_reads_back};
use crate::error::{ErrorModel, MessageBoxError};
use crate::json::ToJson;
use crate::sending::{MessageOrder, MessageOrderModel};
use crate::text::{joined, opt_view, result_view, views};
use crate::types::{
    fee_status, IncomingPaymentRequest, IncomingPaymentRequestModel, MessageBoxPermission,
    MessageBoxPermissionModel, PaymentRequestMessage, PaymentRequestMessageModel,
    PaymentRequestResponse, PaymentRequestResponseModel, PaymentRequestResult,
    PaymentRequestResultModel, PeerMessage, PeerMessageModel, SetPermissionParams,
    SetPermissionParamsModel, PAYMENT_REQUESTS_MESSAGEBOX, PAYMENT_REQUEST_RESPONSES_MESSAGEBOX,
};
use crate::wallet::{
    other, protocol, request_proof_protocol, HmacRequest, HmacRequestModel, PartyModel,
};
use vstd::prelude::*;
use vstd::string::*;
use vstd::utf8::*;

verus! {

broadcast use vstd::string::group_string_axioms;

/// A message of the request box, with the request that its body holds, if it holds one.
#[derive(Clone, Debug)]
pub struct RequestMessage {
    /// The message.
    pub message: PeerMessage,
    /// The request, or the cancellation of one.
    pub request: Option<PaymentRequestMessage>,
}

/// The contents of a `RequestMessage`.
#[verifier::ext_equal]
pub struct RequestMessageModel {
    pub message: PeerMessageModel,
    pub request: Option<PaymentRequestMessageModel>,
}

impl View for RequestMessage {
    type V = RequestMessageModel;

    open spec fn view(&self) -> RequestMessageModel {
        RequestMessageModel {
            message: self.message@,
            request: opt_view(self.request),
        }
    }
}

/// A request for a payment before it is named.
pub struct RequestStart {
    /// Who is asked to pay.
    recipient: String,
    /// What is asked, in satoshis.
    amount: u64,
    /// What it is for.
    description: String,
    /// When it ends, in milliseconds since the epoch.
    expires_at: u64,
}

/// The contents of a `RequestStart`.
#[verifier::ext_equal]
pub struct RequestStartModel {
    pub recipient: Seq<char>,
    pub amount: u64,
    pub description: Seq<char>,
    pub expires_at: u64,
}

impl View for RequestStart {
    type V = RequestStartModel;

    closed spec fn view(&self) -> RequestStartModel {
        RequestStartModel {
            recipient: self.recipient@,
            amount: self.amount,
            description: self.description@,
            expires_at: self.expires_at,
        }
    }
}

/// A request for a payment that has its name.
pub struct RequestNamed {
    /// What is asked.
    start: RequestStart,
    /// Its name.
    request_id: String,
}

/// The contents of a `RequestNamed`.
#[verifier::ext_equal]
pub struct RequestNamedModel {
    pub start: RequestStartModel,
    pub request_id: Seq<char>,
}

impl View for RequestNamed {
    type V = RequestNamedModel;

    closed spec fn view(&self) -> RequestNamedModel {
        RequestNamedModel {
            start: self.start@,
            request_id: self.request_id@,
        }
    }
}

/// A request for a payment that waits for its proof.
pub struct RequestDraft {
    /// What is asked.
    start: RequestStart,
    /// Its name.
    request_id: String,
    /// Who asks.
    sender_identity_key: String,
}

/// The contents of a `RequestDraft`.
#[verifier::ext_equal]
pub struct RequestDraftModel {
    pub start: RequestStartModel,
    pub request_id: Seq<char>,
    pub sender_identity_key: Seq<char>,
}

impl View for RequestDraft {
    type V = RequestDraftModel;

    closed spec fn view(&self) -> RequestDraftModel {
        RequestDraftModel {
            start: self.start@,
            request_id: self.request_id@,
            sender_identity_key: self.sender_identity_key@,
        }
    }
}

/// A request for a payment that was handed on.
pub struct RequestSent {
    /// Its name.
    request_id: String,
    /// Its proof.
    request_proof: String,
}

/// The contents of a `RequestSent`.
#[verifier::ext_equal]
pub struct RequestSentModel {
    pub request_id: Seq<char>,
    pub request_proof: Seq<char>,
}

impl View for RequestSent {
    type V = RequestSentModel;

    closed spec fn view(&self) -> RequestSentModel {
        RequestSentModel {
            request_id: self.request_id@,
            request_proof: self.request_proof@,
        }
    }
}

/// An answer to a request for a payment.
pub struct Answer {
    /// Who asked.
    sender: String,
    /// The message that brought the request.
    message_id: String,
    /// The request.
    request_id: String,
    /// What became of the request.
    status: String,
    /// What was paid, in satoshis.
    amount_paid: Option<u64>,
    /// A note for who asked.
    note: Option<String>,
    /// The host to answer at, in place of the own choice.
    host: Option<String>,
}

/// The contents of a `Answer`.
#[verifier::ext_equal]
pub struct AnswerModel {
    pub sender: Seq<char>,
    pub message_id: Seq<char>,
    pub request_id: Seq<char>,
    pub status: Seq<char>,
    pub amount_paid: Option<u64>,
    pub note: Option<Seq<char>>,
    pub host: Option<Seq<char>>,
}

impl View for Answer {
    type V = AnswerModel;

    closed spec fn view(&self) -> AnswerModel {
        AnswerModel {
            sender: self.sender@,
            message_id: self.message_id@,
            request_id: self.request_id@,
            status: self.status@,
            amount_paid: self.amount_paid,
            note: opt_view(self.note),
            host: opt_view(self.host),
        }
    }
}

// ---------------------------------------------------------------------------------------------
// Asking
// ---------------------------------------------------------------------------------------------

/// The next step of asking for a payment.
pub enum RequestStep {
    /// Ask for a nonce, to name the request by.
    Nonce(RequestStart),
    /// Ask for the own identity key.
    Identify(RequestNamed),
    /// Ask for the proof.
    Prove(RequestDraft, HmacRequest),
    /// Send the request.
    Send(RequestSent, MessageOrder),
}

/// The contents of a `RequestStep`.
#[verifier::ext_equal]
pub enum RequestStepModel {
    Nonce(RequestStartModel),
    Identify(RequestNamedModel),
    Prove(RequestDraftModel, HmacRequestModel),
    Send(RequestSentModel, MessageOrderModel),
}

impl View for RequestStep {
    type V = RequestStepModel;

    open spec fn view(&self) -> RequestStepModel {
        match self {
            RequestStep::Nonce(s) => RequestStepModel::Nonce(s@),
            RequestStep::Identify(s) => RequestStepModel::Identify(s@),
            RequestStep::Prove(s, q) => RequestStepModel::Prove(s@, q@),
            RequestStep::Send(s, m) => RequestStepModel::Send(s@, m@),
        }
    }
}

/// What the proof of a request is made over: the name of the request and who is asked.
pub open spec fn proof_data(request_id: Seq<char>, recipient: Seq<char>) -> Seq<u8> {
    encode_utf8(request_id + recipient)
}

/// The message that brings a request, or the cancellation of one.
pub open spec fn request_message(
    recipient: Seq<char>,
    request: PaymentRequestMessageModel,
    host: Option<Seq<char>>,
) -> MessageOrderModel {
    MessageOrderModel {
        recipient,
        message_box: PAYMENT_REQUESTS_MESSAGEBOX@,
        body: <PaymentRequestMessage as ToJson>::text_of(request),
        host,
        skip_encryption: false,
        check_permissions: false,
        message_id: None,
    }
}

impl RequestStartModel {
    /// The first step of asking for a payment. Nothing cannot be asked for.
    pub open spec fn first_step(self) -> Result<RequestStepModel, ErrorModel> {
        if self.amount == 0 {
            Err(ErrorModel::Validation("Payment request amount must be greater than 0"@))
        } else {
            Ok(RequestStepModel::Nonce(self))
        }
    }

    /// The step after a nonce was given.
    pub open spec fn nonce_given(self, reply: Result<Seq<char>, Seq<char>>) -> Result<
        RequestStepModel,
        ErrorModel,
    > {
        match reply {
            Err(e) => Err(ErrorModel::Auth("create_nonce request_id: "@ + e)),
            Ok(n) => Ok(
                RequestStepModel::Identify(RequestNamedModel { start: self, request_id: n }),
            ),
        }
    }
}

impl RequestNamedModel {
    /// The step after the own identity key was given, when the recipient's key reads as given.
    pub open spec fn identified(
        self,
        identity: Result<Seq<char>, ErrorModel>,
        recipient: Result<Seq<char>, Seq<char>>,
    ) -> Result<RequestStepModel, ErrorModel> {
        match (identity, recipient) {
            (Err(e), _) => Err(e),
            (Ok(_), Err(e)) => Err(ErrorModel::Auth("invalid recipient key: "@ + e)),
            (Ok(me), Ok(key)) => Ok(
                RequestStepModel::Prove(
                    RequestDraftModel {
                        start: self.start,
                        request_id: self.request_id,
                        sender_identity_key: me,
                    },
                    HmacRequestModel {
                        data: proof_data(self.request_id, self.start.recipient),
                        protocol: request_proof_protocol(),
                        key_id: self.request_id,
                        counterparty: PartyModel::Other(Some(key)),
                    },
                ),
            ),
        }
    }
}

impl RequestDraftModel {
    /// The request with its proof.
    pub open spec fn request(self, hmac: Seq<u8>) -> PaymentRequestMessageModel {
        PaymentRequestMessageModel {
            request_id: self.request_id,
            sender_identity_key: self.sender_identity_key,
            request_proof: hex_text(hmac),
            amount: Some(self.start.amount),
            description: Some(self.start.description),
            expires_at: Some(self.start.expires_at),
            cancelled: None,
        }
    }

    /// The step after the wallet answered with the proof.
    pub open spec fn proven(self, reply: Result<Seq<u8>, Seq<char>>) -> Result<
        RequestStepModel,
        ErrorModel,
    > {
        match reply {
            Err(e) => Err(ErrorModel::Wallet(e)),
            Ok(hmac) => Ok(
                RequestStepModel::Send(
                    RequestSentModel {
                        request_id: self.request_id,
                        request_proof: hex_text(hmac),
                    },
                    request_message(self.start.recipient, self.request(hmac), None),
                ),
            ),
        }
    }
}

impl RequestSentModel {
    /// The outcome after the request was sent. A recipient can refuse to be asked.
    pub open spec fn sent(self, outcome: Result<Seq<char>, ErrorModel>) -> Result<
        PaymentRequestResultModel,
        ErrorModel,
    > {
        match outcome {
            Ok(_) => Ok(
                PaymentRequestResultModel {
                    request_id: self.request_id,
                    request_proof: self.request_proof,
                },
            ),
            Err(ErrorModel::Http(403, _)) => Err(
                ErrorModel::Validation(
                    "Payment request blocked — you are not on the recipient's whitelist."@,
                ),
            ),
            Err(e) => Err(e),
        }
    }
}

impl MessageBoxClient {
    /// The first step of asking a recipient for a payment.
    pub fn request_payment(
        &self,
        recipient: &str,
        amount: u64,
        description: &str,
        expires_at: u64,
    ) -> (r:
        Result<RequestStep, MessageBoxError>)
        ensures
            result_view(r) == (RequestStartModel {
                recipient: recipient@,
                amount,
                description: description@,
                expires_at,
            }).first_step(),
    {
        if amount == 0 {
            Err(
                MessageBoxError::Validation(
                    "Payment request amount must be greater than 0".to_owned(),
                ),
            )
        } else {
            Ok(
                RequestStep::Nonce(
                    RequestStart {
                        recipient: recipient.to_owned(),
                        amount,
                        description: description.to_owned(),
                        expires_at,
                    },
                ),
            )
        }
    }
}

impl RequestStart {
    /// The step after a nonce was given.
    pub fn nonce_given(self, reply: Result<String, String>) -> (r: Result<
        RequestStep,
        MessageBoxError,
    >)
        ensures
            result_view(r) == self@.nonce_given(result_view(reply)),
    {
        match reply {
            Err(e) => Err(MessageBoxError::Auth(joined("create_nonce request_id: ", e.as_str()))),
            Ok(n) => Ok(RequestStep::Identify(RequestNamed { start: self, request_id: n })),
        }
    }
}

impl RequestNamed {
    /// The step after the own identity key was given, when the recipient's key reads as given.
    pub fn identified_for(
        self,
        identity: Result<String, MessageBoxError>,
        recipient: Result<String, String>,
    ) -> (r: Result<RequestStep, MessageBoxError>)
        ensures
            result_view(r) == self@.identified(result_view(identity), result_view(recipient)),
    {
        let me = match identity {
            Err(e) => {
                return Err(e);
            },
            Ok(me) => me,
        };
        match recipient {
            Err(e) => Err(MessageBoxError::Auth(joined("invalid recipient key: ", e.as_str()))),
            Ok(key) => {
                let data = joined(self.request_id.as_str(), self.start.recipient.as_str());
                let q = HmacRequest {
                    data: data.as_str().as_bytes_vec(),
                    protocol: protocol(2, "payment request auth"),
                    key_id: self.request_id.clone(),
                    counterparty: other(key),
                };
                Ok(
                    RequestStep::Prove(
                        RequestDraft {
                            start: self.start,
                            request_id: self.request_id,
                            sender_identity_key: me,
                        },
                        q,
                    ),
                )
            },
        }
    }

    /// The step after the own identity key was given.
    pub fn identified(self, identity: Result<String, MessageBoxError>) -> (r: Result<
        RequestStep,
        MessageBoxError,
    >)
        ensures
            result_view(r) == self@.identified(
                result_view(identity),
                key_of(self@.start.recipient),
            ),
    {
        let key = public_key(self.start.recipient.as_str());
        self.identified_for(identity, key)
    }
}

impl RequestDraft {
    /// The step after the wallet answered with the proof.
    pub fn proven(self, reply: Result<Vec<u8>, String>) -> (r: Result<RequestStep, MessageBoxError>)
        ensures
            result_view(r) == self@.proven(result_view(reply)),
    {
        match reply {
            Err(e) => Err(MessageBoxError::Wallet(e)),
            Ok(hmac) => {
                let ghost model = self@;
                let request_proof = hex_encode(hmac.as_slice());
                let request_id = self.request_id.clone();
                let request = PaymentRequestMessage {
                    request_id: self.request_id,
                    sender_identity_key: self.sender_identity_key,
                    request_proof: request_proof.clone(),
                    amount: Some(self.start.amount),
                    description: Some(self.start.description),
                    expires_at: Some(self.start.expires_at),
                    cancelled: None,
                };
                assert(request@ == model.request(hmac@));
                let m = MessageOrder {
                    recipient: self.start.recipient,
                    message_box: PAYMENT_REQUESTS_MESSAGEBOX.to_owned(),
                    body: request.to_json(),
                    host: None,
                    skip_encryption: false,
                    check_permissions: false,
                    message_id: None,
                };
                Ok(RequestStep::Send(RequestSent { request_id, request_proof }, m))
            },
        }
    }
}

impl RequestSent {
    /// The outcome after the request was sent, or could not be.
    pub fn sent(self, outcome: Result<String, MessageBoxError>) -> (r: Result<
        PaymentRequestResult,
        MessageBoxError,
    >)
        ensures
            result_view(r) == self@.sent(result_view(outcome)),
    {
        match outcome {
            Ok(_) => Ok(
                PaymentRequestResult {
                    request_id: self.request_id,
                    request_proof: self.request_proof,
                },
            ),
            Err(MessageBoxError::Http(403, _)) => Err(
                MessageBoxError::Validation(
                    "Payment request blocked — you are not on the recipient's whitelist.".to_owned(),
                ),
            ),
            Err(e) => Err(e),
        }
    }
}

/// The cancellation of a request. It carries the proof of the request.
pub open spec fn cancellation(
    sender_identity_key: Seq<char>,
    request_id: Seq<char>,
    request_proof: Seq<char>,
) -> PaymentRequestMessageModel {
    PaymentRequestMessageModel {
        request_id,
        sender_identity_key,
        request_proof,
        amount: None,
        description: None,
        expires_at: None,
        cancelled: Some(true),
    }
}

impl MessageBoxClient {
    /// The message that cancels a request which was sent before.
    pub fn cancel_payment_request(
        &self,
        sender_identity_key: &str,
        recipient: &str,
        request_id: &str,
        request_proof: &str,
        host_override: Option<&str>,
    ) -> (r: MessageOrder)
        ensures
            r@ == request_message(
                recipient@,
                cancellation(sender_identity_key@, request_id@, request_proof@),
                opt_view(host_override),
            ),
    {
        let request = PaymentRequestMessage {
            request_id: request_id.to_owned(),
            sender_identity_key: sender_identity_key.to_owned(),
            request_proof: request_proof.to_owned(),
            amount: None,
            description: None,
            expires_at: None,
            cancelled: Some(true),
        };
        MessageOrder {
            recipient: recipient.to_owned(),
            message_box: PAYMENT_REQUESTS_MESSAGEBOX.to_owned(),
            body: request.to_json(),
            host: match host_override {
                Some(h) => Some(h.to_owned()),
                None => None,
            },
            skip_encryption: false,
            check_permissions: false,
            message_id: None,
        }
    }
}

// ---------------------------------------------------------------------------------------------
// Reading
// ---------------------------------------------------------------------------------------------

/// Whether a message is a whole request, or a whole cancellation of one.
pub open spec fn is_whole_request(m: PaymentRequestMessageModel) -> bool {
    &&& m.request_id.len() > 0
    &&& m.sender_identity_key.len() > 0
    &&& m.request_proof.len() > 0
    &&& m.cancelled == Some(true) || (m.amount is Some && m.description is Some && m.expires_at
        is Some)
}

fn is_blank(s: &String) -> (r: bool)
    ensures
        r == (s@.len() == 0),
{
    s.as_str().unicode_len() == 0
}

/// Whether a message is a whole request, or a whole cancellation of one.
pub fn is_valid_payment_request(msg: &PaymentRequestMessage) -> (r: bool)
    ensures
        r == is_whole_request(msg@),
{
    if is_blank(&msg.request_id) || is_blank(&msg.sender_identity_key) || is_blank(
        &msg.request_proof,
    ) {
        return false;
    }
    if let Some(true) = msg.cancelled {
        return true;
    }
    msg.amount.is_some() && msg.description.is_some() && msg.expires_at.is_some()
}

/// The request that a message brings: none, when it brings a cancellation or lacks a part.
pub open spec fn incoming_request(message: PeerMessageModel, request: PaymentRequestMessageModel) -> Option<
    IncomingPaymentRequestModel,
> {
    if request.cancelled == Some(true) {
        None
    } else {
        match (request.amount, request.description, request.expires_at) {
            (Some(amount), Some(description), Some(expires_at)) => Some(
                IncomingPaymentRequestModel {
                    message_id: message.message_id,
                    sender: message.sender,
                    request_id: request.request_id,
                    amount,
                    description,
                    expires_at,
                },
            ),
            _ => None,
        }
    }
}

/// The request that a live message brings, if its body holds one.
pub open spec fn live_request_model(m: RequestMessageModel) -> Option<IncomingPaymentRequestModel> {
    match m.request {
        Some(request) => incoming_request(m.message, request),
        None => None,
    }
}

/// The request that a live message brings. A body that holds none, or a cancellation, is passed
/// over.
pub fn live_payment_request(m: RequestMessage) -> (r: Option<IncomingPaymentRequest>)
    ensures
        opt_view(r) == live_request_model(m@),
{
    let request = match m.request {
        None => {
            return None;
        },
        Some(request) => request,
    };
    if let Some(true) = request.cancelled {
        return None;
    }
    match (request.amount, request.description, request.expires_at) {
        (Some(amount), Some(description), Some(expires_at)) => Some(
            IncomingPaymentRequest {
                message_id: m.message.message_id,
                sender: m.message.sender,
                request_id: request.request_id,
                amount,
                description,
                expires_at,
            },
        ),
        _ => None,
    }
}

/// The responses among what bodies hold, in their order.
pub open spec fn responses_of(bodies: Seq<Option<PaymentRequestResponse>>) -> Seq<
    PaymentRequestResponseModel,
>
    decreases bodies.len(),
{
    if bodies.len() == 0 {
        Seq::empty()
    } else {
        let before = responses_of(bodies.drop_last());
        match bodies.last() {
            Some(response) => before.push(response@),
            None => before,
        }
    }
}

impl MessageBoxClient {
    /// The responses to the own requests. A body that holds none is passed over.
    pub fn list_payment_request_responses(&self, bodies: Vec<Option<PaymentRequestResponse>>) -> (r: Vec<
        PaymentRequestResponse,
    >)
        ensures
            views(r@) == responses_of(bodies@),
    {
        let ghost all = bodies@;
        let mut r: Vec<PaymentRequestResponse> = Vec::new();
        assert(views(r@) =~= responses_of(all.take(0)));
        for body in it: bodies
            invariant
                it.seq() == all,
                views(r@) == responses_of(all.take(it.index() as int)),
        {
            let ghost n = it.index() as int;
            let ghost before = views(r@);
            assert(all.take(n + 1).drop_last() =~= all.take(n));
            if let Some(response) = body {
                r.push(response);
                assert(views(r@) =~= before.push(response@));
            }
        }
        assert(all.take(all.len() as int) =~= all);
        r
    }
}

// ---------------------------------------------------------------------------------------------
// Answering
// ---------------------------------------------------------------------------------------------

/// The next step of answering a request.
pub enum AnswerStep {
    /// Pay this amount to who asked.
    Pay(Answer, String, u64),
    /// Send the response.
    Respond(Answer, MessageOrder),
    /// Acknowledge the request, at this host in place of the own choice. That ends the answer.
    Acknowledge(Vec<String>, Option<String>),
}

/// The contents of a `AnswerStep`.
#[verifier::ext_equal]
pub enum AnswerStepModel {
    Pay(AnswerModel, Seq<char>, u64),
    Respond(AnswerModel, MessageOrderModel),
    Acknowledge(Seq<Seq<char>>, Option<Seq<char>>),
}

impl View for AnswerStep {
    type V = AnswerStepModel;

    open spec fn view(&self) -> AnswerStepModel {
        match self {
            AnswerStep::Pay(a, recipient, amount) => AnswerStepModel::Pay(a@, recipient@, *amount),
            AnswerStep::Respond(a, m) => AnswerStepModel::Respond(a@, m@),
            AnswerStep::Acknowledge(ids, host) => AnswerStepModel::Acknowledge(
                views(ids@),
                opt_view(*host),
            ),
        }
    }
}

impl AnswerModel {
    /// An answer to a request.
    pub open spec fn to(
        request: IncomingPaymentRequestModel,
        status: Seq<char>,
        amount_paid: Option<u64>,
        note: Option<Seq<char>>,
        host: Option<Seq<char>>,
    ) -> AnswerModel {
        AnswerModel {
            sender: request.sender,
            message_id: request.message_id,
            request_id: request.request_id,
            status,
            amount_paid,
            note,
            host,
        }
    }

    /// The step that sends the response.
    pub open spec fn respond(self) -> AnswerStepModel {
        AnswerStepModel::Respond(
            self,
            MessageOrderModel {
                recipient: self.sender,
                message_box: PAYMENT_REQUEST_RESPONSES_MESSAGEBOX@,
                body: <PaymentRequestResponse as ToJson>::text_of(
                    PaymentRequestResponseModel {
                        request_id: self.request_id,
                        status: self.status,
                        note: self.note,
                        amount_paid: self.amount_paid,
                    },
                ),
                host: self.host,
                skip_encryption: false,
                check_permissions: false,
                message_id: None,
            },
        )
    }

    /// The step after the payment was sent, or could not be.
    pub open spec fn paid(self, outcome: Result<Seq<char>, ErrorModel>) -> Result<
        AnswerStepModel,
        ErrorModel,
    > {
        match outcome {
            Err(e) => Err(e),
            Ok(_) => Ok(self.respond()),
        }
    }

    /// The step after the response was sent, or could not be.
    pub open spec fn responded(self, outcome: Result<Seq<char>, ErrorModel>) -> Result<
        AnswerStepModel,
        ErrorModel,
    > {
        match outcome {
            Err(e) => Err(e),
            Ok(_) => Ok(AnswerStepModel::Acknowledge(seq![self.message_id], self.host)),
        }
    }
}

fn own(text: Option<&str>) -> (r: Option<String>)
    ensures
        opt_view(r) == opt_view(text),
{
    match text {
        Some(s) => Some(s.to_owned()),
        None => None,
    }
}

impl MessageBoxClient {
    /// The first step of paying what a request asks for.
    pub fn fulfill_payment_request(
        &self,
        request: &IncomingPaymentRequest,
        note: Option<&str>,
        host_override: Option<&str>,
    ) -> (r: AnswerStep)
        ensures
            r@ == AnswerStepModel::Pay(
                AnswerModel::to(
                    request@,
                    "paid"@,
                    Some(request.amount),
                    opt_view(note),
                    opt_view(host_override),
                ),
                request@.sender,
                request.amount,
            ),
    {
        let answer = Answer {
            sender: request.sender.clone(),
            message_id: request.message_id.clone(),
            request_id: request.request_id.clone(),
            status: "paid".to_owned(),
            amount_paid: Some(request.amount),
            note: own(note),
            host: own(host_override),
        };
        AnswerStep::Pay(answer, request.sender.clone(), request.amount)
    }

    /// The first step of declining a request.
    pub fn decline_payment_request(
        &self,
        request: &IncomingPaymentRequest,
        note: Option<&str>,
        host_override: Option<&str>,
    ) -> (r: AnswerStep)
        ensures
            r@ == AnswerModel::to(
                request@,
                "declined"@,
                None,
                opt_view(note),
                opt_view(host_override),
            ).respond(),
    {
        let answer = Answer {
            sender: request.sender.clone(),
            message_id: request.message_id.clone(),
            request_id: request.request_id.clone(),
            status: "declined".to_owned(),
            amount_paid: None,
            note: own(note),
            host: own(host_override),
        };
        answer.respond()
    }
}

impl Answer {
    fn respond(self) -> (r: AnswerStep)
        ensures
            r@ == self@.respond(),
    {
        let response = PaymentRequestResponse {
            request_id: self.request_id.clone(),
            status: self.status.clone(),
            note: self.note.clone(),
            amount_paid: self.amount_paid,
        };
        let m = MessageOrder {
            recipient: self.sender.clone(),
            message_box: PAYMENT_REQUEST_RESPONSES_MESSAGEBOX.to_owned(),
            body: response.to_json(),
            host: self.host.clone(),
            skip_encryption: false,
            check_permissions: false,
            message_id: None,
        };
        AnswerStep::Respond(self, m)
    }

    /// The step after the payment was sent, or could not be.
    pub fn paid(self, outcome: Result<String, MessageBoxError>) -> (r: Result<
        AnswerStep,
        MessageBoxError,
    >)
        ensures
            result_view(r) == self@.paid(result_view(outcome)),
    {
        match outcome {
            Err(e) => Err(e),
            Ok(_) => Ok(self.respond()),
        }
    }

    /// The step after the response was sent, or could not be.
    pub fn responded(self, outcome: Result<String, MessageBoxError>) -> (r: Result<
        AnswerStep,
        MessageBoxError,
    >)
        ensures
            result_view(r) == self@.responded(result_view(outcome)),
    {
        match outcome {
            Err(e) => Err(e),
            Ok(_) => {
                let ghost id = self.message_id@;
                let ids = vec![self.message_id];
                assert(views(ids@) =~= seq![id]);
                Ok(AnswerStep::Acknowledge(ids, self.host))
            },
        }
    }
}

// ---------------------------------------------------------------------------------------------
// Who may ask
// ---------------------------------------------------------------------------------------------

/// The permission of a peer to ask for payments.
pub open spec fn request_permission(identity_key: Seq<char>, fee: i64) -> SetPermissionParamsModel {
    SetPermissionParamsModel {
        message_box: PAYMENT_REQUESTS_MESSAGEBOX@,
        sender: Some(identity_key),
        recipient_fee: fee,
    }
}

impl MessageBoxClient {
    /// Lets a peer ask for payments.
    pub fn allow_payment_requests_from(&self, identity_key: &str) -> (r: SetPermissionParams)
        ensures
            r@ == request_permission(identity_key@, 0),
    {
        SetPermissionParams {
            message_box: PAYMENT_REQUESTS_MESSAGEBOX.to_owned(),
            sender: Some(identity_key.to_owned()),
            recipient_fee: 0,
        }
    }

    /// Keeps a peer from asking for payments.
    pub fn block_payment_requests_from(&self, identity_key: &str) -> (r: SetPermissionParams)
        ensures
            r@ == request_permission(identity_key@, (-1) as i64),
    {
        SetPermissionParams {
            message_box: PAYMENT_REQUESTS_MESSAGEBOX.to_owned(),
            sender: Some(identity_key.to_owned()),
            recipient_fee: -1,
        }
    }
}

/// The peers that permissions name, each with whether it may ask.
pub open spec fn askers(ps: Seq<MessageBoxPermissionModel>) -> Seq<(Seq<char>, bool)>
    decreases ps.len(),
{
    if ps.len() == 0 {
        Seq::empty()
    } else {
        let before = askers(ps.drop_last());
        match ps.last().sender {
            Some(s) => if s.len() > 0 {
                before.push((s, ps.last().recipient_fee >= 0))
            } else {
                before
            },
            None => before,
        }
    }
}

impl MessageBoxClient {
    /// The peers that permissions name, each with whether it may ask for payments. A permission that
    /// names no peer is passed over.
    pub fn list_payment_request_permissions(&self, permissions: Vec<MessageBoxPermission>) -> (r: Vec<
        (String, bool),
    >)
        ensures
            views(r@) == askers(views(permissions@)),
    {
        let ghost all = views(permissions@);
        let mut r: Vec<(String, bool)> = Vec::new();
        assert(views(r@) =~= askers(all.take(0)));
        for p in it: permissions
            invariant
                it.seq() == permissions@,
                all == views(permissions@),
                views(r@) == askers(all.take(it.index() as int)),
        {
            let ghost n = it.index() as int;
            let ghost before = views(r@);
            assert(all.take(n + 1).drop_last() =~= all.take(n));
            let allowed = p.recipient_fee >= 0;
            if let Some(sender) = p.sender {
                if !is_blank(&sender) {
                    let ghost name = sender@;
                    r.push((sender, allowed));
                    assert(views(r@) =~= before.push((name, allowed)));
                }
            }
        }
        assert(all.take(all.len() as int) =~= all);
        r
    }
}

/// A peer that is allowed to ask is not blocked, and one that is blocked is; and a listed peer may
/// ask exactly when the status of its permission is not blocked.
pub proof fn allowing_and_blocking_set_the_status(identity_key: Seq<char>, fee: i64)
    ensures
        fee_status(request_permission(identity_key, 0).recipient_fee as int) == "always_allow"@,
        fee_status(request_permission(identity_key, (-1) as i64).recipient_fee as int) == "blocked"@,
        fee >= 0 <==> fee_status(fee as int) != "blocked"@,
{
    reveal_strlit("blocked");
    reveal_strlit("always_allow");
    reveal_strlit("payment_required");
    assert("blocked"@.len() == 7);
    assert("always_allow"@.len() == 12);
    assert("payment_required"@.len() == 16);
}

/// A request for a payment is refused exactly when it asks for nothing, or a wallet or key does not
/// answer, and then for the first reason that there is. Otherwise it is proven over its name and
/// who is asked, under its name and towards who is asked, and is sent to who is asked, encrypted,
/// with the amount, the description and the end of its time, and the proof in hexadecimal notation.
/// What is told in the end is the name and the proof that were sent.
pub proof fn requests_are_made_as_ordered(
    start: RequestStartModel,
    nonce: Result<Seq<char>, Seq<char>>,
    me: Result<Seq<char>, ErrorModel>,
    key: Result<Seq<char>, Seq<char>>,
    hmac: Result<Seq<u8>, Seq<char>>,
    sent: Result<Seq<char>, ErrorModel>,
)
    ensures
        start.amount == 0 <==> start.first_step() is Err,
        start.amount > 0 ==> match start.first_step() {
            Ok(RequestStepModel::Nonce(s)) => {
                &&& nonce is Err <==> s.nonce_given(nonce) is Err
                &&& nonce matches Ok(id) ==> match s.nonce_given(nonce) {
                    Ok(RequestStepModel::Identify(s)) => {
                        &&& me is Err ==> s.identified(me, key) is Err && s.identified(me, key)->Err_0
                            == me->Err_0
                        &&& me is Ok && key is Err ==> s.identified(me, key) is Err
                        &&& me is Ok && key is Ok ==> match s.identified(me, key) {
                            Ok(RequestStepModel::Prove(s, q)) => {
                                &&& q.data == encode_utf8(id + start.recipient)
                                &&& q.protocol.security_level == 2
                                &&& q.protocol.name == "payment request auth"@
                                &&& q.key_id == id
                                &&& q.counterparty == PartyModel::Other(Some(key->Ok_0))
                                &&& hmac is Err <==> s.proven(hmac) is Err
                                &&& hmac matches Ok(h) ==> match s.proven(hmac) {
                                    Ok(RequestStepModel::Send(s, m)) => {
                                        &&& m.recipient == start.recipient
                                        &&& m.message_box == "payment_requests"@
                                        &&& m.body == (PaymentRequestMessageModel {
                                            request_id: id,
                                            sender_identity_key: me->Ok_0,
                                            request_proof: hex_text(h),
                                            amount: Some(start.amount),
                                            description: Some(start.description),
                                            expires_at: Some(start.expires_at),
                                            cancelled: None,
                                        }).json_text()
                                        &&& m.host is None && m.message_id is None
                                        &&& !m.skip_encryption && !m.check_permissions
                                        &&& sent is Ok <==> s.sent(sent) is Ok
                                        &&& s.sent(sent) matches Ok(r) ==> r.request_id == id
                                            && r.request_proof == hex_text(h)
                                        &&& sent matches Err(e) ==> !(e is Http && e->Http_0 == 403)
                                            ==> s.sent(sent)->Err_0 == e
                                        &&& sent matches Err(e) ==> e is Http && e->Http_0 == 403
                                            ==> s.sent(sent)->Err_0 is Validation
                                    },
                                    _ => false,
                                }
                            },
                            _ => false,
                        }
                    },
                    _ => false,
                }
            },
            _ => false,
        },
{
}

/// A cancellation goes the way of its request: to who was asked, encrypted, with the name and the
/// proof of the request, and with nothing that is asked for. It is whole whenever its parts are.
pub proof fn cancellations_name_their_request(
    me: Seq<char>,
    recipient: Seq<char>,
    request_id: Seq<char>,
    request_proof: Seq<char>,
    host: Option<Seq<char>>,
)
    ensures
        ({
            let c = cancellation(me, request_id, request_proof);
            let m = request_message(recipient, c, host);
            &&& c.cancelled == Some(true)
            &&& c.request_id == request_id
            &&& c.request_proof == request_proof
            &&& c.sender_identity_key == me
            &&& c.amount is None && c.description is None && c.expires_at is None
            &&& m.recipient == recipient
            &&& m.message_box == "payment_requests"@
            &&& m.body == c.json_text()
            &&& m.host == host && m.message_id is None
            &&& !m.skip_encryption && !m.check_permissions
            &&& is_whole_request(c) <==> me.len() > 0 && request_id.len() > 0 && request_proof.len()
                > 0
        }),
{
}

/// A live message brings a request exactly when its body holds one with an amount, a description
/// and an end of its time that is no cancellation. The request is then that of the body, from the
/// sender of the message and under the name of the message.
pub proof fn live_requests_are_those_of_the_bodies(m: RequestMessageModel)
    ensures
        live_request_model(m) is Some <==> (m.request matches Some(q) && q.cancelled != Some(true)
            && q.amount is Some && q.description is Some && q.expires_at is Some),
        live_request_model(m) matches Some(r) ==> {
            &&& r.message_id == m.message.message_id
            &&& r.sender == m.message.sender
            &&& r.request_id == m.request->0.request_id
            &&& Some(r.amount) == m.request->0.amount
            &&& Some(r.description) == m.request->0.description
            &&& Some(r.expires_at) == m.request->0.expires_at
        },
{
}

/// A request comes to who is asked as it was made: whole, with the amount, the description and the
/// end of its time that were asked for, and under its name.
pub proof fn requests_arrive_as_made(d: RequestDraftModel, hmac: Seq<u8>, message: PeerMessageModel)
    ensures
        is_whole_request(d.request(hmac)) <==> d.request_id.len() > 0 && d.sender_identity_key.len()
            > 0 && hmac.len() > 0,
        live_request_model(RequestMessageModel { message, request: Some(d.request(hmac)) }) == Some(
            IncomingPaymentRequestModel {
                message_id: message.message_id,
                sender: message.sender,
                request_id: d.request_id,
                amount: d.start.amount,
                description: d.start.description,
                expires_at: d.start.expires_at,
            },
        ),
{
    hex_text_reads_back(hmac);
}

/// The responses are those that the bodies hold, all of them and in the order of the bodies.
pub proof fn responses_are_those_of_the_bodies(bodies: Seq<Option<PaymentRequestResponse>>)
    ensures
        responses_of(bodies) == bodies.filter(
            |b: Option<PaymentRequestResponse>| b is Some,
        ).map_values(|b: Option<PaymentRequestResponse>| b->0@),
    decreases bodies.len(),
{
    reveal(Seq::filter);
    let holds = |b: Option<PaymentRequestResponse>| b is Some;
    let held = |b: Option<PaymentRequestResponse>| b->0@;
    if bodies.len() > 0 {
        responses_are_those_of_the_bodies(bodies.drop_last());
        let before = bodies.drop_last().filter(holds);
        if bodies.last() is Some {
            assert(before.push(bodies.last()).map_values(held) =~= before.map_values(held).push(
                bodies.last()->0@,
            ));
        }
    } else {
        assert(bodies.filter(holds).map_values(held) =~= Seq::empty());
    }
}

/// Who asked is answered: once the payment went through, or at once where there is none, the
/// response goes to them, encrypted, with the name of the request, what became of it, what was paid
/// and the note. Once it went through, the message that brought the request is acknowledged, and no
/// other. What fails ends the answer, with that failure.
pub proof fn answers_go_to_who_asked(
    request: IncomingPaymentRequestModel,
    status: Seq<char>,
    amount_paid: Option<u64>,
    note: Option<Seq<char>>,
    host: Option<Seq<char>>,
    paid: Result<Seq<char>, ErrorModel>,
    sent: Result<Seq<char>, ErrorModel>,
)
    ensures
        ({
            let a = AnswerModel::to(request, status, amount_paid, note, host);
            &&& paid is Err ==> a.paid(paid) is Err && a.paid(paid)->Err_0 == paid->Err_0
            &&& paid is Ok ==> a.paid(paid) == Ok::<_, ErrorModel>(a.respond())
            &&& match a.respond() {
                AnswerStepModel::Respond(b, m) => {
                    &&& m.recipient == request.sender
                    &&& m.message_box == "payment_request_responses"@
                    &&& m.body == (PaymentRequestResponseModel {
                        request_id: request.request_id,
                        status,
                        note,
                        amount_paid,
                    }).json_text()
                    &&& m.host == host && m.message_id is None
                    &&& !m.skip_encryption && !m.check_permissions
                    &&& sent is Err ==> b.responded(sent) is Err && b.responded(sent)->Err_0
                        == sent->Err_0
                    &&& sent is Ok ==> match b.responded(sent) {
                        Ok(AnswerStepModel::Acknowledge(ids, at)) => {
                            &&& ids.len() == 1 && ids[0] == request.message_id
                            &&& at == host
                        },
                        _ => false,
                    }
                },
                _ => false,
            }
        }),
{
}

/// A permission to ask is one for the box of requests and for the one peer.
pub proof fn permissions_to_ask_are_for_one_peer(identity_key: Seq<char>, fee: i64)
    ensures
        request_permission(identity_key, fee).message_box == "payment_requests"@,
        request_permission(identity_key, fee).sender == Some(identity_key),
        request_permission(identity_key, fee).recipient_fee == fee,
{
}

/// The peers listed are those that the permissions name, in order, and each may ask exactly when
/// its fee is not negative.
pub proof fn askers_are_those_named(ps: Seq<MessageBoxPermissionModel>)
    ensures
        ({
            let named = ps.filter(
                |p: MessageBoxPermissionModel| p.sender is Some && p.sender->0.len() > 0,
            );
            &&& askers(ps).len() == named.len()
            &&& forall|i: int|
                0 <= i < named.len() ==> named[i].sender == Some((#[trigger] askers(ps)[i]).0) && (
                askers(ps)[i].1 <==> named[i].recipient_fee >= 0)
        }),
    decreases ps.len(),
{
    reveal(Seq::filter);
    if ps.len() > 0 {
        askers_are_those_named(ps.drop_last());
    }
}

/// A request is whole exactly when it has a name, an asker and a proof, and is a cancellation or
/// tells what is asked for. A whole request that is no cancellation is always one that can be listed.
pub proof fn whole_requests_lack_nothing(message: PeerMessageModel, m: PaymentRequestMessageModel)
    ensures
        m.request_id.len() == 0 ==> !is_whole_request(m),
        m.sender_identity_key.len() == 0 ==> !is_whole_request(m),
        m.request_proof.len() == 0 ==> !is_whole_request(m),
        m.cancelled != Some(true) && (m.amount is None || m.description is None || m.expires_at
            is None) ==> !is_whole_request(m),
        m.request_id.len() > 0 && m.sender_identity_key.len() > 0 && m.request_proof.len() > 0 && (
        m.cancelled == Some(true) || incoming_request(message, m) is Some) ==> is_whole_request(m),
        is_whole_request(m) && m.cancelled != Some(true) ==> incoming_request(message, m) is Some,
{
}

} // verus!
