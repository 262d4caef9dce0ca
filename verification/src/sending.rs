//! Sending a message to a host.
//!
//! A message is sent in steps: its body is encrypted, its identifier made, its fees asked for and
//! paid, and then it is posted. Each step says what is needed next.

use crate::chain::key_of;
use crate::client::{
    accept_body, accepted_body, HttpPost, HttpPostModel, HttpReply, MessageBoxClient,
};
use crate::encryption::{
    encrypt_body, encrypt_body_request, encrypt_request_model, envelope_text,
    generate_message_id, message_id_model, message_id_request, message_id_request_model,
};
use crate::error::{ErrorModel, MessageBoxError};
use crate::codec::hex_text;
use crate::json::{json_quoted, ToJson};
use crate::text::{joined, opt_view, result_view};
use crate::types::{
    MessageBoxQuote, MessageBoxQuoteModel, MessagePayment, MessagePaymentModel, SendMessageParams,
    SendMessageParamsModel, SendMessageRequest, SendMessageRequestModel,
};
use crate::wallet::{
    EncryptRequest, EncryptRequestModel, HmacRequest, HmacRequestModel, PartyModel,
};
use vstd::prelude::*;
use vstd::string::*;
use vstd::utf8::*;

verus! {

broadcast use vstd::string::group_string_axioms;

/// A message to send.
#[derive(Clone, Debug)]
pub struct MessageOrder {
    /// The recipient.
    pub recipient: String,
    /// The message box.
    pub message_box: String,
    /// The body, in the clear.
    pub body: String,
    /// Whether the body goes out as it is.
    pub skip_encryption: bool,
    /// Whether the fees are asked for and paid.
    pub check_permissions: bool,
    /// The name of the message, in place of the derived one.
    pub message_id: Option<String>,
    /// The host to send it to, in place of the recipient's.
    pub host: Option<String>,
}

/// The contents of a `MessageOrder`.
#[verifier::ext_equal]
pub struct MessageOrderModel {
    pub recipient: Seq<char>,
    pub message_box: Seq<char>,
    pub body: Seq<char>,
    pub skip_encryption: bool,
    pub check_permissions: bool,
    pub message_id: Option<Seq<char>>,
    pub host: Option<Seq<char>>,
}

impl View for MessageOrder {
    type V = MessageOrderModel;

    open spec fn view(&self) -> MessageOrderModel {
        MessageOrderModel {
            recipient: self.recipient@,
            message_box: self.message_box@,
            body: self.body@,
            skip_encryption: self.skip_encryption,
            check_permissions: self.check_permissions,
            message_id: opt_view(self.message_id),
            host: opt_view(self.host),
        }
    }
}

/// A message on its way to a host.
pub struct Sending {
    /// The host.
    host: String,
    /// The recipient.
    recipient: String,
    /// The message box.
    message_box: String,
    /// The body, in the clear.
    body: String,
    /// Whether the body goes out as it is.
    skip_encryption: bool,
    /// Whether fees are asked for and paid.
    check_permissions: bool,
    /// The identifier, once it is known.
    message_id: Option<String>,
    /// The body as it goes over the wire, once it is known.
    wire_body: Option<String>,
    /// The payment, once there is one.
    payment: Option<MessagePayment>,
    /// Whether the fees were asked for.
    fees_settled: bool,
}

/// The contents of a `Sending`.
#[verifier::ext_equal]
pub struct SendingModel {
    pub host: Seq<char>,
    pub recipient: Seq<char>,
    pub message_box: Seq<char>,
    pub body: Seq<char>,
    pub skip_encryption: bool,
    pub check_permissions: bool,
    pub message_id: Option<Seq<char>>,
    pub wire_body: Option<Seq<char>>,
    pub payment: Option<MessagePaymentModel>,
    pub fees_settled: bool,
}

impl View for Sending {
    type V = SendingModel;

    closed spec fn view(&self) -> SendingModel {
        SendingModel {
            host: self.host@,
            recipient: self.recipient@,
            message_box: self.message_box@,
            body: self.body@,
            skip_encryption: self.skip_encryption,
            check_permissions: self.check_permissions,
            message_id: opt_view(self.message_id),
            wire_body: opt_view(self.wire_body),
            payment: opt_view(self.payment),
            fees_settled: self.fees_settled,
        }
    }
}

/// A message that was handed to a host.
pub struct Posting {
    /// The address that it went to.
    url: String,
    /// Its identifier.
    message_id: String,
}

/// The contents of a `Posting`.
#[verifier::ext_equal]
pub struct PostingModel {
    pub url: Seq<char>,
    pub message_id: Seq<char>,
}

impl View for Posting {
    type V = PostingModel;

    closed spec fn view(&self) -> PostingModel {
        PostingModel {
            url: self.url@,
            message_id: self.message_id@,
        }
    }
}

/// The next step of sending a message.
pub enum SendStep {
    /// Ask the wallet to encrypt the body.
    Encrypt(Sending, EncryptRequest),
    /// Ask the wallet for the hash that identifies the message.
    Identify(Sending, HmacRequest),
    /// Ask the server for the fees.
    Quote(Sending),
    /// Make the payment of these fees.
    Pay(Sending, MessageBoxQuote),
    /// Post the message.
    Post(Posting, HttpPost),
}

/// The contents of a `SendStep`.
#[verifier::ext_equal]
pub enum SendStepModel {
    Encrypt(SendingModel, EncryptRequestModel),
    Identify(SendingModel, HmacRequestModel),
    Quote(SendingModel),
    Pay(SendingModel, MessageBoxQuoteModel),
    Post(PostingModel, HttpPostModel),
}

impl View for SendStep {
    type V = SendStepModel;

    open spec fn view(&self) -> SendStepModel {
        match self {
            SendStep::Encrypt(s, q) => SendStepModel::Encrypt(s@, q@),
            SendStep::Identify(s, q) => SendStepModel::Identify(s@, q@),
            SendStep::Quote(s) => SendStepModel::Quote(s@),
            SendStep::Pay(s, q) => SendStepModel::Pay(s@, q@),
            SendStep::Post(p, q) => SendStepModel::Post(p@, q@),
        }
    }
}

impl SendingModel {
    /// A message before its first step.
    pub open spec fn start(
        host: Seq<char>,
        recipient: Seq<char>,
        message_box: Seq<char>,
        body: Seq<char>,
        skip_encryption: bool,
        check_permissions: bool,
        message_id: Option<Seq<char>>,
        payment: Option<MessagePaymentModel>,
    ) -> SendingModel {
        SendingModel {
            host,
            recipient,
            message_box,
            body,
            skip_encryption,
            check_permissions,
            message_id,
            wire_body: None,
            payment,
            fees_settled: false,
        }
    }

    /// The message with its body for the wire.
    pub open spec fn with_body(self, wire_body: Seq<char>) -> SendingModel {
        SendingModel { wire_body: Some(wire_body), ..self }
    }

    /// The message with its identifier.
    pub open spec fn with_id(self, id: Seq<char>) -> SendingModel {
        SendingModel { message_id: Some(id), ..self }
    }

    /// What the server is sent for a body, an identifier and a payment.
    pub open spec fn request_text(
        self,
        wire_body: Seq<char>,
        id: Seq<char>,
        payment: Option<MessagePaymentModel>,
    ) -> Seq<char> {
        (SendingModel { wire_body: Some(wire_body), message_id: Some(id), payment, ..self })
            .request().json_text()
    }

    /// What the server is sent.
    pub open spec fn request(self) -> SendMessageRequestModel {
        SendMessageRequestModel {
            message: SendMessageParamsModel {
                recipient: self.recipient,
                message_box: self.message_box,
                body: self.wire_body->0,
                message_id: self.message_id->0,
            },
            payment: self.payment,
        }
    }

    /// The step that posts the message.
    pub open spec fn post(self) -> SendStepModel {
        let url = self.host + "/sendMessage"@;
        SendStepModel::Post(
            PostingModel { url, message_id: self.message_id->0 },
            HttpPostModel { url, body: self.request().json_text() },
        )
    }

    /// The step once the body is ready: the identifier, then the fees, then the post.
    pub open spec fn after_body(self, id: Result<HmacRequestModel, ErrorModel>) -> Result<
        SendStepModel,
        ErrorModel,
    > {
        match self.message_id {
            None => match id {
                Ok(q) => Ok(SendStepModel::Identify(self, q)),
                Err(e) => Err(e),
            },
            Some(_) => Ok(self.after_id()),
        }
    }

    /// The step once the identifier is known: the fees, then the post.
    pub open spec fn after_id(self) -> SendStepModel {
        if self.check_permissions && self.payment is None && !self.fees_settled {
            SendStepModel::Quote(self)
        } else {
            self.post()
        }
    }

    /// The request for the hash that identifies the message.
    pub open spec fn id_request(self) -> Result<HmacRequestModel, ErrorModel> {
        message_id_request_model(self.body, key_of(self.recipient))
    }

    /// The first step, given the request that encrypts the body.
    pub open spec fn first_step(self, encrypt: Result<EncryptRequestModel, ErrorModel>) -> Result<
        SendStepModel,
        ErrorModel,
    > {
        if self.skip_encryption {
            self.with_body(self.body).after_body(self.id_request())
        } else {
            match encrypt {
                Ok(q) => Ok(SendStepModel::Encrypt(self, q)),
                Err(e) => Err(e),
            }
        }
    }

    /// The step after the wallet answered with the ciphertext.
    pub open spec fn encrypted(self, reply: Result<Seq<u8>, Seq<char>>) -> Result<
        SendStepModel,
        ErrorModel,
    > {
        match reply {
            Err(e) => Err(ErrorModel::Wallet(e)),
            Ok(c) => self.with_body(envelope_text(c)).after_body(self.id_request()),
        }
    }

    /// The step after the wallet answered with the hash that identifies the message.
    pub open spec fn identified(self, reply: Result<Seq<u8>, Seq<char>>) -> Result<
        SendStepModel,
        ErrorModel,
    > {
        match message_id_model(reply) {
            Err(e) => Err(e),
            Ok(id) => Ok(self.with_id(id).after_id()),
        }
    }

    /// The step after the server answered with the fees.
    pub open spec fn quoted(self, quote: MessageBoxQuoteModel) -> SendStepModel {
        if quote.delivery_fee > 0 || quote.recipient_fee > 0 {
            SendStepModel::Pay(self, quote)
        } else {
            SendingModel { fees_settled: true, ..self }.post()
        }
    }

    /// The step after the payment was made.
    pub open spec fn paid(self, payment: MessagePaymentModel) -> SendStepModel {
        SendingModel { payment: Some(payment), fees_settled: true, ..self }.post()
    }

    /// Whether body and identifier are known.
    pub open spec fn is_ready(self) -> bool {
        self.wire_body is Some && self.message_id is Some
    }
}

/// The first step of sending a message to a host.
pub fn send_message_to_host(
    host: &str,
    recipient: &str,
    message_box: &str,
    body: &str,
    skip_encryption: bool,
    check_permissions: bool,
    message_id: Option<&str>,
    payment: Option<MessagePayment>,
) -> (r: Result<SendStep, MessageBoxError>)
    ensures
        result_view(r) == SendingModel::start(
            host@,
            recipient@,
            message_box@,
            body@,
            skip_encryption,
            check_permissions,
            opt_view(message_id),
            opt_view(payment),
        ).first_step(encrypt_request_model(body@, key_of(recipient@))),
{
    let s = Sending {
        host: host.to_owned(),
        recipient: recipient.to_owned(),
        message_box: message_box.to_owned(),
        body: body.to_owned(),
        skip_encryption,
        check_permissions,
        message_id: match message_id {
            Some(id) => Some(id.to_owned()),
            None => None,
        },
        wire_body: None,
        payment,
        fees_settled: false,
    };
    if skip_encryption {
        s.with_body(body.to_owned())
    } else {
        match encrypt_body_request(body, recipient) {
            Ok(q) => Ok(SendStep::Encrypt(s, q)),
            Err(e) => Err(e),
        }
    }
}

impl Sending {
    fn with_body(self, wire_body: String) -> (r: Result<SendStep, MessageBoxError>)
        ensures
            result_view(r) == self@.with_body(wire_body@).after_body(self@.id_request()),
    {
        let mut s = self;
        s.wire_body = Some(wire_body);
        assert(s@ == self@.with_body(wire_body@));
        if s.message_id.is_none() {
            match message_id_request(s.body.as_str(), s.recipient.as_str()) {
                Ok(q) => Ok(SendStep::Identify(s, q)),
                Err(e) => Err(e),
            }
        } else {
            Ok(s.after_id())
        }
    }

    fn after_id(self) -> (r: SendStep)
        requires
            self@.is_ready(),
        ensures
            r@ == self@.after_id(),
    {
        if self.check_permissions && self.payment.is_none() && !self.fees_settled {
            SendStep::Quote(self)
        } else {
            self.post()
        }
    }

    fn post(self) -> (r: SendStep)
        requires
            self@.is_ready(),
        ensures
            r@ == self@.post(),
    {
        let ghost model = self@;
        let url = joined(self.host.as_str(), "/sendMessage");
        let id = match self.message_id {
            Some(x) => x,
            None => String::new(),
        };
        let body = match self.wire_body {
            Some(x) => x,
            None => String::new(),
        };
        let request = SendMessageRequest {
            message: SendMessageParams {
                recipient: self.recipient,
                message_box: self.message_box,
                body,
                message_id: id.clone(),
            },
            payment: self.payment,
        };
        assert(request@ == model.request());
        let post = HttpPost { url: url.clone(), body: request.to_json() };
        SendStep::Post(Posting { url, message_id: id }, post)
    }

    /// The step after the wallet answered with the ciphertext.
    pub fn encrypted(self, reply: Result<Vec<u8>, String>) -> (r: Result<
        SendStep,
        MessageBoxError,
    >)
        ensures
            result_view(r) == self@.encrypted(result_view(reply)),
    {
        match reply {
            Err(e) => Err(MessageBoxError::Wallet(e)),
            Ok(c) => self.with_body(encrypt_body(&c)),
        }
    }

    /// The step after the wallet answered with the hash that identifies the message.
    pub fn identified(self, reply: Result<Vec<u8>, String>) -> (r: Result<
        SendStep,
        MessageBoxError,
    >)
        requires
            self@.wire_body is Some,
        ensures
            result_view(r) == self@.identified(result_view(reply)),
    {
        match generate_message_id(reply) {
            Err(e) => Err(e),
            Ok(id) => {
                let mut s = self;
                s.message_id = Some(id);
                assert(s@ == self@.with_id(id@));
                Ok(s.after_id())
            },
        }
    }

    /// Whom the fees are asked for.
    pub fn recipient(&self) -> (r: &str)
        ensures
            r@ == self@.recipient,
    {
        self.recipient.as_str()
    }

    /// The message box that the fees are asked for.
    pub fn message_box(&self) -> (r: &str)
        ensures
            r@ == self@.message_box,
    {
        self.message_box.as_str()
    }

    /// The step after the server answered with the fees.
    pub fn quoted(self, quote: Result<MessageBoxQuote, MessageBoxError>) -> (r: Result<
        SendStep,
        MessageBoxError,
    >)
        requires
            self@.is_ready(),
        ensures
            match quote {
                Ok(q) => r is Ok && r->Ok_0@ == self@.quoted(q@),
                Err(e) => r is Err && r->Err_0@ == e@,
            },
    {
        match quote {
            Err(e) => Err(e),
            Ok(q) => if q.delivery_fee > 0 || q.recipient_fee > 0 {
                Ok(SendStep::Pay(self, q))
            } else {
                let mut s = self;
                s.fees_settled = true;
                Ok(s.post())
            },
        }
    }

    /// The step after the payment was made.
    pub fn paid(self, payment: Result<MessagePayment, MessageBoxError>) -> (r: Result<
        SendStep,
        MessageBoxError,
    >)
        requires
            self@.is_ready(),
        ensures
            match payment {
                Ok(p) => r is Ok && r->Ok_0@ == self@.paid(p@),
                Err(e) => r is Err && r->Err_0@ == e@,
            },
    {
        match payment {
            Err(e) => Err(e),
            Ok(p) => {
                let mut s = self;
                s.payment = Some(p);
                s.fees_settled = true;
                Ok(s.post())
            },
        }
    }
}

impl Posting {
    /// The body of the answer of the server.
    pub fn posted(&self, reply: Result<HttpReply, String>) -> (r: Result<Vec<u8>, MessageBoxError>)
        ensures
            result_view(r) == accepted_body(self@.url, result_view(reply)),
    {
        accept_body(self.url.as_str(), reply)
    }

    /// The identifier of the sent message: the one that the server gave it, or else its own.
    pub fn sent(self, server_id: Option<String>) -> (r: String)
        ensures
            r@ == (match server_id {
                Some(id) => id@,
                None => self@.message_id,
            }),
    {
        match server_id {
            Some(id) => id,
            None => self.message_id,
        }
    }
}

/// Whether a post brings a body to the host, recipient and message box of a message.
pub open spec fn posts(q: HttpPostModel, s: SendingModel, wire_body: Seq<char>) -> bool {
    &&& q.url == s.host + "/sendMessage"@
    &&& exists|id: Seq<char>, payment: Option<MessagePaymentModel>|
        q.body == #[trigger] s.request_text(wire_body, id, payment)
}

/// Whether a step goes on with a message whose body for the wire is given, or posts it.
pub open spec fn goes_on_with(step: SendStepModel, s: SendingModel, wire_body: Seq<char>) -> bool {
    match step {
        SendStepModel::Encrypt(_, _) => false,
        SendStepModel::Identify(t, _) | SendStepModel::Quote(t) | SendStepModel::Pay(t, _) => {
            &&& t.wire_body == Some(wire_body)
            &&& t.host == s.host
            &&& t.recipient == s.recipient
            &&& t.message_box == s.message_box
        },
        SendStepModel::Post(_, q) => posts(q, s, wire_body),
    }
}

proof fn posts_what_is_ready(s: SendingModel, t: SendingModel)
    requires
        t.is_ready(),
        t.host == s.host,
        t.recipient == s.recipient,
        t.message_box == s.message_box,
    ensures
        goes_on_with(t.post(), s, t.wire_body->0),
{
    assert(t.request().json_text() == s.request_text(t.wire_body->0, t.message_id->0, t.payment));
}

/// A message is posted as the envelope of its ciphertext, and as it is only where encryption is
/// skipped: the first step asks for the ciphertext or goes on with the body itself, the answer is
/// gone on with in its envelope, and no later step puts another body in its place.
pub proof fn posted_bodies_are_encrypted_unless_skipped(
    s: SendingModel,
    encrypt: Result<EncryptRequestModel, ErrorModel>,
    ciphertext: Seq<u8>,
    hmac: Result<Seq<u8>, Seq<char>>,
    quote: MessageBoxQuoteModel,
    payment: MessagePaymentModel,
)
    ensures
        s.first_step(encrypt) matches Ok(step) ==> if s.skip_encryption {
            goes_on_with(step, s, s.body)
        } else {
            step matches SendStepModel::Encrypt(t, q) && t == s && Ok::<_, ErrorModel>(q) == encrypt
        },
        s.encrypted(Ok(ciphertext)) matches Ok(step) ==> goes_on_with(
            step,
            s,
            envelope_text(ciphertext),
        ),
        s.wire_body is Some && s.identified(hmac) is Ok ==> goes_on_with(
            s.identified(hmac)->Ok_0,
            s,
            s.wire_body->0,
        ),
        s.is_ready() ==> goes_on_with(s.quoted(quote), s, s.wire_body->0),
        s.is_ready() ==> goes_on_with(s.paid(payment), s, s.wire_body->0),
{
    let plain = s.with_body(s.body);
    if s.message_id is Some {
        posts_what_is_ready(s, plain);
        posts_what_is_ready(s, s.with_body(envelope_text(ciphertext)));
    }
    if s.wire_body is Some {
        match message_id_model(hmac) {
            Ok(id) => posts_what_is_ready(s, s.with_id(id)),
            Err(_) => {},
        }
    }
    if s.is_ready() {
        posts_what_is_ready(s, SendingModel { fees_settled: true, ..s });
        posts_what_is_ready(
            s,
            SendingModel { payment: Some(payment), fees_settled: true, ..s },
        );
    }
}

/// A payment is asked for exactly where there is a fee; a message without fees is posted as it
/// is, and one with fees together with exactly the payment that was made.
pub proof fn fees_are_paid_exactly_when_asked(
    s: SendingModel,
    quote: MessageBoxQuoteModel,
    payment: MessagePaymentModel,
)
    requires
        s.is_ready(),
        s.payment is None,
    ensures
        s.quoted(quote) is Pay <==> quote.delivery_fee > 0 || quote.recipient_fee > 0,
        !(s.quoted(quote) is Pay) ==> s.quoted(quote) == s.post(),
        s.paid(payment) == (SendingModel { payment: Some(payment), ..s }).post(),
        !s.check_permissions ==> s.after_id() == s.post(),
{
}

// ---------------------------------------------------------------------------------------------
// A sending as a whole
// ---------------------------------------------------------------------------------------------

/// What is answered while a message is sent: the ciphertext and the hash that the wallet gives, the
/// fees that the server asks, and the payment that is made.
pub struct SendAnswers {
    pub ciphertext: Result<Seq<u8>, Seq<char>>,
    pub hmac: Result<Seq<u8>, Seq<char>>,
    pub quote: Result<MessageBoxQuoteModel, ErrorModel>,
    pub payment: Result<MessagePaymentModel, ErrorModel>,
}

impl SendAnswers {
    /// The step that follows one when it is answered. A post is the last.
    pub open spec fn follow(self, step: SendStepModel) -> Result<SendStepModel, ErrorModel> {
        match step {
            SendStepModel::Encrypt(s, _) => s.encrypted(self.ciphertext),
            SendStepModel::Identify(s, _) => s.identified(self.hmac),
            SendStepModel::Quote(s) => match self.quote {
                Ok(q) => Ok(s.quoted(q)),
                Err(e) => Err(e),
            },
            SendStepModel::Pay(s, _) => match self.payment {
                Ok(p) => Ok(s.paid(p)),
                Err(e) => Err(e),
            },
            SendStepModel::Post(_, _) => Ok(step),
        }
    }

    /// The steps from one on, at most `n` more, up to the post or to the first that fails.
    pub open spec fn steps(self, step: SendStepModel, n: nat) -> Seq<SendStepModel>
        decreases n,
    {
        if n == 0 || step is Post {
            seq![step]
        } else {
            match self.follow(step) {
                Ok(next) => seq![step] + self.steps(next, (n - 1) as nat),
                Err(_) => seq![step],
            }
        }
    }
}

/// What one step of a message asks for: the wallet is asked about the body for the recipient, and
/// the server for the fees of the recipient at the message box.
pub open spec fn asks_for_message(
    step: SendStepModel,
    recipient: Seq<char>,
    message_box: Seq<char>,
    body: Seq<char>,
    a: SendAnswers,
) -> bool {
    match step {
        SendStepModel::Encrypt(_, q) => {
            &&& q.plaintext == encode_utf8(body)
            &&& q.protocol.security_level == 1 && q.protocol.name == "messagebox"@
            &&& q.key_id == "1"@
            &&& q.counterparty matches PartyModel::Other(Some(k)) && key_of(recipient) == Ok::<
                Seq<char>,
                Seq<char>,
            >(k)
        },
        SendStepModel::Identify(_, q) => {
            &&& q.data == encode_utf8(json_quoted(body))
            &&& q.protocol.security_level == 1 && q.protocol.name == "messagebox"@
            &&& q.key_id == "1"@
            &&& q.counterparty matches PartyModel::Other(Some(k)) && key_of(recipient) == Ok::<
                Seq<char>,
                Seq<char>,
            >(k)
        },
        SendStepModel::Quote(s) => s.recipient == recipient && s.message_box == message_box,
        SendStepModel::Pay(s, q) => s.recipient == recipient && a.quote == Ok::<_, ErrorModel>(q),
        SendStepModel::Post(_, _) => true,
    }
}


/// The whole way of a message, whatever is answered. Each step asks for what belongs to the message,
/// and the last step is a post to its host, of an object that names recipient and message box and
/// holds the body: the envelope of the ciphertext, or the body itself where encryption is skipped.
/// The message has the identifier that was given, or else the hash of the wallet in hexadecimal.
/// The payment is the one that was given; or else the one that was made, where fees are asked for
/// and there are some; or else there is none.
pub proof fn messages_are_sent_as_ordered(
    host: Seq<char>,
    recipient: Seq<char>,
    message_box: Seq<char>,
    body: Seq<char>,
    skip_encryption: bool,
    check_permissions: bool,
    message_id: Option<Seq<char>>,
    payment: Option<MessagePaymentModel>,
    a: SendAnswers,
)
    ensures
        ({
            let first = SendingModel::start(
                host,
                recipient,
                message_box,
                body,
                skip_encryption,
                check_permissions,
                message_id,
                payment,
            ).first_step(encrypt_request_model(body, key_of(recipient)));
            let steps = a.steps(first->Ok_0, 4);
            let fees = a.quote matches Ok(q) && (q.delivery_fee > 0 || q.recipient_fee > 0);
            let asked = check_permissions && payment is None;
            let known = message_id is Some || (key_of(recipient) is Ok && a.hmac is Ok);
            let ready = (skip_encryption || key_of(recipient) is Ok && a.ciphertext is Ok) && known;
            &&& first is Err ==> key_of(recipient) is Err && !(skip_encryption && message_id is Some)
            &&& first is Ok ==> (forall|i: int|
                0 <= i < steps.len() ==> asks_for_message(
                    #[trigger] steps[i],
                    recipient,
                    message_box,
                    body,
                    a,
                ))
            &&& first is Ok ==> (steps.last() is Post <==> ready && (asked ==> a.quote is Ok && (
            fees ==> a.payment is Ok)))
            &&& first is Ok && steps.last() is Post ==> {
                let id = match message_id {
                    Some(id) => id,
                    None => hex_text(a.hmac->Ok_0),
                };
                let url = host + "/sendMessage"@;
                steps.last() == SendStepModel::Post(
                    PostingModel { url, message_id: id },
                    HttpPostModel {
                        url,
                        body: (SendMessageRequestModel {
                            message: SendMessageParamsModel {
                                recipient,
                                message_box,
                                body: if skip_encryption {
                                    body
                                } else {
                                    envelope_text(a.ciphertext->Ok_0)
                                },
                                message_id: id,
                            },
                            payment: if asked && fees {
                                Some(a.payment->Ok_0)
                            } else {
                                payment
                            },
                        }).json_text(),
                    },
                )
            }
        }),
{
    let start = SendingModel::start(
        host,
        recipient,
        message_box,
        body,
        skip_encryption,
        check_permissions,
        message_id,
        payment,
    );
    let first = start.first_step(encrypt_request_model(body, key_of(recipient)));
    if first is Ok {
        reveal_with_fuel(SendAnswers::steps, 5);
    }
}

/// Where fees are to be asked for and no payment was given, no way leads to a post but over the
/// fees: before it stands a step that asks for them. Where they are not, no step asks for fees or
/// pays.
pub proof fn fees_are_asked_for_before_the_post(
    s: SendingModel,
    encrypt: Result<EncryptRequestModel, ErrorModel>,
    a: SendAnswers,
    n: nat,
)
    requires
        !s.fees_settled,
        s.wire_body is None,
        s.first_step(encrypt) is Ok,
    ensures
        ({
            let steps = a.steps(s.first_step(encrypt)->Ok_0, n);
            if s.check_permissions && s.payment is None {
                steps.last() is Post ==> exists|i: int|
                    0 <= i < steps.len() - 1 && (#[trigger] steps[i]) is Quote
            } else {
                forall|i: int|
                    0 <= i < steps.len() ==> !((#[trigger] steps[i]) is Quote) && !(steps[i] is Pay)
            }
        }),
{
    fees_on_the_way(s, s.first_step(encrypt)->Ok_0, a, n);
}

spec fn on_the_way(s: SendingModel, step: SendStepModel) -> bool {
    let asked = s.check_permissions && s.payment is None;
    match step {
        SendStepModel::Encrypt(t, _) | SendStepModel::Identify(t, _) => {
            &&& t.check_permissions == s.check_permissions
            &&& t.payment == s.payment
            &&& !t.fees_settled
        },
        SendStepModel::Quote(_) => asked,
        SendStepModel::Pay(_, _) => false,
        SendStepModel::Post(_, _) => !asked,
    }
}

proof fn fees_on_the_way(s: SendingModel, step: SendStepModel, a: SendAnswers, n: nat)
    requires
        on_the_way(s, step),
    ensures
        ({
            let steps = a.steps(step, n);
            if s.check_permissions && s.payment is None {
                steps.last() is Post ==> exists|i: int|
                    0 <= i < steps.len() - 1 && (#[trigger] steps[i]) is Quote
            } else {
                forall|i: int|
                    0 <= i < steps.len() ==> !((#[trigger] steps[i]) is Quote) && !(steps[i] is Pay)
            }
        }),
    decreases n,
{
    let steps = a.steps(step, n);
    assert(steps[0] == step);
    if n > 0 && !(step is Post) && a.follow(step) is Ok {
        let next = a.follow(step)->Ok_0;
        let rest = a.steps(next, (n - 1) as nat);
        assert(steps.len() == rest.len() + 1);
        assert(forall|i: int| 0 <= i < rest.len() ==> steps[i + 1] == #[trigger] rest[i]);
        assert(steps.last() == rest.last()) by {
            assert(rest.len() > 0);
        }
        if !(step is Quote) {
            fees_on_the_way(s, next, a, (n - 1) as nat);
            if s.check_permissions && s.payment is None {
                if steps.last() is Post {
                    let i = choose|i: int| 0 <= i < rest.len() - 1 && (#[trigger] rest[i]) is Quote;
                    assert(steps[i + 1] is Quote);
                }
            } else {
                assert forall|i: int| 0 <= i < steps.len() implies !((#[trigger] steps[i]) is Quote)
                    && !(steps[i] is Pay) by {
                    if i > 0 {
                        assert(steps[i] == rest[i - 1]);
                    }
                }
            }
        } else {
            assert(rest.len() > 0);
        }
    }
}

/// The step after the identifier becomes known asks for the fees exactly when they are to be asked
/// for and no payment is there, however the identifier was obtained: given, or hashed by the wallet.
pub proof fn fees_follow_the_identifier(
    s: SendingModel,
    encrypt: Result<EncryptRequestModel, ErrorModel>,
    ciphertext: Seq<u8>,
    hmac: Seq<u8>,
)
    requires
        !s.fees_settled,
    ensures
        s.identified(Ok(hmac)) matches Ok(step) && (step is Quote <==> s.check_permissions
            && s.payment is None) && (step is Quote || step is Post),
        s.message_id is Some ==> (s.encrypted(Ok(ciphertext)) matches Ok(step) && (step is Quote
            <==> s.check_permissions && s.payment is None) && (step is Quote || step is Post)),
        s.message_id is Some && s.skip_encryption ==> (s.first_step(encrypt) matches Ok(step) && (
        step is Quote <==> s.check_permissions && s.payment is None) && (step is Quote
            || step is Post)),
{
}

// ---------------------------------------------------------------------------------------------
// Routing
// ---------------------------------------------------------------------------------------------

/// The first step of sending a message.
pub enum MessageStep {
    /// Resolve the host of the recipient.
    Resolve(MessageOrder),
    /// Send it to its host.
    Send(SendStep),
}

/// The contents of a `MessageStep`.
#[verifier::ext_equal]
pub enum MessageStepModel {
    Resolve(MessageOrderModel),
    Send(SendStepModel),
}

impl View for MessageStep {
    type V = MessageStepModel;

    open spec fn view(&self) -> MessageStepModel {
        match self {
            MessageStep::Resolve(o) => MessageStepModel::Resolve(o@),
            MessageStep::Send(s) => MessageStepModel::Send(s@),
        }
    }
}

impl MessageOrderModel {
    /// The first step of sending the message to a host.
    pub open spec fn at(self, host: Seq<char>) -> Result<SendStepModel, ErrorModel> {
        SendingModel::start(
            host,
            self.recipient,
            self.message_box,
            self.body,
            self.skip_encryption,
            self.check_permissions,
            self.message_id,
            None,
        ).first_step(encrypt_request_model(self.body, key_of(self.recipient)))
    }

    /// The first step of sending the message: to the host that is given, or else the recipient is
    /// looked up.
    pub open spec fn first_step(self) -> Result<MessageStepModel, ErrorModel> {
        match self.host {
            None => Ok(MessageStepModel::Resolve(self)),
            Some(h) => match self.at(h) {
                Ok(s) => Ok(MessageStepModel::Send(s)),
                Err(e) => Err(e),
            },
        }
    }

    /// The step after the host of the recipient was resolved, or could not be.
    pub open spec fn routed(self, host: Result<Seq<char>, ErrorModel>) -> Result<
        SendStepModel,
        ErrorModel,
    > {
        match host {
            Err(e) => Err(e),
            Ok(h) => self.at(h),
        }
    }
}

impl MessageBoxClient {
    /// The first step of sending a message.
    pub fn send_message(&self, order: MessageOrder) -> (r: Result<MessageStep, MessageBoxError>)
        ensures
            result_view(r) == order@.first_step(),
    {
        match order.host.clone() {
            None => Ok(MessageStep::Resolve(order)),
            Some(h) => match order.at(h.as_str()) {
                Ok(s) => Ok(MessageStep::Send(s)),
                Err(e) => Err(e),
            },
        }
    }
}

impl MessageOrder {
    fn at(&self, host: &str) -> (r: Result<SendStep, MessageBoxError>)
        ensures
            result_view(r) == self@.at(host@),
    {
        let id = match &self.message_id {
            Some(id) => Some(id.as_str()),
            None => None,
        };
        send_message_to_host(
            host,
            self.recipient.as_str(),
            self.message_box.as_str(),
            self.body.as_str(),
            self.skip_encryption,
            self.check_permissions,
            id,
            None,
        )
    }

    /// The step after the host of the recipient was resolved, or could not be.
    pub fn routed(self, host: Result<String, MessageBoxError>) -> (r: Result<
        SendStep,
        MessageBoxError,
    >)
        ensures
            result_view(r) == self@.routed(result_view(host)),
    {
        match host {
            Err(e) => Err(e),
            Ok(h) => self.at(h.as_str()),
        }
    }
}

/// An order is carried out at its own host, or else at the host of its recipient, once that is
/// known. At either it is posted as it was given, whatever is answered: to that host, with the
/// recipient, the message box and the identifier of the order, and with a payment only where fees
/// are to be asked for and there are some. A recipient that cannot be looked up gets nothing.
pub proof fn orders_are_carried_out(
    o: MessageOrderModel,
    host: Seq<char>,
    e: ErrorModel,
    a: SendAnswers,
)
    ensures
        o.host is None ==> o.first_step() == Ok::<_, ErrorModel>(MessageStepModel::Resolve(o)),
        o.host matches Some(h) ==> match (o.first_step(), o.routed(Ok(h))) {
            (Ok(MessageStepModel::Send(step)), Ok(other)) => step == other,
            (Err(x), Err(y)) => x == y,
            _ => false,
        },
        o.routed(Err(e)) == Err::<SendStepModel, _>(e),
        o.routed(Ok(host)) matches Ok(first) ==> (a.steps(first, 4).last() matches
            SendStepModel::Post(p, q) ==> {
            let fees = a.quote matches Ok(q) && (q.delivery_fee > 0 || q.recipient_fee > 0);
            let id = match o.message_id {
                Some(id) => id,
                None => hex_text(a.hmac->Ok_0),
            };
            &&& p.url == host + "/sendMessage"@
            &&& p.message_id == id
            &&& q.url == p.url
            &&& q.body == (SendMessageRequestModel {
                message: SendMessageParamsModel {
                    recipient: o.recipient,
                    message_box: o.message_box,
                    body: if o.skip_encryption {
                        o.body
                    } else {
                        envelope_text(a.ciphertext->Ok_0)
                    },
                    message_id: id,
                },
                payment: if o.check_permissions && fees {
                    Some(a.payment->Ok_0)
                } else {
                    None
                },
            }).json_text()
        }),
        o.routed(Ok(host)) matches Ok(first) ==> (first is Encrypt <==> !o.skip_encryption),
        o.routed(Ok(host)) matches Ok(SendStepModel::Encrypt(_, q)) ==> q.plaintext == encode_utf8(
            o.body,
        ),
        o.routed(Ok(host)) is Err ==> key_of(o.recipient) is Err,
{
    messages_are_sent_as_ordered(
        host,
        o.recipient,
        o.message_box,
        o.body,
        o.skip_encryption,
        o.check_permissions,
        o.message_id,
        None,
        a,
    );
}

/// A sending that cannot go on ends with the failure that stopped it: the wallet's as one of the
/// wallet, and a key that cannot be read as one of the encryption.
pub proof fn send_failures_are_told(
    s: SendingModel,
    encrypt: Result<EncryptRequestModel, ErrorModel>,
    ciphertext: Seq<u8>,
    e: Seq<char>,
)
    ensures
        s.encrypted(Err(e)) == Err::<SendStepModel, _>(ErrorModel::Wallet(e)),
        s.identified(Err(e)) == Err::<SendStepModel, _>(ErrorModel::Wallet(e)),
        !s.skip_encryption && encrypt is Err ==> s.first_step(encrypt) == Err::<SendStepModel, _>(
            encrypt->Err_0,
        ),
        s.skip_encryption && s.message_id is None && key_of(s.recipient) is Err ==> s.first_step(
            encrypt,
        ) == Err::<SendStepModel, _>(ErrorModel::Encryption(key_of(s.recipient)->Err_0)),
        s.message_id is None && key_of(s.recipient) is Err ==> s.encrypted(Ok(ciphertext)) == Err::<
            SendStepModel,
            _,
        >(ErrorModel::Encryption(key_of(s.recipient)->Err_0)),
{
}

} // verus!
