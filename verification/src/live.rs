//! Live messages: sending one with mail to fall back on, and handing each received one on once.

use crate::chain::key_of;
use crate::client::{host_choice, room, room_id, MessageBoxClient};
use crate::codec::hex_text;
use crate::collections::TextSet;
use crate::delivery::{DeliveryMode, DeliveryModel};
use crate::encryption::{
    encrypt_body, encrypt_body_request, encrypt_request_model, envelope_text,
    generate_message_id, message_id_model, message_id_request, message_id_request_model,
};
use crate::error::{ErrorModel, MessageBoxError};
use crate::json::{json_quoted, ToJson};
use crate::peer_pay::payment_message;
use crate::sending::{MessageOrder, MessageOrderModel};
use crate::text::{opt_view, result_view, same_text, trim, trimmed, views};
use crate::types::{
    PaymentToken, PaymentTokenModel, WsSendMessageData, WsSendMessageDataModel, WsSendMessagePayload,
    WsSendMessagePayloadModel,
};
use crate::wallet::{
    EncryptRequest, EncryptRequestModel, HmacRequest, HmacRequestModel, PartyModel,
};
use crate::websocket::{ack_event, ack_key, delivery_event, event_key};
use vstd::prelude::*;
use vstd::string::*;
use vstd::utf8::*;

verus! {

broadcast use vstd::string::group_string_axioms;

/// How long an acknowledgement is waited for, in milliseconds.
pub const ACK_TIMEOUT_MS: u64 = 10_000;

/// How long it is from one look into the mailbox to the next, in milliseconds.
pub const POLL_INTERVAL_MS: u64 = 2_000;

/// How many looks into the mailbox can be passed over in a row.
pub const MAX_POLL_SKIPS: u32 = 7;

/// A message on its way to the live connection.
pub struct LiveSend {
    /// What is sent.
    order: MessageOrder,
    /// The host of the live connection.
    own_host: String,
}

/// The contents of a `LiveSend`.
#[verifier::ext_equal]
pub struct LiveSendModel {
    pub order: MessageOrderModel,
    pub own_host: Seq<char>,
}

impl View for LiveSend {
    type V = LiveSendModel;

    closed spec fn view(&self) -> LiveSendModel {
        LiveSendModel {
            order: self.order@,
            own_host: self.own_host@,
        }
    }
}

/// A live message whose body is ready.
pub struct LiveBody {
    /// What is sent.
    order: MessageOrder,
    /// The body as it goes out.
    wire_body: String,
}

/// The contents of a `LiveBody`.
#[verifier::ext_equal]
pub struct LiveBodyModel {
    pub order: MessageOrderModel,
    pub wire_body: Seq<char>,
}

impl View for LiveBody {
    type V = LiveBodyModel;

    closed spec fn view(&self) -> LiveBodyModel {
        LiveBodyModel {
            order: self.order@,
            wire_body: self.wire_body@,
        }
    }
}

/// A live message that is handed to the connection.
pub struct LiveEmit {
    /// What is sent.
    order: MessageOrder,
    /// Its name.
    message_id: String,
    /// The event that acknowledges it.
    ack_key: String,
}

/// The contents of a `LiveEmit`.
#[verifier::ext_equal]
pub struct LiveEmitModel {
    pub order: MessageOrderModel,
    pub message_id: Seq<char>,
    pub ack_key: Seq<char>,
}

impl View for LiveEmit {
    type V = LiveEmitModel;

    closed spec fn view(&self) -> LiveEmitModel {
        LiveEmitModel {
            order: self.order@,
            message_id: self.message_id@,
            ack_key: self.ack_key@,
        }
    }
}

// ---------------------------------------------------------------------------------------------
// Sending
// ---------------------------------------------------------------------------------------------

/// What came of the wait for an acknowledgement.
#[derive(Clone, Copy, Debug, PartialEq, Eq)]
pub enum Acknowledgement {
    /// The server took the message.
    Accepted,
    /// The server refused the message, or the connection ended. The message waits no longer.
    Refused,
    /// Nothing came in time.
    OutOfTime,
}

/// The next step of sending a live message.
pub enum LiveStep {
    /// Resolve the host of the recipient.
    Resolve(LiveSend),
    /// Connect to this host, unless the connection stands.
    Connect(LiveSend, String),
    /// Ask for the own identity key.
    Identify(LiveSend),
    /// Join this room, which acknowledgements come by.
    Join(LiveSend, String),
    /// Ask for the encrypted body.
    Encrypt(LiveSend, EncryptRequest),
    /// Ask for the name of the message.
    Name(LiveBody, HmacRequest),
    /// Hand these data to the connection, and let the message wait for this event.
    Emit(LiveEmit, String, String),
    /// Wait for the acknowledgement.
    Await(LiveEmit),
    /// Give up waiting for this event, if there is one, and send the message by mail.
    Mail(MessageOrder, Option<String>),
    /// The message is sent.
    Done(DeliveryMode),
}

/// The contents of a `LiveStep`.
#[verifier::ext_equal]
pub enum LiveStepModel {
    Resolve(LiveSendModel),
    Connect(LiveSendModel, Seq<char>),
    Identify(LiveSendModel),
    Join(LiveSendModel, Seq<char>),
    Encrypt(LiveSendModel, EncryptRequestModel),
    Name(LiveBodyModel, HmacRequestModel),
    Emit(LiveEmitModel, Seq<char>, Seq<char>),
    Await(LiveEmitModel),
    Mail(MessageOrderModel, Option<Seq<char>>),
    Done(DeliveryModel),
}

impl View for LiveStep {
    type V = LiveStepModel;

    open spec fn view(&self) -> LiveStepModel {
        match self {
            LiveStep::Resolve(s) => LiveStepModel::Resolve(s@),
            LiveStep::Connect(s, host) => LiveStepModel::Connect(s@, host@),
            LiveStep::Identify(s) => LiveStepModel::Identify(s@),
            LiveStep::Join(s, room) => LiveStepModel::Join(s@, room@),
            LiveStep::Encrypt(s, q) => LiveStepModel::Encrypt(s@, q@),
            LiveStep::Name(s, q) => LiveStepModel::Name(s@, q@),
            LiveStep::Emit(s, data, event) => LiveStepModel::Emit(s@, data@, event@),
            LiveStep::Await(s) => LiveStepModel::Await(s@),
            LiveStep::Mail(o, event) => LiveStepModel::Mail(o@, opt_view(*event)),
            LiveStep::Done(d) => LiveStepModel::Done(d@),
        }
    }
}

impl LiveSendModel {
    /// The step that connects.
    pub open spec fn connect(self) -> LiveStepModel {
        LiveStepModel::Connect(self, host_choice(self.order.host, self.own_host))
    }

    /// The first step: a recipient whose host is not given is looked up.
    pub open spec fn first_step(self) -> LiveStepModel {
        if self.order.host is None {
            LiveStepModel::Resolve(self)
        } else {
            self.connect()
        }
    }

    /// The step after the host of the recipient was resolved. Only a recipient at the own host is
    /// reached live; one that cannot be resolved is taken to be there.
    pub open spec fn resolved(self, host: Option<Seq<char>>) -> LiveStepModel {
        match host {
            Some(h) => if trimmed(h) == trimmed(self.own_host) {
                self.connect()
            } else {
                LiveStepModel::Mail(self.order, None)
            },
            None => self.connect(),
        }
    }

    /// The step after the connection was made, or could not be.
    pub open spec fn connected(self, up: bool) -> LiveStepModel {
        if up {
            LiveStepModel::Identify(self)
        } else {
            LiveStepModel::Mail(self.order, None)
        }
    }

    /// The step after the own identity key was given.
    pub open spec fn identified(self, identity: Result<Seq<char>, ErrorModel>) -> Result<
        LiveStepModel,
        ErrorModel,
    > {
        match identity {
            Err(e) => Err(e),
            Ok(me) => Ok(LiveStepModel::Join(self, room(me, self.order.message_box))),
        }
    }

    /// The step once the body is ready, given the recipient's key.
    pub open spec fn with_body(self, wire_body: Seq<char>, key: Result<Seq<char>, Seq<char>>) -> Result<
        LiveStepModel,
        ErrorModel,
    > {
        let s = LiveBodyModel { order: self.order, wire_body };
        match self.order.message_id {
            Some(id) => Ok(s.emit(id)),
            None => match message_id_request_model(self.order.body, key) {
                Err(e) => Err(e),
                Ok(q) => Ok(LiveStepModel::Name(s, q)),
            },
        }
    }

    /// The step after the own room was joined, or could not be, given the recipient's key.
    pub open spec fn joined(self, joined: bool, key: Result<Seq<char>, Seq<char>>) -> Result<
        LiveStepModel,
        ErrorModel,
    > {
        if !joined {
            Ok(LiveStepModel::Mail(self.order, None))
        } else if self.order.skip_encryption {
            self.with_body(self.order.body, key)
        } else {
            match encrypt_request_model(self.order.body, key) {
                Err(e) => Err(e),
                Ok(q) => Ok(LiveStepModel::Encrypt(self, q)),
            }
        }
    }

    /// The step after the wallet answered with the ciphertext.
    pub open spec fn encrypted(
        self,
        reply: Result<Seq<u8>, Seq<char>>,
        key: Result<Seq<char>, Seq<char>>,
    ) -> Result<LiveStepModel, ErrorModel> {
        match reply {
            Err(e) => Err(ErrorModel::Wallet(e)),
            Ok(c) => self.with_body(envelope_text(c), key),
        }
    }
}

impl LiveBodyModel {
    /// The room that the message goes to.
    pub open spec fn room(self) -> Seq<char> {
        room(self.order.recipient, self.order.message_box)
    }

    /// The data that are handed to the connection.
    pub open spec fn data(self, message_id: Seq<char>) -> WsSendMessageDataModel {
        WsSendMessageDataModel {
            room_id: self.room(),
            message: WsSendMessagePayloadModel {
                message_id,
                recipient: self.order.recipient,
                body: self.wire_body,
            },
        }
    }

    /// The step that hands the message to the connection.
    pub open spec fn emit(self, message_id: Seq<char>) -> LiveStepModel {
        let event = ack_event(self.room());
        LiveStepModel::Emit(
            LiveEmitModel { order: self.order, message_id, ack_key: event },
            <WsSendMessageData as ToJson>::text_of(self.data(message_id)),
            event,
        )
    }

    /// The step after the wallet answered with the name of the message.
    pub open spec fn named(self, reply: Result<Seq<u8>, Seq<char>>) -> Result<
        LiveStepModel,
        ErrorModel,
    > {
        match message_id_model(reply) {
            Err(e) => Err(e),
            Ok(id) => Ok(self.emit(id)),
        }
    }
}

impl LiveEmitModel {
    /// The step after the message was handed to the connection, or could not be.
    pub open spec fn emitted(self, outcome: Result<(), ErrorModel>) -> Result<
        LiveStepModel,
        ErrorModel,
    > {
        match outcome {
            Err(e) => Err(e),
            Ok(_) => Ok(LiveStepModel::Await(self)),
        }
    }

    /// The step after the wait for the acknowledgement. Without one the message goes by mail. A
    /// message that was refused waits no longer; for one that is out of time the waiter is given
    /// up.
    pub open spec fn acknowledged(self, ack: Acknowledgement) -> LiveStepModel {
        match ack {
            Acknowledgement::Accepted => LiveStepModel::Done(DeliveryModel::Live(self.message_id)),
            Acknowledgement::Refused => LiveStepModel::Mail(self.order, None),
            Acknowledgement::OutOfTime => LiveStepModel::Mail(self.order, Some(self.ack_key)),
        }
    }
}

/// The outcome of mail: the message is kept for the recipient.
pub open spec fn mailed_model(outcome: Result<Seq<char>, ErrorModel>) -> Result<
    DeliveryModel,
    ErrorModel,
> {
    match outcome {
        Ok(id) => Ok(DeliveryModel::Persisted(id)),
        Err(e) => Err(e),
    }
}

/// The outcome of mail: the message is kept for the recipient.
pub fn mailed(outcome: Result<String, MessageBoxError>) -> (r: Result<
    DeliveryMode,
    MessageBoxError,
>)
    ensures
        result_view(r) == mailed_model(result_view(outcome)),
{
    match outcome {
        Ok(message_id) => Ok(DeliveryMode::Persisted { message_id }),
        Err(e) => Err(e),
    }
}

impl MessageBoxClient {
    /// The first step of sending a message live.
    pub fn send_live_message(&self, order: MessageOrder) -> (r: LiveStep)
        ensures
            r@ == (LiveSendModel { order: order@, own_host: self@.host }).first_step(),
    {
        let s = LiveSend { order, own_host: self.host().to_owned() };
        if s.order.host.is_none() {
            LiveStep::Resolve(s)
        } else {
            s.connect()
        }
    }

    /// The first step of sending a payment live.
    pub fn send_live_payment(&self, recipient: &str, token: &PaymentToken) -> (r: LiveStep)
        ensures
            r@ == (LiveSendModel {
                order: payment_message(recipient@, token@),
                own_host: self@.host,
            }).first_step(),
    {
        let order = self.send_payment(recipient, token);
        self.send_live_message(order)
    }

    /// The host to connect to: none, when the connection stands.
    pub fn connection_host(&self, connected: Option<bool>, override_host: Option<&str>) -> (r:
        Option<String>)
        ensures
            opt_view(r) == (if connected == Some(true) {
                None
            } else {
                Some(host_choice(opt_view(override_host), self@.host))
            }),
    {
        if let Some(true) = connected {
            return None;
        }
        Some(self.host_or_own(override_host))
    }
}

impl LiveSend {
    fn connect(self) -> (r: LiveStep)
        ensures
            r@ == self@.connect(),
    {
        let host = match &self.order.host {
            Some(h) => h.clone(),
            None => self.own_host.clone(),
        };
        LiveStep::Connect(self, host)
    }

    /// The step after the host of the recipient was resolved, or could not be.
    pub fn resolved(self, host: Result<String, MessageBoxError>) -> (r: LiveStep)
        ensures
            r@ == self@.resolved(
                match host {
                    Ok(h) => Some(h@),
                    Err(_) => None,
                },
            ),
    {
        match host {
            Ok(h) => {
                let there = trim(h.as_str());
                let here = trim(self.own_host.as_str());
                if same_text(there.as_str(), here.as_str()) {
                    self.connect()
                } else {
                    LiveStep::Mail(self.order, None)
                }
            },
            Err(_) => self.connect(),
        }
    }

    /// The step after the connection was made, or could not be.
    pub fn connected(self, outcome: Result<(), MessageBoxError>) -> (r: LiveStep)
        ensures
            r@ == self@.connected(outcome is Ok),
    {
        match outcome {
            Ok(_) => LiveStep::Identify(self),
            Err(_) => LiveStep::Mail(self.order, None),
        }
    }

    /// The step after the own identity key was given.
    pub fn identified(self, identity: Result<String, MessageBoxError>) -> (r: Result<
        LiveStep,
        MessageBoxError,
    >)
        ensures
            result_view(r) == self@.identified(result_view(identity)),
    {
        match identity {
            Err(e) => Err(e),
            Ok(me) => {
                let room = room_id(me.as_str(), self.order.message_box.as_str());
                Ok(LiveStep::Join(self, room))
            },
        }
    }

    fn with_body(self, wire_body: String) -> (r: Result<LiveStep, MessageBoxError>)
        ensures
            result_view(r) == self@.with_body(wire_body@, key_of(self@.order.recipient)),
    {
        let given = self.order.message_id.clone();
        let s = LiveBody { order: self.order, wire_body };
        match given {
            Some(id) => Ok(s.emit(id)),
            None => match message_id_request(s.order.body.as_str(), s.order.recipient.as_str()) {
                Err(e) => Err(e),
                Ok(q) => Ok(LiveStep::Name(s, q)),
            },
        }
    }

    /// The step after the own room was joined, or could not be.
    pub fn joined(self, outcome: Result<(), MessageBoxError>) -> (r: Result<
        LiveStep,
        MessageBoxError,
    >)
        ensures
            result_view(r) == self@.joined(outcome is Ok, key_of(self@.order.recipient)),
    {
        if outcome.is_err() {
            return Ok(LiveStep::Mail(self.order, None));
        }
        if self.order.skip_encryption {
            let body = self.order.body.clone();
            self.with_body(body)
        } else {
            match encrypt_body_request(self.order.body.as_str(), self.order.recipient.as_str()) {
                Err(e) => Err(e),
                Ok(q) => Ok(LiveStep::Encrypt(self, q)),
            }
        }
    }

    /// The step after the wallet answered with the ciphertext.
    pub fn encrypted(self, reply: Result<Vec<u8>, String>) -> (r: Result<LiveStep, MessageBoxError>)
        ensures
            result_view(r) == self@.encrypted(result_view(reply), key_of(self@.order.recipient)),
    {
        match reply {
            Err(e) => Err(MessageBoxError::Wallet(e)),
            Ok(c) => self.with_body(encrypt_body(&c)),
        }
    }
}

impl LiveBody {
    fn emit(self, message_id: String) -> (r: LiveStep)
        ensures
            r@ == self@.emit(message_id@),
    {
        let ghost model = self@;
        let room = room_id(self.order.recipient.as_str(), self.order.message_box.as_str());
        let event = ack_key(room.as_str());
        let data = WsSendMessageData {
            room_id: room,
            message: WsSendMessagePayload {
                message_id: message_id.clone(),
                recipient: self.order.recipient.clone(),
                body: self.wire_body,
            },
        };
        assert(data@ == model.data(message_id@));
        let text = data.to_json();
        LiveStep::Emit(
            LiveEmit { order: self.order, message_id, ack_key: event.clone() },
            text,
            event,
        )
    }

    /// The step after the wallet answered with the name of the message.
    pub fn named(self, reply: Result<Vec<u8>, String>) -> (r: Result<LiveStep, MessageBoxError>)
        ensures
            result_view(r) == self@.named(result_view(reply)),
    {
        match generate_message_id(reply) {
            Err(e) => Err(e),
            Ok(id) => Ok(self.emit(id)),
        }
    }
}

impl LiveEmit {
    /// The step after the message was handed to the connection, or could not be.
    pub fn emitted(self, outcome: Result<(), MessageBoxError>) -> (r: Result<
        LiveStep,
        MessageBoxError,
    >)
        ensures
            result_view(r) == self@.emitted(result_view(outcome)),
    {
        match outcome {
            Err(e) => Err(e),
            Ok(_) => Ok(LiveStep::Await(self)),
        }
    }

    /// The step after the wait for the acknowledgement.
    pub fn acknowledged(self, ack: Acknowledgement) -> (r: LiveStep)
        ensures
            r@ == self@.acknowledged(ack),
    {
        match ack {
            Acknowledgement::Accepted => LiveStep::Done(
                DeliveryMode::Live { message_id: self.message_id },
            ),
            Acknowledgement::Refused => LiveStep::Mail(self.order, None),
            Acknowledgement::OutOfTime => LiveStep::Mail(self.order, Some(self.ack_key)),
        }
    }
}

/// A message counts as delivered live exactly when it was acknowledged. Whatever else goes wrong on
/// the way to the connection, the message goes by mail as it was ordered.
pub proof fn live_means_acknowledged(
    s: LiveEmitModel,
    send: LiveSendModel,
    key: Result<Seq<char>, Seq<char>>,
)
    ensures
        forall|ack: Acknowledgement|
            ack is Accepted <==> #[trigger] s.acknowledged(ack) == LiveStepModel::Done(
                DeliveryModel::Live(s.message_id),
            ),
        forall|ack: Acknowledgement|
            !(ack is Accepted) ==> (#[trigger] s.acknowledged(ack) matches LiveStepModel::Mail(o, _)
                && o == s.order),
        send.connected(false) == LiveStepModel::Mail(send.order, None),
        send.joined(false, key) == Ok::<_, ErrorModel>(LiveStepModel::Mail(send.order, None)),
        forall|outcome: Result<Seq<char>, ErrorModel>|
            !(#[trigger] mailed_model(outcome) matches Ok(DeliveryModel::Live(_))),
{
}

/// What is answered while a message is sent live: the host of the recipient, where it can be
/// resolved; whether the connection stands; the own identity key; whether the room was joined; the
/// ciphertext and the hash that the wallet gives; whether the connection took the data; and what
/// came of the wait.
pub struct LiveAnswers {
    pub host: Option<Seq<char>>,
    pub up: bool,
    pub identity: Result<Seq<char>, ErrorModel>,
    pub joined: bool,
    pub ciphertext: Result<Seq<u8>, Seq<char>>,
    pub hmac: Result<Seq<u8>, Seq<char>>,
    pub emitted: Result<(), ErrorModel>,
    pub ack: Acknowledgement,
}

impl LiveAnswers {
    /// The step that follows one when it is answered.
    pub open spec fn follow(self, step: LiveStepModel) -> Result<LiveStepModel, ErrorModel> {
        match step {
            LiveStepModel::Resolve(s) => Ok(s.resolved(self.host)),
            LiveStepModel::Connect(s, _) => Ok(s.connected(self.up)),
            LiveStepModel::Identify(s) => s.identified(self.identity),
            LiveStepModel::Join(s, _) => s.joined(self.joined, key_of(s.order.recipient)),
            LiveStepModel::Encrypt(s, _) => s.encrypted(
                self.ciphertext,
                key_of(s.order.recipient),
            ),
            LiveStepModel::Name(s, _) => s.named(self.hmac),
            LiveStepModel::Emit(s, _, _) => s.emitted(self.emitted),
            LiveStepModel::Await(s) => Ok(s.acknowledged(self.ack)),
            LiveStepModel::Mail(_, _) | LiveStepModel::Done(_) => Ok(step),
        }
    }

    /// The step that is reached after `n` answers, or the first error.
    pub open spec fn step(self, first: LiveStepModel, n: nat) -> Result<LiveStepModel, ErrorModel>
        decreases n,
    {
        if n == 0 {
            Ok(first)
        } else {
            match self.step(first, (n - 1) as nat) {
                Ok(step) => self.follow(step),
                Err(e) => Err(e),
            }
        }
    }
}

/// The identifier of a live message: the one that was given, or the hash of the wallet in
/// hexadecimal.
pub open spec fn live_id(o: MessageOrderModel, a: LiveAnswers) -> Seq<char> {
    match o.message_id {
        Some(id) => id,
        None => hex_text(a.hmac->Ok_0),
    }
}

/// Whether a step asks for what belongs to a message: the connection to its host, or else to the
/// own; the room of the own key and the message box; the wallet about the body for the recipient;
/// and data that bring to the recipient's room the envelope of the ciphertext, or the body itself
/// only where encryption is skipped. Mail gets the message as it was ordered.
pub open spec fn asks_for_live(
    step: LiveStepModel,
    o: MessageOrderModel,
    own_host: Seq<char>,
    a: LiveAnswers,
) -> bool {
    let there = o.recipient + seq!['-'] + o.message_box;
    match step {
        LiveStepModel::Resolve(s) => s.order == o && o.host is None,
        LiveStepModel::Connect(s, host) => {
            &&& s.order == o
            &&& o.host is Some ==> host == o.host->0
            &&& o.host is None ==> host == own_host && (a.host is Some ==> trimmed(a.host->0)
                == trimmed(own_host))
        },
        LiveStepModel::Identify(s) => s.order == o && a.up,
        LiveStepModel::Join(s, room) => {
            &&& s.order == o
            &&& a.identity matches Ok(me)
            &&& room == me + seq!['-'] + o.message_box
        },
        LiveStepModel::Encrypt(s, q) => {
            &&& s.order == o
            &&& !o.skip_encryption && a.joined
            &&& q.plaintext == encode_utf8(o.body)
            &&& q.protocol.security_level == 1 && q.protocol.name == "messagebox"@
            &&& q.key_id == "1"@
            &&& q.counterparty matches PartyModel::Other(Some(k)) && key_of(o.recipient) == Ok::<
                Seq<char>,
                Seq<char>,
            >(k)
        },
        LiveStepModel::Name(_, q) => {
            &&& o.message_id is None && a.joined
            &&& q.data == encode_utf8(json_quoted(o.body))
            &&& q.protocol.security_level == 1 && q.protocol.name == "messagebox"@
            &&& q.key_id == "1"@
            &&& q.counterparty matches PartyModel::Other(Some(k)) && key_of(o.recipient) == Ok::<
                Seq<char>,
                Seq<char>,
            >(k)
        },
        LiveStepModel::Emit(_, data, event) => {
            &&& a.up && a.joined
            &&& o.skip_encryption || a.ciphertext is Ok
            &&& o.message_id is Some || a.hmac is Ok
            &&& event == "sendMessageAck-"@ + there
            &&& data == (WsSendMessageDataModel {
                room_id: there,
                message: WsSendMessagePayloadModel {
                    message_id: live_id(o, a),
                    recipient: o.recipient,
                    body: if o.skip_encryption {
                        o.body
                    } else {
                        envelope_text(a.ciphertext->Ok_0)
                    },
                },
            }).json_text()
        },
        LiveStepModel::Await(_) => a.up && a.joined && a.emitted is Ok,
        LiveStepModel::Mail(m, event) => {
            &&& m == o
            &&& event == (if a.up && a.joined && a.emitted is Ok && a.ack is OutOfTime && (o.host
                is Some || a.host is None || trimmed(a.host->0) == trimmed(own_host)) {
                Some("sendMessageAck-"@ + there)
            } else {
                None
            })
        },
        LiveStepModel::Done(d) => {
            &&& a.up && a.joined && a.emitted is Ok && a.ack is Accepted
            &&& d == DeliveryModel::Live(live_id(o, a))
        },
    }
}

spec fn is_live_step_of(
    step: LiveStepModel,
    o: MessageOrderModel,
    own_host: Seq<char>,
    a: LiveAnswers,
) -> bool {
    let there = o.recipient + seq!['-'] + o.message_box;
    let reachable = o.host is Some || a.host is None || trimmed(a.host->0) == trimmed(own_host);
    match step {
        LiveStepModel::Resolve(s) => s.own_host == own_host,
        LiveStepModel::Connect(s, _) | LiveStepModel::Identify(s) | LiveStepModel::Join(s, _)
        | LiveStepModel::Encrypt(s, _) => s.own_host == own_host && reachable && (!(step is Connect)
            ==> a.up),
        LiveStepModel::Name(s, _) => {
            &&& s.order == o && reachable && a.up
            &&& o.skip_encryption ==> s.wire_body == o.body
            &&& !o.skip_encryption ==> a.ciphertext is Ok && s.wire_body == envelope_text(
                a.ciphertext->Ok_0,
            )
        },
        LiveStepModel::Emit(s, _, _) | LiveStepModel::Await(s) => {
            &&& s.order == o && reachable
            &&& s.message_id == live_id(o, a)
            &&& s.ack_key == "sendMessageAck-"@ + there
        },
        _ => true,
    }
}

/// The whole way of a live message, whatever is answered: at every step what is asked for belongs
/// to the message, and in the end it counts as delivered live exactly when the server accepted it,
/// under its identifier; else it goes by mail as it was ordered, or the error is told.
pub proof fn live_messages_are_sent_as_ordered(
    o: MessageOrderModel,
    own_host: Seq<char>,
    a: LiveAnswers,
    n: nat,
)
    ensures
        a.step((LiveSendModel { order: o, own_host }).first_step(), n) matches Ok(step)
            ==> asks_for_live(step, o, own_host, a),
{
    live_steps_go_on(o, own_host, a, n);
}

proof fn live_steps_go_on(o: MessageOrderModel, own_host: Seq<char>, a: LiveAnswers, n: nat)
    ensures
        a.step((LiveSendModel { order: o, own_host }).first_step(), n) matches Ok(step)
            ==> asks_for_live(step, o, own_host, a) && is_live_step_of(step, o, own_host, a),
    decreases n,
{
    if n > 0 {
        live_steps_go_on(o, own_host, a, (n - 1) as nat);
    }
}

/// A payment token never goes over the connection in the clear: what is handed to the connection is
/// the envelope of its ciphertext, in the room of the recipient's payment inbox, and the wallet was
/// asked to encrypt the JSON text of the token.
pub proof fn live_payments_are_encrypted(
    recipient: Seq<char>,
    token: PaymentTokenModel,
    own_host: Seq<char>,
    a: LiveAnswers,
    n: nat,
)
    ensures
        a.step(
            (LiveSendModel { order: payment_message(recipient, token), own_host }).first_step(),
            n,
        ) matches Ok(step) ==> match step {
            LiveStepModel::Encrypt(_, q) => q.plaintext == encode_utf8(
                <PaymentToken as ToJson>::text_of(token),
            ),
            LiveStepModel::Emit(_, data, _) => {
                &&& a.ciphertext is Ok && a.hmac is Ok
                &&& data == (WsSendMessageDataModel {
                    room_id: recipient + seq!['-'] + "payment_inbox"@,
                    message: WsSendMessagePayloadModel {
                        message_id: hex_text(a.hmac->Ok_0),
                        recipient,
                        body: envelope_text(a.ciphertext->Ok_0),
                    },
                }).json_text()
            },
            LiveStepModel::Mail(o, _) => o == payment_message(recipient, token),
            _ => true,
        },
{
    live_messages_are_sent_as_ordered(payment_message(recipient, token), own_host, a, n);
}

/// A live message whose recipient is at the own host, or at a host that is given, comes to its end
/// when every answer is good: it is delivered live.
pub proof fn live_messages_arrive(o: MessageOrderModel, own_host: Seq<char>, a: LiveAnswers)
    requires
        o.host is Some || a.host is None || trimmed(a.host->0) == trimmed(own_host),
        a.up && a.identity is Ok && a.joined && a.emitted is Ok && a.ack is Accepted,
        a.ciphertext is Ok && a.hmac is Ok,
        key_of(o.recipient) is Ok,
    ensures
        a.step((LiveSendModel { order: o, own_host }).first_step(), 8) == Ok::<_, ErrorModel>(
            LiveStepModel::Done(DeliveryModel::Live(live_id(o, a))),
        ),
{
    reveal_with_fuel(LiveAnswers::step, 9);
}

// ---------------------------------------------------------------------------------------------
// Receiving
// ---------------------------------------------------------------------------------------------

/// What a listener has handed on so far.
pub struct LiveFeed {
    seen: TextSet,
    pushed: bool,
    skips: u32,
}

/// The contents of a `LiveFeed`: the messages that were handed on, whether the connection brought
/// one since the last tick, and how many looks into the mailbox were passed over since the last.
#[verifier::ext_equal]
pub struct FeedModel {
    pub seen: Set<Seq<char>>,
    pub pushed: bool,
    pub skips: u32,
}

impl View for LiveFeed {
    type V = FeedModel;

    closed spec fn view(&self) -> FeedModel {
        FeedModel { seen: self.seen@, pushed: self.pushed, skips: self.skips }
    }
}

impl FeedModel {
    /// A listener that has handed nothing on.
    pub open spec fn start() -> FeedModel {
        FeedModel { seen: Set::empty(), pushed: false, skips: 0 }
    }

    /// The listener after a message came, by the connection or from the mailbox.
    pub open spec fn took(self, id: Seq<char>, by_push: bool) -> FeedModel {
        FeedModel {
            seen: self.seen.insert(id),
            pushed: self.pushed || (by_push && !self.seen.contains(id)),
            ..self
        }
    }

    /// Whether the next look into the mailbox is passed over: when the connection brought a
    /// message since the last tick, but not too often in a row.
    pub open spec fn skips_poll(self) -> bool {
        self.pushed && self.skips < MAX_POLL_SKIPS
    }

    /// The listener after a tick.
    pub open spec fn ticked(self) -> FeedModel {
        FeedModel {
            pushed: false,
            skips: if self.skips_poll() {
                (self.skips + 1) as u32
            } else {
                0
            },
            ..self
        }
    }
}

impl LiveFeed {
    /// Whether the messages are a set.
    pub closed spec fn wf(&self) -> bool {
        self.seen.wf()
    }

    /// A listener that has handed nothing on.
    pub fn new() -> (r: LiveFeed)
        ensures
            r.wf(),
            r@ == FeedModel::start(),
    {
        LiveFeed { seen: TextSet::new(), pushed: false, skips: 0 }
    }

    /// Takes a message that came by the connection, and says whether to hand it on.
    pub fn push(&mut self, message_id: &str) -> (r: bool)
        requires
            old(self).wf(),
        ensures
            final(self).wf(),
            final(self)@ == old(self)@.took(message_id@, true),
            r == !old(self)@.seen.contains(message_id@),
    {
        let fresh = self.seen.insert(message_id);
        if fresh {
            self.pushed = true;
        }
        fresh
    }

    /// Takes a message from the mailbox, and says whether to hand it on.
    pub fn poll(&mut self, message_id: &str) -> (r: bool)
        requires
            old(self).wf(),
        ensures
            final(self).wf(),
            final(self)@ == old(self)@.took(message_id@, false),
            r == !old(self)@.seen.contains(message_id@),
    {
        self.seen.insert(message_id)
    }

    /// Says whether to look into the mailbox now.
    pub fn tick(&mut self) -> (r: bool)
        requires
            old(self).wf(),
        ensures
            final(self).wf(),
            final(self)@ == old(self)@.ticked(),
            r == !old(self)@.skips_poll(),
    {
        let skip = self.pushed && self.skips < MAX_POLL_SKIPS;
        self.pushed = false;
        self.skips = if skip {
            self.skips + 1
        } else {
            0
        };
        !skip
    }
}

/// The listener after messages came, each by the connection or from the mailbox.
pub open spec fn after_all(start: FeedModel, came: Seq<(Seq<char>, bool)>) -> FeedModel
    decreases came.len(),
{
    if came.len() == 0 {
        start
    } else {
        after_all(start, came.drop_last()).took(came.last().0, came.last().1)
    }
}

/// The messages that are handed on, in their order.
pub open spec fn handed_on(start: FeedModel, came: Seq<(Seq<char>, bool)>) -> Seq<Seq<char>>
    decreases came.len(),
{
    if came.len() == 0 {
        Seq::empty()
    } else {
        let before = handed_on(start, came.drop_last());
        let id = came.last().0;
        if after_all(start, came.drop_last()).seen.contains(id) {
            before
        } else {
            before.push(id)
        }
    }
}

proof fn handed_on_is_what_was_seen(came: Seq<(Seq<char>, bool)>)
    ensures
        handed_on(FeedModel::start(), came).no_duplicates(),
        forall|id: Seq<char>|
            handed_on(FeedModel::start(), came).contains(id) <==> #[trigger] after_all(
                FeedModel::start(),
                came,
            ).seen.contains(id),
        forall|id: Seq<char>| #[trigger]
            after_all(FeedModel::start(), came).seen.contains(id) <==> exists|i: int|
                0 <= i < came.len() && (#[trigger] came[i]).0 == id,
    decreases came.len(),
{
    let start = FeedModel::start();
    if came.len() > 0 {
        let rest = came.drop_last();
        handed_on_is_what_was_seen(rest);
        let before = handed_on(start, rest);
        let now = handed_on(start, came);
        let last = came.last().0;
        assert forall|id: Seq<char>| now.contains(id) <==> #[trigger] after_all(
            start,
            came,
        ).seen.contains(id) by {
            if before.contains(id) {
                let j = choose|j: int| 0 <= j < before.len() && before[j] == id;
                assert(now[j] == id);
            }
            if now.contains(id) {
                let j = choose|j: int| 0 <= j < now.len() && now[j] == id;
                if j < before.len() {
                    assert(before[j] == id);
                }
            }
            if id == last && !before.contains(id) {
                assert(now[before.len() as int] == id);
            }
        }
        assert forall|id: Seq<char>| #[trigger]
            after_all(start, came).seen.contains(id) <==> exists|i: int|
                0 <= i < came.len() && (#[trigger] came[i]).0 == id by {
            if exists|i: int| 0 <= i < came.len() && (#[trigger] came[i]).0 == id {
                let i = choose|i: int| 0 <= i < came.len() && (#[trigger] came[i]).0 == id;
                if i < rest.len() {
                    assert(rest[i].0 == id);
                }
            }
            if after_all(start, rest).seen.contains(id) {
                let i = choose|i: int| 0 <= i < rest.len() && (#[trigger] rest[i]).0 == id;
                assert(came[i].0 == id);
            }
            assert(came[came.len() - 1].0 == last);
        }
    }
}

/// Every message that comes is handed on exactly once, however often it comes and by whichever
/// way, and nothing else is handed on.
pub proof fn messages_are_handed_on_exactly_once(came: Seq<(Seq<char>, bool)>, id: Seq<char>)
    ensures
        handed_on(FeedModel::start(), came).no_duplicates(),
        handed_on(FeedModel::start(), came).contains(id) <==> exists|i: int|
            0 <= i < came.len() && (#[trigger] came[i]).0 == id,
{
    handed_on_is_what_was_seen(came);
    assert(handed_on(FeedModel::start(), came).contains(id) <==> after_all(
        FeedModel::start(),
        came,
    ).seen.contains(id));
}

proof fn messages_keep_the_skips(start: FeedModel, came: Seq<(Seq<char>, bool)>)
    ensures
        after_all(start, came).skips == start.skips,
    decreases came.len(),
{
    if came.len() > 0 {
        messages_keep_the_skips(start, came.drop_last());
    }
}

/// Whether a listener stands before its next tick as it may when it stood before the last one:
/// whatever messages came since.
pub open spec fn may_follow(before: FeedModel, after: FeedModel) -> bool {
    exists|came: Seq<(Seq<char>, bool)>| after == #[trigger] after_all(before.ticked(), came)
}

/// The mailbox is never left alone for longer than sixteen seconds: whatever the connection brings,
/// among as many ticks in a row as can be passed over and one more there is one that looks, and so
/// many ticks take sixteen seconds.
pub proof fn mailbox_is_looked_into_in_time(before: Seq<FeedModel>)
    requires
        before.len() == MAX_POLL_SKIPS + 1,
        forall|i: int|
            0 <= i < before.len() - 1 ==> may_follow(#[trigger] before[i], before[i + 1]),
    ensures
        exists|i: int| 0 <= i < before.len() && !(#[trigger] before[i]).skips_poll(),
        (MAX_POLL_SKIPS + 1) * POLL_INTERVAL_MS == 16_000,
{
    if forall|i: int| 0 <= i < before.len() ==> (#[trigger] before[i]).skips_poll() {
        skips_add_up(before, before.len() - 1);
        assert(before[before.len() - 1].skips_poll());
        assert(false);
    }
}

proof fn skips_add_up(before: Seq<FeedModel>, n: int)
    requires
        0 <= n < before.len(),
        forall|i: int|
            0 <= i < before.len() - 1 ==> may_follow(#[trigger] before[i], before[i + 1]),
        forall|i: int| 0 <= i < before.len() ==> (#[trigger] before[i]).skips_poll(),
    ensures
        before[n].skips >= n,
    decreases n,
{
    if n > 0 {
        skips_add_up(before, n - 1);
        let last = before[n - 1];
        assert(last.skips_poll());
        assert(may_follow(last, before[n - 1 + 1]));
        let came = choose|came: Seq<(Seq<char>, bool)>|
            before[n] == #[trigger] after_all(last.ticked(), came);
        messages_keep_the_skips(last.ticked(), came);
    }
}

// ---------------------------------------------------------------------------------------------
// Subscriptions
// ---------------------------------------------------------------------------------------------

/// The rooms that are listened to, whatever becomes of the connection.
pub struct Subscriptions {
    rooms: TextSet,
}

impl View for Subscriptions {
    type V = Set<Seq<char>>;

    closed spec fn view(&self) -> Set<Seq<char>> {
        self.rooms@
    }
}

/// A room to join again, and the event to subscribe to there.
#[derive(Clone, Debug)]
pub struct Rejoin {
    /// The room.
    pub room_id: String,
    /// The event.
    pub event_key: String,
}

impl Subscriptions {
    /// Whether the rooms are a set.
    pub closed spec fn wf(&self) -> bool {
        self.rooms.wf()
    }

    /// No rooms.
    pub fn new() -> (r: Subscriptions)
        ensures
            r.wf(),
            r@ == Set::<Seq<char>>::empty(),
    {
        Subscriptions { rooms: TextSet::new() }
    }

    /// Listens to a room.
    pub fn add(&mut self, room_id: &str)
        requires
            old(self).wf(),
        ensures
            final(self).wf(),
            final(self)@ == old(self)@.insert(room_id@),
    {
        let _ = self.rooms.insert(room_id);
    }

    /// Listens to a room no more.
    pub fn remove(&mut self, room_id: &str)
        requires
            old(self).wf(),
        ensures
            final(self).wf(),
            final(self)@ == old(self)@.remove(room_id@),
    {
        self.rooms.remove(room_id);
    }

    /// What to do again on a fresh connection: each room once.
    pub fn replay(&self) -> (r: Vec<Rejoin>)
        requires
            self.wf(),
        ensures
            forall|i: int|
                0 <= i < r@.len() ==> self@.contains((#[trigger] r@[i]).room_id@)
                    && r@[i].event_key@ == delivery_event(r@[i].room_id@),
            forall|room: Seq<char>| #[trigger]
                self@.contains(room) ==> exists|i: int|
                    0 <= i < r@.len() && (#[trigger] r@[i]).room_id@ == room,
            forall|i: int, j: int|
                0 <= i < j < r@.len() ==> (#[trigger] r@[i]).room_id@ != (
                #[trigger] r@[j]).room_id@,
    {
        let rooms = self.rooms.items();
        let ghost order = self.rooms.order();
        let mut r: Vec<Rejoin> = Vec::new();
        let mut i: usize = 0;
        while i < rooms.len()
            invariant
                0 <= i <= rooms@.len(),
                views(rooms@) == order,
                r@.len() == i,
                forall|k: int|
                    0 <= k < i ==> (#[trigger] r@[k]).room_id@ == order[k] && r@[k].event_key@
                        == delivery_event(order[k]),
            decreases rooms@.len() - i,
        {
            assert(order[i as int] == rooms@[i as int]@);
            r.push(
                Rejoin { room_id: rooms[i].clone(), event_key: event_key(rooms[i].as_str()) },
            );
            i = i + 1;
        }
        proof {
            self.rooms.order_tells_the_set();
            assert forall|room: Seq<char>| #[trigger] self@.contains(room) implies exists|i: int|
                0 <= i < r@.len() && (#[trigger] r@[i]).room_id@ == room by {
                let k = choose|k: int| 0 <= k < order.len() && order[k] == room;
                assert(r@[k].room_id@ == room);
            }
        }
        r
    }
}

/// Whether a failure of a live message is one of what was answered: that of the identity key, of
/// the wallet or of the connection, or that of a recipient whose key cannot be read.
pub open spec fn is_live_failure(e: ErrorModel, o: MessageOrderModel, a: LiveAnswers) -> bool {
    ||| a.identity == Err::<Seq<char>, _>(e)
    ||| a.emitted == Err::<(), _>(e)
    ||| (a.ciphertext matches Err(w) && e == ErrorModel::Wallet(w) && !o.skip_encryption)
    ||| (a.hmac matches Err(w) && e == ErrorModel::Wallet(w) && o.message_id is None)
    ||| (key_of(o.recipient) matches Err(k) && e == ErrorModel::Encryption(k))
}

/// A live message fails only with a failure of what was answered. It goes by mail only when its
/// recipient is at another host, the connection or its room cannot be had, or it was not accepted in
/// time. What mail says is what is told in the end.
pub proof fn live_failures_are_told(
    o: MessageOrderModel,
    own_host: Seq<char>,
    a: LiveAnswers,
    n: nat,
    mail: Result<Seq<char>, ErrorModel>,
)
    ensures
        a.step((LiveSendModel { order: o, own_host }).first_step(), n) matches Err(e)
            ==> is_live_failure(e, o, a),
        a.step((LiveSendModel { order: o, own_host }).first_step(), n) matches Ok(
            LiveStepModel::Mail(_, _),
        ) ==> {
            ||| o.host is None && a.host is Some && trimmed(a.host->0) != trimmed(own_host)
            ||| !a.up
            ||| !a.joined
            ||| a.emitted is Ok && !(a.ack is Accepted)
        },
        mail is Ok ==> mailed_model(mail) == Ok::<_, ErrorModel>(
            DeliveryModel::Persisted(mail->Ok_0),
        ),
        mail is Err ==> mailed_model(mail) == Err::<DeliveryModel, _>(mail->Err_0),
    decreases n,
{
    if n > 0 {
        live_failures_are_told(o, own_host, a, (n - 1) as nat, mail);
        live_steps_go_on(o, own_host, a, (n - 1) as nat);
    }
}

/// A look into the mailbox is passed over only when the connection brought something new since the
/// last tick, and at most seven times in a row; each time is counted, and a look starts the count
/// anew. Ticks come every two seconds, and an acknowledgement is waited for ten.
pub proof fn looks_are_passed_over_after_a_push(f: FeedModel, came: Seq<(Seq<char>, bool)>)
    ensures
        ({
            let g = after_all(f.ticked(), came);
            &&& g.skips_poll() <==> (exists|i: int|
                0 <= i < came.len() && #[trigger] is_new_push(f.seen, came, i)) && (if f.skips_poll() {
                f.skips + 1
            } else {
                0int
            }) < 7
            &&& f.skips_poll() ==> f.ticked().skips == f.skips + 1
            &&& !f.skips_poll() ==> f.ticked().skips == 0
            &&& f.ticked().seen == f.seen
        }),
        POLL_INTERVAL_MS == 2000,
        ACK_TIMEOUT_MS == 10_000,
{
    let t = f.ticked();
    pushes_are_noticed(t, came);
    messages_keep_the_skips(t, came);
    assert(t.seen == f.seen && !t.pushed);
    assert(after_all(t, came).pushed <==> exists|i: int|
        0 <= i < came.len() && #[trigger] is_new_push(f.seen, came, i));
}

/// Whether the message at a place came by the connection, and neither came before nor was seen.
pub open spec fn is_new_push(seen: Set<Seq<char>>, came: Seq<(Seq<char>, bool)>, i: int) -> bool {
    &&& came[i].1
    &&& !seen.contains(came[i].0)
    &&& forall|j: int| 0 <= j < i ==> (#[trigger] came[j]).0 != came[i].0
}

proof fn pushes_are_noticed(f: FeedModel, came: Seq<(Seq<char>, bool)>)
    ensures
        after_all(f, came).pushed <==> f.pushed || exists|i: int|
            0 <= i < came.len() && #[trigger] is_new_push(f.seen, came, i),
        forall|id: Seq<char>| #[trigger]
            after_all(f, came).seen.contains(id) <==> f.seen.contains(id) || exists|i: int|
                0 <= i < came.len() && (#[trigger] came[i]).0 == id,
    decreases came.len(),
{
    if came.len() > 0 {
        let rest = came.drop_last();
        let n = came.len() - 1;
        pushes_are_noticed(f, rest);
        assert(came[n] == came.last());
        assert forall|id: Seq<char>| #[trigger]
            after_all(f, came).seen.contains(id) <==> f.seen.contains(id) || exists|i: int|
                0 <= i < came.len() && (#[trigger] came[i]).0 == id by {
            if after_all(f, rest).seen.contains(id) && !f.seen.contains(id) {
                let i = choose|i: int| 0 <= i < rest.len() && (#[trigger] rest[i]).0 == id;
                assert(came[i].0 == id);
            }
            if exists|i: int| 0 <= i < came.len() && (#[trigger] came[i]).0 == id {
                let i = choose|i: int| 0 <= i < came.len() && (#[trigger] came[i]).0 == id;
                if i < n {
                    assert(rest[i].0 == id);
                }
            }
        }
        assert(forall|i: int| 0 <= i < n ==> #[trigger] rest[i] == came[i]);
        assert forall|i: int| 0 <= i < n implies #[trigger] is_new_push(f.seen, rest, i)
            == is_new_push(f.seen, came, i) by {
            assert(rest[i] == came[i]);
            if is_new_push(f.seen, rest, i) {
                assert forall|j: int| 0 <= j < i implies (#[trigger] came[j]).0 != came[i].0 by {
                    assert(rest[j] == came[j]);
                }
            }
            if is_new_push(f.seen, came, i) {
                assert forall|j: int| 0 <= j < i implies (#[trigger] rest[j]).0 != rest[i].0 by {
                    assert(rest[j] == came[j]);
                }
            }
        }
        if after_all(f, came).pushed && !f.pushed {
            if after_all(f, rest).pushed {
                let i = choose|i: int|
                    0 <= i < rest.len() && #[trigger] is_new_push(f.seen, rest, i);
                assert(is_new_push(f.seen, came, i));
            } else {
                assert forall|j: int| 0 <= j < n implies (#[trigger] came[j]).0 != came[n].0 by {
                    assert(rest[j] == came[j]);
                }
                assert(is_new_push(f.seen, came, n));
            }
        }
        if exists|i: int| 0 <= i < came.len() && #[trigger] is_new_push(f.seen, came, i) {
            let i = choose|i: int| 0 <= i < came.len() && #[trigger] is_new_push(f.seen, came, i);
            if i < n {
                assert(is_new_push(f.seen, rest, i));
            } else if after_all(f, rest).seen.contains(came[n].0) {
                let j = choose|j: int| 0 <= j < rest.len() && (#[trigger] rest[j]).0 == came[n].0;
                assert(came[j].0 == came[n].0);
            }
        }
    }
}

/// The body that goes over the connection is the envelope of the ciphertext, whether the identifier
/// was given or is asked for; it is the body itself only where encryption is skipped. No later step
/// puts another body in its place.
pub proof fn live_bodies_are_encrypted_unless_skipped(
    s: LiveSendModel,
    b: LiveBodyModel,
    ciphertext: Seq<u8>,
    hmac: Seq<u8>,
    key: Seq<char>,
)
    ensures
        !s.order.skip_encryption ==> (s.joined(true, Ok(key)) matches Ok(
            LiveStepModel::Encrypt(t, q),
        ) && t == s && q.plaintext == encode_utf8(s.order.body)),
        s.order.skip_encryption ==> match s.joined(true, Ok(key)) {
            Ok(step) => carries_body(step, s.order, s.order.body),
            Err(_) => false,
        },
        match s.encrypted(Ok(ciphertext), Ok(key)) {
            Ok(step) => carries_body(step, s.order, envelope_text(ciphertext)),
            Err(_) => false,
        },
        match b.named(Ok(hmac)) {
            Ok(LiveStepModel::Emit(_, data, _)) => data == live_data(
                b.order,
                hex_text(hmac),
                b.wire_body,
            ),
            _ => false,
        },
{
}

/// The data that bring a body to the room of a recipient, under an identifier.
pub open spec fn live_data(o: MessageOrderModel, id: Seq<char>, body: Seq<char>) -> Seq<char> {
    (WsSendMessageDataModel {
        room_id: o.recipient + seq!['-'] + o.message_box,
        message: WsSendMessagePayloadModel { message_id: id, recipient: o.recipient, body },
    }).json_text()
}

/// Whether a step goes on with a body: it hands it to the connection under the identifier that was
/// given, or keeps it while the identifier is asked for.
pub open spec fn carries_body(step: LiveStepModel, o: MessageOrderModel, body: Seq<char>) -> bool {
    match step {
        LiveStepModel::Emit(_, data, _) => o.message_id is Some && data == live_data(
            o,
            o.message_id->0,
            body,
        ),
        LiveStepModel::Name(t, _) => o.message_id is None && t.wire_body == body && t.order == o,
        _ => false,
    }
}

} // verus!
