//! Payments for messages: the fees of one recipient, and of several in one transaction.
//!
//! A payment is made in steps. Each step says what to ask of the wallet next, and takes its
//! answer.

use crate::chain::{
    anyone_identity, anyone_identity_text, anyone_key, derive_anyone_key, key_of, payment_script,
    payment_script_of, public_key,
};
use crate::codec::{base64_encode, base64_text, random_bytes};
use crate::error::{ErrorModel, MessageBoxError};
use crate::text::{joined, joined3, opt_view, result_view, views};
use crate::types::{
    MessageBoxQuote, MessagePayment, MessagePaymentModel, MessagePaymentOutput,
    MessagePaymentOutputModel,
};
use crate::wallet::{
    derived_key_request, messagebox_protocol, payment_protocol, protocol, ActionOutput,
    ActionOutputModel, ActionReply, ActionReplyModel, ActionRequest, ActionRequestModel,
    KeyRequest, KeyRequestModel, PartyModel,
};
use vstd::prelude::*;
use vstd::string::*;
use vstd::utf8::*;

verus! {

broadcast use vstd::string::group_string_axioms;

/// The key identifiers of the two outputs of a message payment.
#[derive(Clone, Debug)]
pub struct FeeNonces {
    /// The first part for the delivery fee.
    pub delivery_prefix: String,
    /// The second part for the delivery fee.
    pub delivery_suffix: String,
    /// The first part for the recipient fee.
    pub recipient_prefix: String,
    /// The second part for the recipient fee.
    pub recipient_suffix: String,
}

/// The contents of a `FeeNonces`.
#[verifier::ext_equal]
pub struct FeeNoncesModel {
    pub delivery_prefix: Seq<char>,
    pub delivery_suffix: Seq<char>,
    pub recipient_prefix: Seq<char>,
    pub recipient_suffix: Seq<char>,
}

impl View for FeeNonces {
    type V = FeeNoncesModel;

    open spec fn view(&self) -> FeeNoncesModel {
        FeeNoncesModel {
            delivery_prefix: self.delivery_prefix@,
            delivery_suffix: self.delivery_suffix@,
            recipient_prefix: self.recipient_prefix@,
            recipient_suffix: self.recipient_suffix@,
        }
    }
}

/// A message payment while it is made.
pub struct FeePayment {
    /// The recipient of the message.
    recipient: String,
    /// What the transaction is for.
    description: String,
    /// What the server asks.
    delivery_fee: i64,
    /// What the recipient asks.
    recipient_fee: i64,
    /// The identity key of the delivery agent.
    agent_key: String,
    /// The own identity key.
    sender_identity_key: String,
    /// The key identifiers.
    nonces: FeeNonces,
    /// The outputs so far.
    outputs: Vec<ActionOutput>,
    /// What the receivers are told of the outputs.
    payment_outputs: Vec<MessagePaymentOutput>,
}

/// The contents of a `FeePayment`.
#[verifier::ext_equal]
pub struct FeePaymentModel {
    pub recipient: Seq<char>,
    pub description: Seq<char>,
    pub delivery_fee: i64,
    pub recipient_fee: i64,
    pub agent_key: Seq<char>,
    pub sender_identity_key: Seq<char>,
    pub nonces: FeeNoncesModel,
    pub outputs: Seq<ActionOutputModel>,
    pub payment_outputs: Seq<MessagePaymentOutputModel>,
}

impl View for FeePayment {
    type V = FeePaymentModel;

    closed spec fn view(&self) -> FeePaymentModel {
        FeePaymentModel {
            recipient: self.recipient@,
            description: self.description@,
            delivery_fee: self.delivery_fee,
            recipient_fee: self.recipient_fee,
            agent_key: self.agent_key@,
            sender_identity_key: self.sender_identity_key@,
            nonces: self.nonces@,
            outputs: views(self.outputs@),
            payment_outputs: views(self.payment_outputs@),
        }
    }
}

/// What is due for one recipient of a message to several.
#[derive(Clone, Debug)]
pub struct FeeTuple {
    /// The recipient.
    pub recipient: String,
    /// What the server asks.
    pub delivery_fee: i64,
    /// What the recipient asks.
    pub recipient_fee: i64,
    /// The identity key of the delivery agent; empty when it is not known.
    pub agent_key: String,
}

/// The contents of a `FeeTuple`.
#[verifier::ext_equal]
pub struct FeeTupleModel {
    pub recipient: Seq<char>,
    pub delivery_fee: i64,
    pub recipient_fee: i64,
    pub agent_key: Seq<char>,
}

impl View for FeeTuple {
    type V = FeeTupleModel;

    open spec fn view(&self) -> FeeTupleModel {
        FeeTupleModel {
            recipient: self.recipient@,
            delivery_fee: self.delivery_fee,
            recipient_fee: self.recipient_fee,
            agent_key: self.agent_key@,
        }
    }
}

/// The payment of a message to several recipients while it is made.
pub struct FeeBatch {
    /// What is due.
    tuples: Vec<FeeTuple>,
    /// What the transaction is for.
    description: String,
    /// The recipient at hand.
    index: usize,
    /// Whether its own fee is at hand, after the delivery fee.
    on_recipient: bool,
    /// The first part of the key identifier, once the wallet gave it.
    prefix: Option<String>,
    /// The second part of the key identifier, once the wallet gave it.
    suffix: Option<String>,
    /// The outputs so far.
    outputs: Vec<ActionOutput>,
    /// What the receivers are told of the outputs.
    payment_outputs: Vec<MessagePaymentOutput>,
}

/// The contents of a `FeeBatch`.
#[verifier::ext_equal]
pub struct FeeBatchModel {
    pub tuples: Seq<FeeTupleModel>,
    pub description: Seq<char>,
    pub index: nat,
    pub on_recipient: bool,
    pub prefix: Option<Seq<char>>,
    pub suffix: Option<Seq<char>>,
    pub outputs: Seq<ActionOutputModel>,
    pub payment_outputs: Seq<MessagePaymentOutputModel>,
}

impl View for FeeBatch {
    type V = FeeBatchModel;

    closed spec fn view(&self) -> FeeBatchModel {
        FeeBatchModel {
            tuples: views(self.tuples@),
            description: self.description@,
            index: self.index as nat,
            on_recipient: self.on_recipient,
            prefix: opt_view(self.prefix),
            suffix: opt_view(self.suffix),
            outputs: views(self.outputs@),
            payment_outputs: views(self.payment_outputs@),
        }
    }
}

// ---------------------------------------------------------------------------------------------
// Parts of a payment
// ---------------------------------------------------------------------------------------------

/// The identifier of a derived key.
pub open spec fn key_identifier(prefix: Seq<char>, suffix: Seq<char>) -> Seq<char> {
    prefix + seq![' '] + suffix
}

/// The identifier of a derived key.
pub fn key_id(prefix: &str, suffix: &str) -> (r: String)
    ensures
        r@ == key_identifier(prefix@, suffix@),
{
    proof {
        reveal_strlit(" ");
        assert(" "@ =~= seq![' ']);
    }
    joined3(prefix, " ", suffix)
}

/// An output that pays a fee.
pub open spec fn fee_output(script: Seq<u8>, fee: int, description: Seq<char>) -> ActionOutputModel {
    ActionOutputModel {
        locking_script: script,
        satoshis: fee as u64,
        description,
        basket: None,
        custom_instructions: None,
    }
}

/// What the receiver of an output is told of it.
pub open spec fn told_output(
    index: nat,
    prefix: Seq<char>,
    suffix: Seq<char>,
    payer: Seq<char>,
) -> MessagePaymentOutputModel {
    MessagePaymentOutputModel {
        output_index: index as u32,
        derivation_prefix: encode_utf8(prefix),
        derivation_suffix: encode_utf8(suffix),
        sender_identity_key: payer,
    }
}

/// The request for the transaction of a payment. Its outputs keep their order.
pub open spec fn fee_action(
    description: Seq<char>,
    outputs: Seq<ActionOutputModel>,
) -> ActionRequestModel {
    ActionRequestModel {
        description,
        input_beef: None,
        inputs: Seq::empty(),
        outputs,
        labels: seq!["messagebox"@],
        randomize_outputs: Some(false),
        accept_delayed_broadcast: None,
    }
}

fn make_action(description: String, outputs: Vec<ActionOutput>) -> (r: ActionRequest)
    ensures
        r@ == fee_action(description@, views(outputs@)),
{
    let mut labels: Vec<String> = Vec::new();
    labels.push("messagebox".to_owned());
    assert(views(labels@) =~= seq!["messagebox"@]);
    let r = ActionRequest {
        description,
        input_beef: None,
        inputs: Vec::new(),
        outputs,
        labels,
        randomize_outputs: Some(false),
        accept_delayed_broadcast: None,
    };
    assert(r@.inputs =~= Seq::empty());
    r
}

/// Adds an output and what is told of it.
fn add_output(
    outputs: &mut Vec<ActionOutput>,
    told: &mut Vec<MessagePaymentOutput>,
    script: Vec<u8>,
    fee: i64,
    description: String,
    prefix: &str,
    suffix: &str,
    payer: &str,
)
    requires
        fee > 0,
    ensures
        views(final(outputs)@) == views(old(outputs)@).push(
            fee_output(script@, fee as int, description@),
        ),
        views(final(told)@) == views(old(told)@).push(
            told_output(old(outputs)@.len(), prefix@, suffix@, payer@),
        ),
{
    let ghost before_outputs = views(outputs@);
    let ghost before_told = views(told@);
    told.push(
        MessagePaymentOutput {
            output_index: outputs.len() as u32,
            derivation_prefix: prefix.as_bytes_vec(),
            derivation_suffix: suffix.as_bytes_vec(),
            sender_identity_key: payer.to_owned(),
        },
    );
    outputs.push(
        ActionOutput {
            locking_script: script,
            satoshis: fee as u64,
            description,
            basket: None,
            custom_instructions: None,
        },
    );
    assert(views(outputs@) =~= before_outputs.push(fee_output(script@, fee as int, description@)));
    assert(views(told@) =~= before_told.push(
        told_output(before_outputs.len(), prefix@, suffix@, payer@),
    ));
}

/// What is left of a payment while its transaction is made: what its receivers are told.
pub struct FeeReceipt {
    outputs: Vec<MessagePaymentOutput>,
}

impl View for FeeReceipt {
    type V = Seq<MessagePaymentOutputModel>;

    closed spec fn view(&self) -> Seq<MessagePaymentOutputModel> {
        views(self.outputs@)
    }
}

/// The payment, given the answer of the wallet to the request for its transaction.
pub open spec fn paid(
    told: Seq<MessagePaymentOutputModel>,
    reply: Result<ActionReplyModel, Seq<char>>,
) -> Result<MessagePaymentModel, ErrorModel> {
    match reply {
        Err(e) => Err(ErrorModel::Wallet(e)),
        Ok(a) => match a.tx {
            Some(tx) => Ok(MessagePaymentModel { tx, outputs: told }),
            None => Err(ErrorModel::Wallet("create_action returned no tx"@)),
        },
    }
}

impl FeeReceipt {
    /// The payment, given the answer of the wallet to the request for its transaction.
    pub fn finish(self, reply: Result<ActionReply, String>) -> (r: Result<
        MessagePayment,
        MessageBoxError,
    >)
        ensures
            result_view(r) == paid(self@, result_view(reply)),
    {
        match reply {
            Err(e) => Err(MessageBoxError::Wallet(e)),
            Ok(a) => match a.tx {
                Some(tx) => Ok(MessagePayment { tx, outputs: self.outputs }),
                None => Err(MessageBoxError::Wallet("create_action returned no tx".to_owned())),
            },
        }
    }
}

// ---------------------------------------------------------------------------------------------
// One recipient
// ---------------------------------------------------------------------------------------------

/// The next step of a message payment.
pub enum FeeStep {
    /// Ask the wallet for the key of the delivery fee.
    Derive(FeePayment, KeyRequest),
    /// Ask the wallet for the transaction.
    Create(FeeReceipt, ActionRequest),
}

/// The contents of a `FeeStep`.
#[verifier::ext_equal]
pub enum FeeStepModel {
    Derive(FeePaymentModel, KeyRequestModel),
    Create(Seq<MessagePaymentOutputModel>, ActionRequestModel),
}

impl View for FeeStep {
    type V = FeeStepModel;

    open spec fn view(&self) -> FeeStepModel {
        match self {
            FeeStep::Derive(p, q) => FeeStepModel::Derive(p@, q@),
            FeeStep::Create(t, q) => FeeStepModel::Create(t@, q@),
        }
    }
}

impl FeePaymentModel {
    /// A payment before its first step.
    pub open spec fn start(
        recipient: Seq<char>,
        description: Option<Seq<char>>,
        delivery_fee: i64,
        recipient_fee: i64,
        agent_key: Seq<char>,
        sender_identity_key: Seq<char>,
        nonces: FeeNoncesModel,
    ) -> FeePaymentModel {
        FeePaymentModel {
            recipient,
            description: match description {
                Some(d) => d,
                None => "MessageBox delivery fee"@,
            },
            delivery_fee,
            recipient_fee,
            agent_key,
            sender_identity_key,
            nonces,
            outputs: Seq::empty(),
            payment_outputs: Seq::empty(),
        }
    }

    /// The payment with the output for the delivery fee. The payer is the sender of the message.
    pub open spec fn with_delivery(self, script: Seq<u8>) -> FeePaymentModel {
        FeePaymentModel {
            outputs: self.outputs.push(
                fee_output(script, self.delivery_fee as int, "MessageBox server delivery fee"@),
            ),
            payment_outputs: self.payment_outputs.push(
                told_output(
                    self.outputs.len(),
                    self.nonces.delivery_prefix,
                    self.nonces.delivery_suffix,
                    self.sender_identity_key,
                ),
            ),
            ..self
        }
    }

    /// The payment with the output for the recipient fee. The payer is the wallet that everyone
    /// has.
    pub open spec fn with_recipient(self, script: Seq<u8>) -> FeePaymentModel {
        FeePaymentModel {
            outputs: self.outputs.push(
                fee_output(script, self.recipient_fee as int, "Recipient message fee"@),
            ),
            payment_outputs: self.payment_outputs.push(
                told_output(
                    self.outputs.len(),
                    self.nonces.recipient_prefix,
                    self.nonces.recipient_suffix,
                    anyone_identity_text(),
                ),
            ),
            ..self
        }
    }

    /// The step that asks for the transaction.
    pub open spec fn create(self) -> FeeStepModel {
        FeeStepModel::Create(self.payment_outputs, fee_action(self.description, self.outputs))
    }

    /// The step after the delivery fee is settled, given the script for the recipient fee.
    pub open spec fn settle_recipient(self, script: Result<Seq<u8>, ErrorModel>) -> Result<
        FeeStepModel,
        ErrorModel,
    > {
        if self.recipient_fee > 0 {
            match script {
                Ok(s) => Ok(self.with_recipient(s).create()),
                Err(e) => Err(e),
            }
        } else {
            Ok(self.create())
        }
    }

    /// The script for the recipient fee: it pays to a key that the wallet of everyone derives for
    /// the recipient.
    pub open spec fn recipient_script(self) -> Result<Seq<u8>, ErrorModel> {
        match key_of(self.recipient) {
            Err(e) => Err(ErrorModel::Wallet("recipient key: "@ + e)),
            Ok(k) => match anyone_key(
                payment_protocol().security_level,
                payment_protocol().name,
                key_identifier(self.nonces.recipient_prefix, self.nonces.recipient_suffix),
                k,
            ) {
                Err(e) => Err(ErrorModel::Wallet(e)),
                Ok(derived) => match payment_script_of(derived) {
                    Err(e) => Err(ErrorModel::Wallet("P2PKH lock: "@ + e)),
                    Ok(s) => Ok(s),
                },
            },
        }
    }

    /// The first step, given how the key of the delivery agent was read.
    pub open spec fn first_step(self, agent: Result<Seq<char>, Seq<char>>) -> Result<
        FeeStepModel,
        ErrorModel,
    > {
        if self.delivery_fee > 0 {
            match agent {
                Err(e) => Err(ErrorModel::Wallet("agent key: "@ + e)),
                Ok(k) => Ok(
                    FeeStepModel::Derive(
                        self,
                        derived_key_request(
                            payment_protocol(),
                            key_identifier(
                                self.nonces.delivery_prefix,
                                self.nonces.delivery_suffix,
                            ),
                            k,
                        ),
                    ),
                ),
            }
        } else {
            self.settle_recipient(self.recipient_script())
        }
    }

    /// The step after the wallet answered with the key of the delivery fee.
    pub open spec fn derived(self, reply: Result<Seq<char>, Seq<char>>) -> Result<
        FeeStepModel,
        ErrorModel,
    > {
        match reply {
            Err(e) => Err(ErrorModel::Wallet(e)),
            Ok(key) => match payment_script_of(key) {
                Err(e) => Err(ErrorModel::Wallet("P2PKH lock: "@ + e)),
                Ok(script) => self.with_delivery(script).settle_recipient(self.recipient_script()),
            },
        }
    }
}

/// Four key identifiers from the random source.
pub fn draw_nonces() -> (r: FeeNonces)
    ensures
        drawn(r@),
{
    let a = random_bytes();
    let b = random_bytes();
    let c = random_bytes();
    let d = random_bytes();
    let r = FeeNonces {
        delivery_prefix: base64_encode(a.as_slice()),
        delivery_suffix: base64_encode(b.as_slice()),
        recipient_prefix: base64_encode(c.as_slice()),
        recipient_suffix: base64_encode(d.as_slice()),
    };
    proof {
        assert(r@.delivery_prefix == base64_text(a@));
        assert(r@.delivery_suffix == base64_text(b@));
        assert(r@.recipient_prefix == base64_text(c@));
        assert(r@.recipient_suffix == base64_text(d@));
    }
    r
}

/// Whether a text is the base64 notation of thirty-two bytes.
pub open spec fn is_nonce(s: Seq<char>) -> bool {
    exists|b: Seq<u8>| b.len() == 32 && s == #[trigger] base64_text(b)
}

/// Whether key identifiers are ones that the random source can give.
pub open spec fn drawn(n: FeeNoncesModel) -> bool {
    &&& is_nonce(n.delivery_prefix)
    &&& is_nonce(n.delivery_suffix)
    &&& is_nonce(n.recipient_prefix)
    &&& is_nonce(n.recipient_suffix)
}

/// The first step of the payment of a message, with the given key identifiers.
pub fn start_message_payment(
    recipient: &str,
    quote: &MessageBoxQuote,
    description: Option<&str>,
    sender_identity_key: &str,
    nonces: FeeNonces,
) -> (r: Result<FeeStep, MessageBoxError>)
    ensures
        result_view(r) == FeePaymentModel::start(
            recipient@,
            opt_view(description),
            quote.delivery_fee,
            quote.recipient_fee,
            quote.delivery_agent_identity_key@,
            sender_identity_key@,
            nonces@,
        ).first_step(key_of(quote.delivery_agent_identity_key@)),
{
    let p = FeePayment {
        recipient: recipient.to_owned(),
        description: match description {
            Some(d) => d.to_owned(),
            None => "MessageBox delivery fee".to_owned(),
        },
        delivery_fee: quote.delivery_fee,
        recipient_fee: quote.recipient_fee,
        agent_key: quote.delivery_agent_identity_key.clone(),
        sender_identity_key: sender_identity_key.to_owned(),
        nonces,
        outputs: Vec::new(),
        payment_outputs: Vec::new(),
    };
    assert(p@.outputs =~= Seq::empty());
    assert(p@.payment_outputs =~= Seq::empty());
    if p.delivery_fee > 0 {
        match public_key(p.agent_key.as_str()) {
            Err(e) => Err(MessageBoxError::Wallet(joined("agent key: ", e.as_str()))),
            Ok(k) => {
                let id = key_id(
                    p.nonces.delivery_prefix.as_str(),
                    p.nonces.delivery_suffix.as_str(),
                );
                let q = KeyRequest::derived(protocol(2, "3241645161d8"), id, k);
                Ok(FeeStep::Derive(p, q))
            },
        }
    } else {
        p.finish_recipient()
    }
}

/// The first step of the payment of a message to a recipient, with key identifiers from the
/// random source.
pub fn create_message_payment(
    recipient: &str,
    quote: &MessageBoxQuote,
    description: Option<&str>,
    sender_identity_key: &str,
) -> (r: Result<FeeStep, MessageBoxError>)
    ensures
        exists|n: FeeNoncesModel|
            drawn(n) && result_view(r) == (#[trigger] FeePaymentModel::start(
                recipient@,
                opt_view(description),
                quote.delivery_fee,
                quote.recipient_fee,
                quote.delivery_agent_identity_key@,
                sender_identity_key@,
                n,
            )).first_step(key_of(quote.delivery_agent_identity_key@)),
{
    let nonces = draw_nonces();
    start_message_payment(recipient, quote, description, sender_identity_key, nonces)
}

impl FeePayment {
    /// The step after the delivery fee is settled, given the script for the recipient fee.
    pub fn settle_recipient(self, script: Result<Vec<u8>, MessageBoxError>) -> (r: Result<
        FeeStep,
        MessageBoxError,
    >)
        ensures
            result_view(r) == self@.settle_recipient(result_view(script)),
    {
        let mut p = self;
        if p.recipient_fee > 0 {
            match script {
                Err(e) => {
                    return Err(e);
                },
                Ok(s) => {
                    let payer = match anyone_identity() {
                        Ok(k) => k,
                        Err(_) => String::new(),
                    };
                    add_output(
                        &mut p.outputs,
                        &mut p.payment_outputs,
                        s,
                        p.recipient_fee,
                        "Recipient message fee".to_owned(),
                        p.nonces.recipient_prefix.as_str(),
                        p.nonces.recipient_suffix.as_str(),
                        payer.as_str(),
                    );
                },
            }
        }
        let receipt = FeeReceipt { outputs: p.payment_outputs };
        Ok(FeeStep::Create(receipt, make_action(p.description, p.outputs)))
    }

    /// The script for the recipient fee.
    fn recipient_script(&self) -> (r: Result<Vec<u8>, MessageBoxError>)
        ensures
            result_view(r) == self@.recipient_script(),
    {
        match public_key(self.recipient.as_str()) {
            Err(e) => Err(MessageBoxError::Wallet(joined("recipient key: ", e.as_str()))),
            Ok(k) => {
                let id = key_id(
                    self.nonces.recipient_prefix.as_str(),
                    self.nonces.recipient_suffix.as_str(),
                );
                match derive_anyone_key(2, "3241645161d8", id.as_str(), k.as_str()) {
                    Err(e) => Err(MessageBoxError::Wallet(e)),
                    Ok(derived) => match payment_script(derived.as_str()) {
                        Err(e) => Err(MessageBoxError::Wallet(joined("P2PKH lock: ", e.as_str()))),
                        Ok(s) => Ok(s),
                    },
                }
            },
        }
    }

    fn finish_recipient(self) -> (r: Result<FeeStep, MessageBoxError>)
        ensures
            result_view(r) == self@.settle_recipient(self@.recipient_script()),
    {
        if self.recipient_fee > 0 {
            let script = self.recipient_script();
            self.settle_recipient(script)
        } else {
            self.settle_recipient(Ok(Vec::new()))
        }
    }

    /// The step after the wallet answered with the key of the delivery fee.
    pub fn derived(self, reply: Result<String, String>) -> (r: Result<FeeStep, MessageBoxError>)
        requires
            self@.delivery_fee > 0,
        ensures
            result_view(r) == self@.derived(result_view(reply)),
    {
        let mut p = self;
        match reply {
            Err(e) => Err(MessageBoxError::Wallet(e)),
            Ok(key) => match payment_script(key.as_str()) {
                Err(e) => Err(MessageBoxError::Wallet(joined("P2PKH lock: ", e.as_str()))),
                Ok(script) => {
                    add_output(
                        &mut p.outputs,
                        &mut p.payment_outputs,
                        script,
                        p.delivery_fee,
                        "MessageBox server delivery fee".to_owned(),
                        p.nonces.delivery_prefix.as_str(),
                        p.nonces.delivery_suffix.as_str(),
                        p.sender_identity_key.as_str(),
                    );
                    assert(p@ == self@.with_delivery(script@));
                    assert(p@.recipient_script() == self@.recipient_script());
                    p.finish_recipient()
                },
            },
        }
    }
}

/// What a list of outputs pays.
pub open spec fn total(outputs: Seq<ActionOutputModel>) -> int
    decreases outputs.len(),
{
    if outputs.len() == 0 {
        0
    } else {
        total(outputs.drop_last()) + outputs.last().satoshis
    }
}

/// Whether each output is told of at its position.
pub open spec fn told_in_place(
    outputs: Seq<ActionOutputModel>,
    told: Seq<MessagePaymentOutputModel>,
) -> bool {
    &&& told.len() == outputs.len()
    &&& forall|i: int| 0 <= i < told.len() ==> (#[trigger] told[i]).output_index == i as u32
}

/// A fee that is due, in satoshis: a negative one is none.
pub open spec fn due(fee: i64) -> int {
    if fee > 0 {
        fee as int
    } else {
        0
    }
}

/// The transaction of a message payment pays exactly the fees that are due, in outputs that keep
/// their order, and each output is told of at its position.
pub proof fn message_payments_pay_what_is_due(
    p: FeePaymentModel,
    agent: Result<Seq<char>, Seq<char>>,
    reply: Result<Seq<char>, Seq<char>>,
)
    requires
        p.outputs.len() == 0,
        p.payment_outputs.len() == 0,
    ensures
        ({
            let last = if p.delivery_fee > 0 {
                p.derived(reply)
            } else {
                p.first_step(agent)
            };
            last matches Ok(step) ==> {
                &&& step matches FeeStepModel::Create(told, action)
                &&& told_in_place(action.outputs, told)
                &&& total(action.outputs) == due(p.delivery_fee) + due(p.recipient_fee)
                &&& action.randomize_outputs == Some(false)
            }
        }),
{
    reveal_with_fuel(total, 3);
    if p.delivery_fee > 0 {
        if let Ok(key) = reply {
            if let Ok(script) = payment_script_of(key) {
                let q = p.with_delivery(script);
                assert(q.outputs.drop_last() =~= p.outputs);
                if p.recipient_fee > 0 {
                    if let Ok(script2) = p.recipient_script() {
                        let t = q.with_recipient(script2);
                        assert(t.outputs.drop_last() =~= q.outputs);
                    }
                }
            }
        }
    } else if p.recipient_fee > 0 {
        if let Ok(script2) = p.recipient_script() {
            let t = p.with_recipient(script2);
            assert(t.outputs.drop_last() =~= p.outputs);
        }
    }
}

/// The whole way of a message payment, whatever is answered. The key of the delivery fee is asked for
/// the delivery agent, under the key identifier that the receiver is told. The transaction pays the
/// delivery fee to that key and the recipient fee to the key that the wallet of everyone derives for
/// the recipient, each fee only where there is one, and tells of each output at its place both parts
/// of its key identifier and who pays it. The payment is the transaction together with what is told.
pub proof fn message_payments_are_made_as_ordered(
    recipient: Seq<char>,
    description: Option<Seq<char>>,
    delivery_fee: i64,
    recipient_fee: i64,
    agent_key: Seq<char>,
    sender: Seq<char>,
    nonces: FeeNoncesModel,
    reply: Result<Seq<char>, Seq<char>>,
    tx: Result<ActionReplyModel, Seq<char>>,
)
    ensures
        ({
            let first = FeePaymentModel::start(
                recipient,
                description,
                delivery_fee,
                recipient_fee,
                agent_key,
                sender,
                nonces,
            ).first_step(key_of(agent_key));
            let last = match first {
                Ok(FeeStepModel::Derive(p, _)) => p.derived(reply),
                _ => first,
            };
            let n: int = if delivery_fee > 0 {
                1
            } else {
                0
            };
            &&& first matches Ok(step) ==> (step is Derive <==> delivery_fee > 0)
            &&& first matches Ok(FeeStepModel::Derive(_, q)) ==> {
                &&& q.identity_key == false
                &&& q.protocol matches Some(p)
                &&& p.security_level == 2 && p.name == "3241645161d8"@
                &&& q.key_id == Some(nonces.delivery_prefix + seq![' '] + nonces.delivery_suffix)
                &&& q.counterparty == Some(PartyModel::Other(Some(key_of(agent_key)->Ok_0)))
            }
            &&& last is Ok <==> {
                &&& delivery_fee > 0 ==> key_of(agent_key) is Ok && (reply matches Ok(k)
                    && payment_script_of(k) is Ok)
                &&& recipient_fee > 0 ==> {
                    &&& key_of(recipient) matches Ok(k)
                    &&& anyone_key(
                        2,
                        "3241645161d8"@,
                        nonces.recipient_prefix + seq![' '] + nonces.recipient_suffix,
                        k,
                    ) matches Ok(d)
                    &&& payment_script_of(d) is Ok
                }
            }
            &&& last matches Ok(step) ==> {
                &&& step matches FeeStepModel::Create(told, q)
                &&& q.outputs.len() == told.len()
                &&& told.len() == n + if recipient_fee > 0 {
                    1int
                } else {
                    0int
                }
                &&& q.description == (match description {
                    Some(d) => d,
                    None => "MessageBox delivery fee"@,
                })
                &&& q.inputs.len() == 0 && q.input_beef is None
                &&& q.randomize_outputs == Some(false)
                &&& q.labels == seq!["messagebox"@]
                &&& delivery_fee > 0 ==> {
                    &&& q.outputs[0].satoshis == delivery_fee
                    &&& payment_script_of(reply->Ok_0) == Ok::<_, Seq<char>>(
                        q.outputs[0].locking_script,
                    )
                    &&& told[0].output_index == 0
                    &&& told[0].derivation_prefix == encode_utf8(nonces.delivery_prefix)
                    &&& told[0].derivation_suffix == encode_utf8(nonces.delivery_suffix)
                    &&& told[0].sender_identity_key == sender
                }
                &&& recipient_fee > 0 ==> {
                    &&& q.outputs[n].satoshis == recipient_fee
                    &&& payment_script_of(
                        anyone_key(
                            2,
                            "3241645161d8"@,
                            nonces.recipient_prefix + seq![' '] + nonces.recipient_suffix,
                            key_of(recipient)->Ok_0,
                        )->Ok_0,
                    ) == Ok::<_, Seq<char>>(q.outputs[n].locking_script)
                    &&& told[n].output_index == n
                    &&& told[n].derivation_prefix == encode_utf8(nonces.recipient_prefix)
                    &&& told[n].derivation_suffix == encode_utf8(nonces.recipient_suffix)
                    &&& told[n].sender_identity_key == anyone_identity_text()
                }
                &&& paid(told, tx) matches Ok(p) ==> p.outputs == told && (tx matches Ok(a)
                    && a.tx == Some(p.tx))
                &&& paid(told, tx) is Ok <==> (tx matches Ok(a) && a.tx is Some)
            }
        }),
{
}

// ---------------------------------------------------------------------------------------------
// Several recipients
// ---------------------------------------------------------------------------------------------

/// The next step of the payment of a message to several recipients.
pub enum BatchStep {
    /// Ask the wallet for a part of a key identifier.
    Nonce(FeeBatch),
    /// Ask the wallet for the key of the fee at hand.
    Derive(FeeBatch, KeyRequest),
    /// Ask the wallet for the transaction.
    Create(FeeReceipt, ActionRequest),
    /// Nothing is due: the payment is empty.
    Done(MessagePayment),
}

/// The contents of a `BatchStep`.
#[verifier::ext_equal]
pub enum BatchStepModel {
    Nonce(FeeBatchModel),
    Derive(FeeBatchModel, KeyRequestModel),
    Create(Seq<MessagePaymentOutputModel>, ActionRequestModel),
    Done(MessagePaymentModel),
}

impl View for BatchStep {
    type V = BatchStepModel;

    open spec fn view(&self) -> BatchStepModel {
        match self {
            BatchStep::Nonce(b) => BatchStepModel::Nonce(b@),
            BatchStep::Derive(b, q) => BatchStepModel::Derive(b@, q@),
            BatchStep::Create(t, q) => BatchStepModel::Create(t@, q@),
            BatchStep::Done(p) => BatchStepModel::Done(p@),
        }
    }
}

impl FeeTupleModel {
    /// Whether a fee is due. A delivery fee is due only where the delivery agent is known.
    pub open spec fn is_due(self, on_recipient: bool) -> bool {
        if on_recipient {
            self.recipient_fee > 0
        } else {
            self.delivery_fee > 0 && self.agent_key.len() > 0
        }
    }

    /// The fee.
    pub open spec fn fee(self, on_recipient: bool) -> i64 {
        if on_recipient {
            self.recipient_fee
        } else {
            self.delivery_fee
        }
    }

    /// Who is paid.
    pub open spec fn payee(self, on_recipient: bool) -> Seq<char> {
        if on_recipient {
            self.recipient
        } else {
            self.agent_key
        }
    }

    /// What the output is for.
    pub open spec fn purpose(self, on_recipient: bool) -> Seq<char> {
        if on_recipient {
            "Recipient fee for "@ + self.recipient
        } else {
            "Delivery fee for "@ + self.recipient
        }
    }
}

impl FeeBatchModel {
    /// A payment before its first step.
    pub open spec fn start(tuples: Seq<FeeTupleModel>, description: Option<Seq<char>>) -> FeeBatchModel {
        FeeBatchModel {
            tuples,
            description: match description {
                Some(d) => d,
                None => "MessageBox batch delivery fee"@,
            },
            index: 0,
            on_recipient: false,
            prefix: None,
            suffix: None,
            outputs: Seq::empty(),
            payment_outputs: Seq::empty(),
        }
    }

    /// Whether a fee is at hand.
    pub open spec fn at_hand(self) -> bool {
        self.index < self.tuples.len() && self.tuples[self.index as int].is_due(self.on_recipient)
    }

    /// How many fees are left to look at.
    pub open spec fn left(self) -> int {
        2 * (self.tuples.len() - self.index) - if self.on_recipient {
            1int
        } else {
            0int
        }
    }

    /// On to the next fee: from the delivery fee to the recipient fee, and on to the next
    /// recipient.
    pub open spec fn advanced(self) -> FeeBatchModel {
        FeeBatchModel {
            index: if self.on_recipient {
                self.index + 1
            } else {
                self.index
            },
            on_recipient: !self.on_recipient,
            prefix: None,
            suffix: None,
            ..self
        }
    }

    /// The payment at the next fee that is due, or past the last.
    pub open spec fn settled(self) -> FeeBatchModel
        decreases self.left(),
    {
        if self.index >= self.tuples.len() || self.at_hand() {
            self
        } else {
            self.advanced().settled()
        }
    }

    /// The next step, once the payment stands at a fee that is due or past the last, given how
    /// the key of the payee was read.
    pub open spec fn step(self, payee: Result<Seq<char>, Seq<char>>) -> Result<
        BatchStepModel,
        ErrorModel,
    > {
        if self.index >= self.tuples.len() {
            if self.outputs.len() == 0 {
                Ok(
                    BatchStepModel::Done(
                        MessagePaymentModel { tx: Seq::empty(), outputs: Seq::empty() },
                    ),
                )
            } else {
                Ok(
                    BatchStepModel::Create(
                        self.payment_outputs,
                        fee_action(self.description, self.outputs),
                    ),
                )
            }
        } else {
            match (self.prefix, self.suffix) {
                (Some(p), Some(s)) => match payee {
                    Ok(k) => Ok(
                        BatchStepModel::Derive(
                            self,
                            derived_key_request(messagebox_protocol(), key_identifier(p, s), k),
                        ),
                    ),
                    Err(e) => Err(
                        ErrorModel::Wallet(
                            (if self.on_recipient {
                                "recipient key: "@
                            } else {
                                "agent key: "@
                            }) + e,
                        ),
                    ),
                },
                _ => Ok(BatchStepModel::Nonce(self)),
            }
        }
    }

    /// How the key of the payee of the fee at hand reads.
    pub open spec fn payee_key(self) -> Result<Seq<char>, Seq<char>> {
        key_of(self.tuples[self.index as int].payee(self.on_recipient))
    }

    /// The next step.
    pub open spec fn next(self) -> Result<BatchStepModel, ErrorModel> {
        self.settled().step(self.settled().payee_key())
    }

    /// The payment with a part of a key identifier from the wallet.
    pub open spec fn with_nonce(self, nonce: Seq<char>) -> FeeBatchModel {
        match self.prefix {
            None => FeeBatchModel { prefix: Some(nonce), ..self },
            Some(_) => FeeBatchModel { suffix: Some(nonce), ..self },
        }
    }

    /// The payment with the output for the fee at hand. The payee is named as the payer of the
    /// output.
    pub open spec fn with_output(self, script: Seq<u8>) -> FeeBatchModel {
        let t = self.tuples[self.index as int];
        FeeBatchModel {
            outputs: self.outputs.push(
                fee_output(
                    script,
                    t.fee(self.on_recipient) as int,
                    t.purpose(self.on_recipient),
                ),
            ),
            payment_outputs: self.payment_outputs.push(
                told_output(
                    self.outputs.len(),
                    self.prefix->0,
                    self.suffix->0,
                    t.payee(self.on_recipient),
                ),
            ),
            ..self
        }
    }

    /// The step after the wallet answered with a part of a key identifier.
    pub open spec fn nonce_given(self, reply: Result<Seq<char>, Seq<char>>) -> Result<
        BatchStepModel,
        ErrorModel,
    > {
        match reply {
            Err(e) => Err(ErrorModel::Auth("create_nonce: "@ + e)),
            Ok(nonce) => self.with_nonce(nonce).next(),
        }
    }

    /// The step after the wallet answered with the key of the fee at hand.
    pub open spec fn derived(self, reply: Result<Seq<char>, Seq<char>>) -> Result<
        BatchStepModel,
        ErrorModel,
    > {
        match reply {
            Err(e) => Err(ErrorModel::Wallet(e)),
            Ok(key) => match payment_script_of(key) {
                Err(e) => Err(ErrorModel::Wallet("P2PKH lock: "@ + e)),
                Ok(script) => self.with_output(script).advanced().next(),
            },
        }
    }
}

/// The first step of the payment of a message to several recipients.
pub fn create_message_payment_batch(tuples: Vec<FeeTuple>, description: Option<&str>) -> (r: Result<
    BatchStep,
    MessageBoxError,
>)
    ensures
        result_view(r) == FeeBatchModel::start(views(tuples@), opt_view(description)).next(),
{
    let b = FeeBatch {
        tuples,
        description: match description {
            Some(d) => d.to_owned(),
            None => "MessageBox batch delivery fee".to_owned(),
        },
        index: 0,
        on_recipient: false,
        prefix: None,
        suffix: None,
        outputs: Vec::new(),
        payment_outputs: Vec::new(),
    };
    assert(b@.outputs =~= Seq::empty());
    assert(b@.payment_outputs =~= Seq::empty());
    b.next()
}

impl FeeBatch {
    fn at_hand(&self) -> (r: bool)
        ensures
            r == self@.at_hand(),
    {
        if self.index < self.tuples.len() {
            let t = &self.tuples[self.index];
            if self.on_recipient {
                t.recipient_fee > 0
            } else {
                t.delivery_fee > 0 && !t.agent_key.as_str().is_empty()
            }
        } else {
            false
        }
    }

    fn advance(&mut self)
        requires
            old(self)@.index < old(self)@.tuples.len(),
        ensures
            final(self)@ == old(self)@.advanced(),
    {
        assert(self.index < self.tuples.len());
        if self.on_recipient {
            self.index = self.index + 1;
        }
        self.on_recipient = !self.on_recipient;
        self.prefix = None;
        self.suffix = None;
    }

    fn next(self) -> (r: Result<BatchStep, MessageBoxError>)
        ensures
            result_view(r) == self@.next(),
    {
        let mut b = self;
        while b.index < b.tuples.len() && !b.at_hand()
            invariant
                b@.settled() == self@.settled(),
            decreases b@.left(),
        {
            b.advance();
        }
        assert(b@.settled() == b@);
        b.step()
    }

    /// The step at a fee that is due or past the last.
    fn step(self) -> (r: Result<BatchStep, MessageBoxError>)
        ensures
            result_view(r) == self@.step(self@.payee_key()),
    {
        if self.index >= self.tuples.len() {
            if self.outputs.len() == 0 {
                assert(self@.outputs.len() == 0);
                let none = MessagePayment { tx: Vec::new(), outputs: Vec::new() };
                assert(none@.outputs =~= Seq::empty());
                Ok(BatchStep::Done(none))
            } else {
                assert(self@.outputs.len() > 0);
                let receipt = FeeReceipt { outputs: self.payment_outputs };
                Ok(BatchStep::Create(receipt, make_action(self.description, self.outputs)))
            }
        } else {
            let ids = match (&self.prefix, &self.suffix) {
                (Some(p), Some(s)) => Some(key_id(p.as_str(), s.as_str())),
                _ => None,
            };
            match ids {
                None => Ok(BatchStep::Nonce(self)),
                Some(id) => {
                    let t = &self.tuples[self.index];
                    let key = if self.on_recipient {
                        public_key(t.recipient.as_str())
                    } else {
                        public_key(t.agent_key.as_str())
                    };
                    match key {
                        Err(e) => Err(
                            MessageBoxError::Wallet(
                                joined(
                                    if self.on_recipient {
                                        "recipient key: "
                                    } else {
                                        "agent key: "
                                    },
                                    e.as_str(),
                                ),
                            ),
                        ),
                        Ok(k) => {
                            let q = KeyRequest::derived(protocol(1, "messagebox"), id, k);
                            Ok(BatchStep::Derive(self, q))
                        },
                    }
                },
            }
        }
    }

    /// The step after the wallet answered with a part of a key identifier.
    pub fn nonce_given(self, reply: Result<String, String>) -> (r: Result<
        BatchStep,
        MessageBoxError,
    >)
        ensures
            result_view(r) == self@.nonce_given(result_view(reply)),
    {
        let mut b = self;
        match reply {
            Err(e) => Err(MessageBoxError::Auth(joined("create_nonce: ", e.as_str()))),
            Ok(nonce) => {
                if b.prefix.is_none() {
                    b.prefix = Some(nonce);
                } else {
                    b.suffix = Some(nonce);
                }
                assert(b@ == self@.with_nonce(nonce@));
                b.next()
            },
        }
    }

    /// The step after the wallet answered with the key of the fee at hand.
    pub fn derived(self, reply: Result<String, String>) -> (r: Result<BatchStep, MessageBoxError>)
        requires
            self@.at_hand(),
            self@.prefix is Some,
            self@.suffix is Some,
        ensures
            result_view(r) == self@.derived(result_view(reply)),
    {
        let mut b = self;
        match reply {
            Err(e) => Err(MessageBoxError::Wallet(e)),
            Ok(key) => match payment_script(key.as_str()) {
                Err(e) => Err(MessageBoxError::Wallet(joined("P2PKH lock: ", e.as_str()))),
                Ok(script) => {
                    let t = &b.tuples[b.index];
                    let prefix = match &b.prefix {
                        Some(x) => x.clone(),
                        None => String::new(),
                    };
                    let suffix = match &b.suffix {
                        Some(x) => x.clone(),
                        None => String::new(),
                    };
                    let fee: i64 = if b.on_recipient {
                        t.recipient_fee
                    } else {
                        t.delivery_fee
                    };
                    let payee = if b.on_recipient {
                        t.recipient.clone()
                    } else {
                        t.agent_key.clone()
                    };
                    let purpose = joined(
                        if b.on_recipient {
                            "Recipient fee for "
                        } else {
                            "Delivery fee for "
                        },
                        t.recipient.as_str(),
                    );
                    add_output(
                        &mut b.outputs,
                        &mut b.payment_outputs,
                        script,
                        fee,
                        purpose,
                        prefix.as_str(),
                        suffix.as_str(),
                        payee.as_str(),
                    );
                    assert(b@ == self@.with_output(script@));
                    b.advance();
                    b.next()
                },
            },
        }
    }
}

/// A fee that is due, and who gets it.
#[verifier::ext_equal]
pub struct Due {
    pub fee: i64,
    pub payee: Seq<char>,
}

/// The fees that are due before a position, in order: for each recipient its delivery fee, then
/// its own fee.
pub open spec fn dues_before(tuples: Seq<FeeTupleModel>, index: nat, on_recipient: bool) -> Seq<Due>
    decreases
            2 * index + if on_recipient {
                1int
            } else {
                0int
            },
{
    if on_recipient {
        dues_before(tuples, index, false) + due_at(tuples, index as int, false)
    } else if index == 0 {
        Seq::empty()
    } else {
        dues_before(tuples, (index - 1) as nat, true) + due_at(tuples, index - 1, true)
    }
}

/// The fee at a position, where it is due.
pub open spec fn due_at(tuples: Seq<FeeTupleModel>, index: int, on_recipient: bool) -> Seq<Due> {
    let t = tuples[index];
    if t.is_due(on_recipient) {
        seq![Due { fee: t.fee(on_recipient), payee: t.payee(on_recipient) }]
    } else {
        Seq::empty()
    }
}

/// All fees that are due.
pub open spec fn all_dues(tuples: Seq<FeeTupleModel>) -> Seq<Due> {
    dues_before(tuples, tuples.len(), false)
}

/// Whether outputs pay some dues, one each and in order, and each is told of at its position, with
/// the payee named.
pub open spec fn pays(
    outputs: Seq<ActionOutputModel>,
    told: Seq<MessagePaymentOutputModel>,
    dues: Seq<Due>,
) -> bool {
    &&& told_in_place(outputs, told)
    &&& outputs.len() == dues.len()
    &&& forall|i: int|
        0 <= i < dues.len() ==> (#[trigger] outputs[i]).satoshis == dues[i].fee as u64
            && told[i].sender_identity_key == dues[i].payee
}

impl FeeBatchModel {
    /// Whether the outputs so far pay what is due before the fee at hand.
    pub open spec fn in_step(self) -> bool {
        &&& self.index <= self.tuples.len()
        &&& self.index == self.tuples.len() ==> !self.on_recipient
        &&& pays(
            self.outputs,
            self.payment_outputs,
            dues_before(self.tuples, self.index, self.on_recipient),
        )
    }
}

/// Whether a step of a payment to several recipients leaves it in step, and ends it only with a
/// payment of everything that is due.
pub open spec fn step_in_step(tuples: Seq<FeeTupleModel>, step: BatchStepModel) -> bool {
    match step {
        BatchStepModel::Nonce(b) => b.in_step() && b.tuples == tuples && b.at_hand(),
        BatchStepModel::Derive(b, _) => b.in_step() && b.tuples == tuples && b.at_hand()
            && b.prefix is Some && b.suffix is Some,
        BatchStepModel::Create(told, action) => pays(action.outputs, told, all_dues(tuples))
            && action.randomize_outputs == Some(false),
        BatchStepModel::Done(_) => all_dues(tuples).len() == 0,
    }
}

proof fn lemma_settled_in_step(b: FeeBatchModel)
    requires
        b.in_step(),
    ensures
        b.settled().in_step(),
        b.settled().tuples == b.tuples,
        b.settled().index < b.tuples.len() ==> b.settled().at_hand(),
    decreases b.left(),
{
    if !(b.index >= b.tuples.len() || b.at_hand()) {
        let c = b.advanced();
        assert(due_at(b.tuples, b.index as int, b.on_recipient) =~= Seq::empty());
        if b.on_recipient {
            assert(dues_before(b.tuples, c.index, false) =~= dues_before(
                b.tuples,
                b.index,
                true,
            ));
        } else {
            assert(dues_before(b.tuples, b.index, true) =~= dues_before(
                b.tuples,
                b.index,
                false,
            ));
        }
        lemma_settled_in_step(c);
    }
}

proof fn lemma_next_in_step(b: FeeBatchModel)
    requires
        b.in_step(),
    ensures
        b.next() matches Ok(step) ==> step_in_step(b.tuples, step),
{
    lemma_settled_in_step(b);
}

/// A payment to several recipients starts in step, and every answer of the wallet keeps it in
/// step. So when it asks for the transaction, the outputs pay exactly what is due, one output
/// a fee and in order, and when it ends without one nothing is due.
pub proof fn batch_payments_pay_what_is_due(
    tuples: Seq<FeeTupleModel>,
    description: Option<Seq<char>>,
    b: FeeBatchModel,
    reply: Result<Seq<char>, Seq<char>>,
)
    requires
        b.in_step(),
    ensures
        FeeBatchModel::start(tuples, description).next() matches Ok(step) ==> step_in_step(
            tuples,
            step,
        ),
        b.nonce_given(reply) matches Ok(step) ==> step_in_step(b.tuples, step),
        b.at_hand() ==> (b.derived(reply) matches Ok(step) ==> step_in_step(b.tuples, step)),
{
    let start = FeeBatchModel::start(tuples, description);
    assert(start.in_step());
    lemma_next_in_step(start);
    if let Ok(nonce) = reply {
        let c = b.with_nonce(nonce);
        lemma_next_in_step(c);
        if b.at_hand() {
            if let Ok(script) = payment_script_of(nonce) {
                let d = b.with_output(script);
                let c = d.advanced();
                let before = dues_before(b.tuples, b.index, b.on_recipient);
                let here = due_at(b.tuples, b.index as int, b.on_recipient);
                assert(here.len() == 1);
                assert(dues_before(b.tuples, c.index, c.on_recipient) == before + here);
                assert(pays(c.outputs, c.payment_outputs, before + here));
                lemma_next_in_step(c);
            }
        }
    }
}

/// What is answered while one payment is made for several recipients: for each fee, told by the
/// place of its recipient and by whether it is the recipient's own, the two parts of the key
/// identifier and the key.
pub struct BatchAnswers {
    pub prefixes: spec_fn(int, bool) -> Result<Seq<char>, Seq<char>>,
    pub suffixes: spec_fn(int, bool) -> Result<Seq<char>, Seq<char>>,
    pub keys: spec_fn(int, bool) -> Result<Seq<char>, Seq<char>>,
}

impl BatchAnswers {
    /// The step that follows one when it is answered.
    pub open spec fn follow(self, step: BatchStepModel) -> Result<BatchStepModel, ErrorModel> {
        match step {
            BatchStepModel::Nonce(b) => b.nonce_given(
                if b.prefix is None {
                    (self.prefixes)(b.index as int, b.on_recipient)
                } else {
                    (self.suffixes)(b.index as int, b.on_recipient)
                },
            ),
            BatchStepModel::Derive(b, _) => b.derived((self.keys)(b.index as int, b.on_recipient)),
            BatchStepModel::Create(_, _) | BatchStepModel::Done(_) => Ok(step),
        }
    }

    /// The step that is reached after `n` answers, or the first error.
    pub open spec fn step(self, first: Result<BatchStepModel, ErrorModel>, n: nat) -> Result<
        BatchStepModel,
        ErrorModel,
    >
        decreases n,
    {
        if n == 0 {
            first
        } else {
            match self.step(first, (n - 1) as nat) {
                Ok(step) => self.follow(step),
                Err(e) => Err(e),
            }
        }
    }
}

/// A fee to pay: how much, to whom, and for which recipient.
pub struct Slot {
    pub fee: i64,
    pub payee: Seq<char>,
    pub place: int,
    pub own: bool,
}

/// The delivery fee of a recipient, where there is one and the delivery agent is known.
pub open spec fn delivery_slot(t: FeeTupleModel, place: int) -> Seq<Slot> {
    if t.delivery_fee > 0 && t.agent_key.len() > 0 {
        seq![Slot { fee: t.delivery_fee, payee: t.agent_key, place, own: false }]
    } else {
        Seq::empty()
    }
}

/// The recipient's own fee, where there is one.
pub open spec fn own_slot(t: FeeTupleModel, place: int) -> Seq<Slot> {
    if t.recipient_fee > 0 {
        seq![Slot { fee: t.recipient_fee, payee: t.recipient, place, own: true }]
    } else {
        Seq::empty()
    }
}

/// The fees of the first recipients, each with its delivery fee first.
pub open spec fn slots(tuples: Seq<FeeTupleModel>, n: nat) -> Seq<Slot>
    decreases n,
{
    if n == 0 {
        Seq::empty()
    } else {
        slots(tuples, (n - 1) as nat) + delivery_slot(tuples[n - 1], n - 1) + own_slot(
            tuples[n - 1],
            n - 1,
        )
    }
}

/// The fees before one.
pub open spec fn slots_before(tuples: Seq<FeeTupleModel>, index: nat, own: bool) -> Seq<Slot> {
    if own {
        slots(tuples, index) + delivery_slot(tuples[index as int], index as int)
    } else {
        slots(tuples, index)
    }
}

/// Whether an output pays a fee, to the key that was derived for it, and is told of at its place
/// with both parts of the key identifier and the payee.
pub open spec fn pays_slot(
    o: ActionOutputModel,
    told: MessagePaymentOutputModel,
    slot: Slot,
    place: int,
    a: BatchAnswers,
) -> bool {
    &&& o.satoshis == slot.fee
    &&& (a.keys)(slot.place, slot.own) matches Ok(k)
    &&& payment_script_of(k) == Ok::<_, Seq<char>>(o.locking_script)
    &&& told.output_index == place as u32
    &&& (a.prefixes)(slot.place, slot.own) matches Ok(p)
    &&& told.derivation_prefix == encode_utf8(p)
    &&& (a.suffixes)(slot.place, slot.own) matches Ok(s)
    &&& told.derivation_suffix == encode_utf8(s)
    &&& told.sender_identity_key == slot.payee
}

/// Whether outputs pay fees, one each and in order.
pub open spec fn pays_slots(
    outputs: Seq<ActionOutputModel>,
    told: Seq<MessagePaymentOutputModel>,
    slots: Seq<Slot>,
    a: BatchAnswers,
) -> bool {
    &&& outputs.len() == slots.len()
    &&& told.len() == slots.len()
    &&& forall|i: int|
        0 <= i < slots.len() ==> pays_slot(#[trigger] outputs[i], told[i], slots[i], i, a)
}

/// Whether a step of a payment for several recipients asks for what belongs to it: the key of a fee
/// for its payee, under the key identifier that is told; one transaction that pays every fee; or
/// nothing where there is no fee.
pub open spec fn asks_for_batch(
    step: BatchStepModel,
    tuples: Seq<FeeTupleModel>,
    description: Option<Seq<char>>,
    a: BatchAnswers,
) -> bool {
    match step {
        BatchStepModel::Nonce(_) => true,
        BatchStepModel::Derive(b, q) => {
            let payee = if b.on_recipient {
                tuples[b.index as int].recipient
            } else {
                tuples[b.index as int].agent_key
            };
            &&& b.index < tuples.len()
            &&& q.identity_key == false
            &&& q.protocol matches Some(p)
            &&& p.security_level == 1 && p.name == "messagebox"@
            &&& (a.prefixes)(b.index as int, b.on_recipient) matches Ok(prefix)
            &&& (a.suffixes)(b.index as int, b.on_recipient) matches Ok(suffix)
            &&& q.key_id == Some(prefix + seq![' '] + suffix)
            &&& key_of(payee) matches Ok(k)
            &&& q.counterparty == Some(PartyModel::Other(Some(k)))
        },
        BatchStepModel::Create(told, q) => {
            &&& pays_slots(q.outputs, told, slots(tuples, tuples.len()), a)
            &&& q.description == (match description {
                Some(d) => d,
                None => "MessageBox batch delivery fee"@,
            })
            &&& q.inputs.len() == 0 && q.input_beef is None
            &&& q.randomize_outputs == Some(false)
            &&& q.labels == seq!["messagebox"@]
        },
        BatchStepModel::Done(p) => {
            &&& slots(tuples, tuples.len()).len() == 0
            &&& p.tx.len() == 0 && p.outputs.len() == 0
        },
    }
}

spec fn is_batch_of(
    b: FeeBatchModel,
    tuples: Seq<FeeTupleModel>,
    description: Option<Seq<char>>,
    a: BatchAnswers,
) -> bool {
    &&& b.tuples == tuples
    &&& b.description == (match description {
        Some(d) => d,
        None => "MessageBox batch delivery fee"@,
    })
    &&& b.index <= tuples.len()
    &&& b.index == tuples.len() ==> !b.on_recipient
    &&& pays_slots(
        b.outputs,
        b.payment_outputs,
        slots_before(tuples, b.index, b.on_recipient),
        a,
    )
    &&& b.prefix is Some ==> (a.prefixes)(b.index as int, b.on_recipient) == Ok::<_, Seq<char>>(
        b.prefix->0,
    )
    &&& b.suffix is Some ==> b.prefix is Some && (a.suffixes)(b.index as int, b.on_recipient)
        == Ok::<_, Seq<char>>(b.suffix->0)
}

spec fn is_batch_step_of(
    step: BatchStepModel,
    tuples: Seq<FeeTupleModel>,
    description: Option<Seq<char>>,
    a: BatchAnswers,
) -> bool {
    match step {
        BatchStepModel::Nonce(b) => is_batch_of(b, tuples, description, a) && b.at_hand()
            && b.suffix is None,
        BatchStepModel::Derive(b, _) => is_batch_of(b, tuples, description, a) && b.at_hand()
            && b.prefix is Some && b.suffix is Some,
        _ => true,
    }
}

proof fn batches_settle(
    b: FeeBatchModel,
    tuples: Seq<FeeTupleModel>,
    description: Option<Seq<char>>,
    a: BatchAnswers,
)
    requires
        is_batch_of(b, tuples, description, a),
    ensures
        b.next() matches Ok(step) ==> is_batch_step_of(step, tuples, description, a)
            && asks_for_batch(step, tuples, description, a),
    decreases b.left(),
{
    if !(b.index >= b.tuples.len() || b.at_hand()) {
        let c = b.advanced();
        assert(slots_before(tuples, c.index, c.on_recipient) =~= slots_before(
            tuples,
            b.index,
            b.on_recipient,
        ));
        batches_settle(c, tuples, description, a);
    }
}

proof fn batch_steps_go_on(
    tuples: Seq<FeeTupleModel>,
    description: Option<Seq<char>>,
    a: BatchAnswers,
    n: nat,
)
    ensures
        a.step(FeeBatchModel::start(tuples, description).next(), n) matches Ok(step)
            ==> is_batch_step_of(step, tuples, description, a) && asks_for_batch(
            step,
            tuples,
            description,
            a,
        ),
    decreases n,
{
    let start = FeeBatchModel::start(tuples, description);
    if n == 0 {
        batches_settle(start, tuples, description, a);
    } else {
        batch_steps_go_on(tuples, description, a, (n - 1) as nat);
        if let Ok(step) = a.step(start.next(), (n - 1) as nat) {
            match step {
                BatchStepModel::Nonce(b) => {
                    let reply = if b.prefix is None {
                        (a.prefixes)(b.index as int, b.on_recipient)
                    } else {
                        (a.suffixes)(b.index as int, b.on_recipient)
                    };
                    if let Ok(nonce) = reply {
                        batches_settle(b.with_nonce(nonce), tuples, description, a);
                    }
                },
                BatchStepModel::Derive(b, _) => {
                    if let Ok(key) = (a.keys)(b.index as int, b.on_recipient) {
                        if let Ok(script) = payment_script_of(key) {
                            batch_output_pays(b, script, tuples, description, a);
                            batches_settle(
                                b.with_output(script).advanced(),
                                tuples,
                                description,
                                a,
                            );
                        }
                    }
                },
                _ => {},
            }
        }
    }
}

proof fn batch_output_pays(
    b: FeeBatchModel,
    script: Seq<u8>,
    tuples: Seq<FeeTupleModel>,
    description: Option<Seq<char>>,
    a: BatchAnswers,
)
    requires
        is_batch_of(b, tuples, description, a),
        b.at_hand(),
        b.prefix is Some && b.suffix is Some,
        (a.keys)(b.index as int, b.on_recipient) matches Ok(k) && payment_script_of(k) == Ok::<
            _,
            Seq<char>,
        >(script),
    ensures
        is_batch_of(b.with_output(script).advanced(), tuples, description, a),
{
    let c = b.with_output(script).advanced();
    let before = slots_before(tuples, b.index, b.on_recipient);
    let t = tuples[b.index as int];
    let here = if b.on_recipient {
        own_slot(t, b.index as int)
    } else {
        delivery_slot(t, b.index as int)
    };
    let after = slots_before(tuples, c.index, c.on_recipient);
    assert(after =~= before + here);
    assert(here.len() == 1);
    assert forall|i: int| 0 <= i < after.len() implies pays_slot(
        #[trigger] c.outputs[i],
        c.payment_outputs[i],
        after[i],
        i,
        a,
    ) by {
        if i < before.len() {
            assert(c.outputs[i] == b.outputs[i]);
            assert(c.payment_outputs[i] == b.payment_outputs[i]);
            assert(pays_slot(b.outputs[i], b.payment_outputs[i], before[i], i, a));
        }
    }
}

/// The whole way of one payment for several recipients, whatever is answered: at every step what is
/// asked for belongs to it, and the transaction pays every fee once and in order, each to the key
/// that was derived for its payee.
pub proof fn batch_payments_are_made_as_ordered(
    tuples: Seq<FeeTupleModel>,
    description: Option<Seq<char>>,
    a: BatchAnswers,
    n: nat,
)
    ensures
        a.step(FeeBatchModel::start(tuples, description).next(), n) matches Ok(step)
            ==> asks_for_batch(step, tuples, description, a),
{
    batch_steps_go_on(tuples, description, a, n);
}

/// A payment that cannot be made ends with the failure that stopped it: a nonce that is not given as
/// one of the authentication, and everything else as one of the wallet.
pub proof fn fee_failures_are_told(
    p: FeePaymentModel,
    b: FeeBatchModel,
    told: Seq<MessagePaymentOutputModel>,
    agent: Result<Seq<char>, Seq<char>>,
    e: Seq<char>,
)
    ensures
        p.delivery_fee > 0 && agent is Err ==> p.first_step(agent) == Err::<FeeStepModel, _>(
            ErrorModel::Wallet("agent key: "@ + agent->Err_0),
        ),
        p.derived(Err(e)) == Err::<FeeStepModel, _>(ErrorModel::Wallet(e)),
        p.recipient_script() is Err ==> p.recipient_script()->Err_0 is Wallet,
        b.nonce_given(Err(e)) == Err::<BatchStepModel, _>(ErrorModel::Auth("create_nonce: "@ + e)),
        b.derived(Err(e)) == Err::<BatchStepModel, _>(ErrorModel::Wallet(e)),
        paid(told, Err(e)) == Err::<MessagePaymentModel, _>(ErrorModel::Wallet(e)),
{
}

} // verus!
