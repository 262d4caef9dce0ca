//! Delivery fees that come with messages: wrapped bodies, and the outputs to take into the wallet.

use crate::chain::{key_of, public_key};
use crate::client::MessageBoxClient;
use crate::encryption::text_of_member;
use crate::text::{duplicate_bytes, opt_view, opt_views, result_view, same_text, views};
use crate::wallet::{
    InternalizeRequest, InternalizeRequestModel, WalletPayment, WalletPaymentModel,
};
use vstd::prelude::*;
use vstd::string::*;

verus! {

broadcast use vstd::string::group_string_axioms;

/// The `message` member of a wrapped body, as it was read.
#[derive(Clone, Debug)]
pub struct MessageMember {
    /// The string there, if it is one.
    pub string: Option<String>,
    /// Its JSON text.
    pub printed: String,
}

/// The contents of a `MessageMember`.
#[verifier::ext_equal]
pub struct MessageMemberModel {
    pub string: Option<Seq<char>>,
    pub printed: Seq<char>,
}

impl View for MessageMember {
    type V = MessageMemberModel;

    open spec fn view(&self) -> MessageMemberModel {
        MessageMemberModel {
            string: opt_view(self.string),
            printed: self.printed@,
        }
    }
}

/// One output of the payment in a wrapped body.
#[derive(Clone, Debug)]
pub struct ServerPaymentOutput {
    /// Its position in the transaction. Absent means the first.
    pub output_index: Option<u32>,
    /// How the output is taken in.
    pub protocol: Option<String>,
    /// The first part of the key identifier.
    pub derivation_prefix: Option<Vec<u8>>,
    /// The second part of the key identifier.
    pub derivation_suffix: Option<Vec<u8>>,
    /// The public key of the payer.
    pub sender_identity_key: Option<String>,
}

/// The contents of a `ServerPaymentOutput`.
#[verifier::ext_equal]
pub struct ServerPaymentOutputModel {
    pub output_index: Option<u32>,
    pub protocol: Option<Seq<char>>,
    pub derivation_prefix: Option<Seq<u8>>,
    pub derivation_suffix: Option<Seq<u8>>,
    pub sender_identity_key: Option<Seq<char>>,
}

impl View for ServerPaymentOutput {
    type V = ServerPaymentOutputModel;

    open spec fn view(&self) -> ServerPaymentOutputModel {
        ServerPaymentOutputModel {
            output_index: self.output_index,
            protocol: opt_view(self.protocol),
            derivation_prefix: opt_view(self.derivation_prefix),
            derivation_suffix: opt_view(self.derivation_suffix),
            sender_identity_key: opt_view(self.sender_identity_key),
        }
    }
}

/// The payment in a wrapped body.
#[derive(Clone, Debug)]
pub struct ServerPayment {
    /// The transaction.
    pub tx: Option<Vec<u8>>,
    /// Its outputs.
    pub outputs: Option<Vec<ServerPaymentOutput>>,
    /// What it is for.
    pub description: Option<String>,
}

/// The contents of a `ServerPayment`.
#[verifier::ext_equal]
pub struct ServerPaymentModel {
    pub tx: Option<Seq<u8>>,
    pub outputs: Option<Seq<ServerPaymentOutputModel>>,
    pub description: Option<Seq<char>>,
}

impl View for ServerPayment {
    type V = ServerPaymentModel;

    open spec fn view(&self) -> ServerPaymentModel {
        ServerPaymentModel {
            tx: opt_view(self.tx),
            outputs: opt_views(self.outputs),
            description: opt_view(self.description),
        }
    }
}

/// A body that the server wrapped together with a payment.
#[derive(Clone, Debug)]
pub struct WrappedMessageBody {
    /// The message.
    pub message: Option<MessageMember>,
    /// The payment.
    pub payment: Option<ServerPayment>,
}

/// The contents of a `WrappedMessageBody`.
#[verifier::ext_equal]
pub struct WrappedMessageBodyModel {
    pub message: Option<MessageMemberModel>,
    pub payment: Option<ServerPaymentModel>,
}

impl View for WrappedMessageBody {
    type V = WrappedMessageBodyModel;

    open spec fn view(&self) -> WrappedMessageBodyModel {
        WrappedMessageBodyModel {
            message: opt_view(self.message),
            payment: opt_view(self.payment),
        }
    }
}

/// Whether an output is one for the wallet: its protocol says so.
pub open spec fn is_wallet_output(protocol: Option<Seq<char>>) -> bool {
    protocol == Some("wallet payment"@)
}

/// Some bytes, or none where they are absent.
pub open spec fn bytes_or_none(b: Option<Seq<u8>>) -> Seq<u8> {
    match b {
        Some(x) => x,
        None => Seq::empty(),
    }
}

/// The payment to take in for an output, given how the key of its payer was read. An output of
/// another protocol or of none, and one without a valid key, gives none.
pub open spec fn wallet_payment_model(
    o: ServerPaymentOutputModel,
    key: Option<Result<Seq<char>, Seq<char>>>,
) -> Option<WalletPaymentModel> {
    match key {
        Some(Ok(k)) => if is_wallet_output(o.protocol) {
            Some(
                WalletPaymentModel {
                    output_index: match o.output_index {
                        Some(i) => i,
                        None => 0,
                    },
                    derivation_prefix: bytes_or_none(o.derivation_prefix),
                    derivation_suffix: bytes_or_none(o.derivation_suffix),
                    sender_identity_key: k,
                },
            )
        } else {
            None
        },
        _ => None,
    }
}

/// How the key of the payer of an output reads.
pub open spec fn payer_key(o: ServerPaymentOutputModel) -> Option<Result<Seq<char>, Seq<char>>> {
    match o.sender_identity_key {
        Some(k) => Some(key_of(k)),
        None => None,
    }
}

/// The payments to take in for some outputs, in order.
pub open spec fn wallet_payments(os: Seq<ServerPaymentOutputModel>) -> Seq<WalletPaymentModel>
    decreases os.len(),
{
    if os.len() == 0 {
        Seq::empty()
    } else {
        let before = wallet_payments(os.drop_last());
        match wallet_payment_model(os.last(), payer_key(os.last())) {
            Some(p) => before.push(p),
            None => before,
        }
    }
}

fn copy_or_none(b: &Option<Vec<u8>>) -> (r: Vec<u8>)
    ensures
        r@ == bytes_or_none(opt_view(*b)),
{
    match b {
        Some(x) => duplicate_bytes(x),
        None => Vec::new(),
    }
}

/// The payment to take in for an output, given how the key of its payer was read.
pub fn wallet_payment(o: &ServerPaymentOutput, key: Option<Result<String, String>>) -> (r: Option<
    WalletPayment,
>)
    ensures
        opt_view(r) == wallet_payment_model(
            o@,
            match key {
                Some(k) => Some(result_view(k)),
                None => None,
            },
        ),
{
    let ours = match &o.protocol {
        Some(p) => same_text(p.as_str(), "wallet payment"),
        None => false,
    };
    match key {
        Some(Ok(k)) => if ours {
            Some(
                WalletPayment {
                    output_index: match o.output_index {
                        Some(i) => i,
                        None => 0,
                    },
                    derivation_prefix: copy_or_none(&o.derivation_prefix),
                    derivation_suffix: copy_or_none(&o.derivation_suffix),
                    sender_identity_key: k,
                },
            )
        } else {
            None
        },
        _ => None,
    }
}

/// The payments to take in for some outputs, in order.
pub fn collect_wallet_payments(os: &Vec<ServerPaymentOutput>) -> (r: Vec<WalletPayment>)
    ensures
        views(r@) == wallet_payments(views(os@)),
{
    let ghost all = views(os@);
    let mut r: Vec<WalletPayment> = Vec::new();
    let mut i: usize = 0;
    assert(views(r@) =~= wallet_payments(all.take(0)));
    while i < os.len()
        invariant
            0 <= i <= os@.len(),
            all == views(os@),
            views(r@) == wallet_payments(all.take(i as int)),
        decreases os@.len() - i,
    {
        let key = match &os[i].sender_identity_key {
            Some(k) => Some(public_key(k.as_str())),
            None => None,
        };
        let ghost before = views(r@);
        assert(all.take(i + 1).drop_last() =~= all.take(i as int));
        if let Some(p) = wallet_payment(&os[i], key) {
            r.push(p);
            assert(views(r@) =~= before.push(p@));
        }
        i = i + 1;
    }
    assert(all.take(i as int) =~= all);
    r
}

/// What the wallet is asked to take in.
pub open spec fn fee_request(
    tx: Seq<u8>,
    description: Seq<char>,
    label: Seq<char>,
    outputs: Seq<WalletPaymentModel>,
) -> InternalizeRequestModel {
    InternalizeRequestModel {
        tx,
        description,
        labels: seq![label],
        seek_permission: Some(false),
        outputs,
    }
}

fn ask(tx: &Vec<u8>, description: &str, label: &str, outputs: Vec<WalletPayment>) -> (r:
    InternalizeRequest)
    ensures
        r@ == fee_request(tx@, description@, label@, views(outputs@)),
{
    let mut labels: Vec<String> = Vec::new();
    labels.push(label.to_owned());
    assert(views(labels@) =~= seq![label@]);
    InternalizeRequest {
        tx: duplicate_bytes(tx),
        description: description.to_owned(),
        labels,
        seek_permission: Some(false),
        outputs,
    }
}

/// The description of a payment, or a fixed one where it is absent.
pub open spec fn described(description: Option<Seq<char>>, otherwise: Seq<char>) -> Seq<char> {
    match description {
        Some(d) => d,
        None => otherwise,
    }
}

/// What to take in for a listed message: the payment of its body, when payments are accepted and
/// there is a transaction.
pub open spec fn listed_fee(
    wrapped: Option<WrappedMessageBodyModel>,
    accept_payments: bool,
) -> Option<InternalizeRequestModel> {
    match wrapped {
        Some(w) => match w.payment {
            Some(p) => match p.tx {
                Some(tx) => if accept_payments {
                    Some(
                        fee_request(
                            tx,
                            described(p.description, "Server delivery fee"@),
                            "server-delivery-fee"@,
                            wallet_payments(
                                match p.outputs {
                                    Some(os) => os,
                                    None => Seq::empty(),
                                },
                            ),
                        ),
                    )
                } else {
                    None
                },
                None => None,
            },
            None => None,
        },
        None => None,
    }
}

/// What to take in for a listed message.
pub fn listed_fee_request(wrapped: &Option<WrappedMessageBody>, accept_payments: bool) -> (r:
    Option<InternalizeRequest>)
    ensures
        opt_view(r) == listed_fee(opt_view(*wrapped), accept_payments),
{
    if !accept_payments {
        return None;
    }
    if let Some(w) = wrapped {
        if let Some(p) = &w.payment {
            if let Some(tx) = &p.tx {
                let outputs = match &p.outputs {
                    Some(os) => collect_wallet_payments(os),
                    None => Vec::new(),
                };
                assert(p.outputs is None ==> views(outputs@) =~= wallet_payments(Seq::empty()));
                let description = match &p.description {
                    Some(d) => d.clone(),
                    None => "Server delivery fee".to_owned(),
                };
                return Some(ask(tx, description.as_str(), "server-delivery-fee", outputs));
            }
        }
    }
    None
}

/// What to take in for an acknowledged notification: the payment of its body, when it has a
/// transaction and an output for the wallet.
pub open spec fn notification_fee(wrapped: Option<WrappedMessageBodyModel>) -> Option<
    InternalizeRequestModel,
> {
    match wrapped {
        Some(w) => match w.payment {
            Some(p) => match (p.tx, p.outputs) {
                (Some(tx), Some(os)) => if wallet_payments(os).len() == 0 {
                    None
                } else {
                    Some(
                        fee_request(
                            tx,
                            described(p.description, "MessageBox recipient payment"@),
                            "notification-payment"@,
                            wallet_payments(os),
                        ),
                    )
                },
                _ => None,
            },
            None => None,
        },
        None => None,
    }
}

impl MessageBoxClient {
    /// What to take in for an acknowledged notification. When there is nothing, or the wallet does
    /// not take it in, no payment was received with the notification.
    pub fn acknowledge_notification(&self, wrapped: &Option<WrappedMessageBody>) -> (r: Option<
        InternalizeRequest,
    >)
        ensures
            opt_view(r) == notification_fee(opt_view(*wrapped)),
    {
        if let Some(w) = wrapped {
            if let Some(p) = &w.payment {
                if let Some(tx) = &p.tx {
                    if let Some(os) = &p.outputs {
                        let outputs = collect_wallet_payments(os);
                        if outputs.len() == 0 {
                            assert(views(outputs@).len() == 0);
                            return None;
                        }
                        assert(views(outputs@).len() > 0);
                        let description = match &p.description {
                            Some(d) => d.clone(),
                            None => "MessageBox recipient payment".to_owned(),
                        };
                        return Some(ask(tx, description.as_str(), "notification-payment", outputs));
                    }
                }
            }
        }
        None
    }
}

/// The body of a listed message without the wrapper of the server: the message inside, or the
/// whole body where there is none.
pub open spec fn listed_body(
    body: Seq<char>,
    wrapped: Option<WrappedMessageBodyModel>,
) -> Seq<char> {
    match wrapped {
        Some(w) => match w.message {
            Some(m) => match m.string {
                Some(s) => s,
                None => m.printed,
            },
            None => body,
        },
        None => body,
    }
}

/// The body of a listed message without the wrapper of the server.
pub fn unwrap_listed_body(body: &str, wrapped: Option<WrappedMessageBody>) -> (r: String)
    ensures
        r@ == listed_body(body@, opt_view(wrapped)),
{
    match wrapped {
        Some(w) => match w.message {
            Some(m) => text_of_member(m.string, m.printed),
            None => body.to_owned(),
        },
        None => body.to_owned(),
    }
}

/// Whether an output is for the wallet, comes from a valid key, and pays this.
pub open spec fn pays_wallet(o: ServerPaymentOutputModel, p: WalletPaymentModel) -> bool {
    &&& is_wallet_output(o.protocol)
    &&& payer_key(o) matches Some(Ok(_))
    &&& wallet_payment_model(o, payer_key(o)) == Some(p)
}

/// A payment is taken in exactly when one of the outputs is for the wallet, comes from a valid key
/// and pays it.
pub proof fn only_wallet_outputs_are_taken_in(
    os: Seq<ServerPaymentOutputModel>,
    p: WalletPaymentModel,
)
    ensures
        wallet_payments(os).contains(p) <==> exists|i: int|
            0 <= i < os.len() && pays_wallet(#[trigger] os[i], p),
    decreases os.len(),
{
    if os.len() > 0 {
        let rest = os.drop_last();
        only_wallet_outputs_are_taken_in(rest, p);
        let before = wallet_payments(rest);
        let now = wallet_payments(os);
        if now.contains(p) {
            let j = choose|j: int| 0 <= j < now.len() && now[j] == p;
            if j < before.len() {
                assert(before[j] == p);
                let i = choose|i: int| 0 <= i < rest.len() && pays_wallet(#[trigger] rest[i], p);
                assert(os[i] == rest[i]);
            } else {
                assert(pays_wallet(os[os.len() - 1], p));
            }
        }
        if exists|i: int| 0 <= i < os.len() && pays_wallet(#[trigger] os[i], p) {
            let i = choose|i: int| 0 <= i < os.len() && pays_wallet(#[trigger] os[i], p);
            if i < rest.len() {
                assert(rest[i] == os[i]);
                let j = choose|j: int| 0 <= j < before.len() && before[j] == p;
                assert(now[j] == p);
            } else {
                assert(now[now.len() - 1] == p);
            }
        }
    }
}

/// Whether the wallet is to take an output in: it is a payment to the wallet, and the key of its
/// payer can be read.
pub open spec fn is_payable(o: ServerPaymentOutputModel) -> bool {
    &&& o.protocol == Some("wallet payment"@)
    &&& o.sender_identity_key matches Some(k)
    &&& key_of(k) is Ok
}

/// Whether a payment stands for an output of the server, part by part: it has the place of the
/// output, or the first where none is told; both parts of the key identifier, each in its own place
/// and empty where it is not told; and the key of the payer.
pub open spec fn stands_for(p: WalletPaymentModel, o: ServerPaymentOutputModel) -> bool {
    &&& o.output_index is Some ==> p.output_index == o.output_index->0
    &&& o.output_index is None ==> p.output_index == 0
    &&& o.derivation_prefix is Some ==> p.derivation_prefix == o.derivation_prefix->0
    &&& o.derivation_prefix is None ==> p.derivation_prefix.len() == 0
    &&& o.derivation_suffix is Some ==> p.derivation_suffix == o.derivation_suffix->0
    &&& o.derivation_suffix is None ==> p.derivation_suffix.len() == 0
    &&& o.sender_identity_key is Some && key_of(o.sender_identity_key->0) == Ok::<
        Seq<char>,
        Seq<char>,
    >(p.sender_identity_key)
}

/// The payments that the wallet is asked to take in stand one for one for the outputs that it is to
/// take in, in their order.
pub proof fn payments_stand_for_their_outputs(os: Seq<ServerPaymentOutputModel>)
    ensures
        ({
            let payable = os.filter(|o: ServerPaymentOutputModel| is_payable(o));
            &&& wallet_payments(os).len() == payable.len()
            &&& forall|i: int|
                0 <= i < payable.len() ==> stands_for(#[trigger] wallet_payments(os)[i], payable[i])
        }),
    decreases os.len(),
{
    reveal(Seq::filter);
    if os.len() > 0 {
        let rest = os.drop_last();
        payments_stand_for_their_outputs(rest);
        let f = |o: ServerPaymentOutputModel| is_payable(o);
        let payable = os.filter(f);
        assert forall|i: int| 0 <= i < payable.len() implies stands_for(
            #[trigger] wallet_payments(os)[i],
            payable[i],
        ) by {
            if i < rest.filter(f).len() {
                assert(stands_for(wallet_payments(rest)[i], rest.filter(f)[i]));
            }
        }
    }
}

/// What is asked of the wallet for a fee: the transaction of the fee, unchanged, and a payment for
/// each output of it that the wallet is to take in.
pub open spec fn takes_in(
    q: InternalizeRequestModel,
    p: ServerPaymentModel,
    otherwise: Seq<char>,
    label: Seq<char>,
) -> bool {
    let payable = (match p.outputs {
        Some(os) => os,
        None => Seq::empty(),
    }).filter(|o: ServerPaymentOutputModel| is_payable(o));
    &&& p.tx == Some(q.tx)
    &&& p.description is Some ==> q.description == p.description->0
    &&& p.description is None ==> q.description == otherwise
    &&& q.labels == seq![label]
    &&& q.seek_permission == Some(false)
    &&& q.outputs.len() == payable.len()
    &&& forall|i: int| 0 <= i < payable.len() ==> stands_for(#[trigger] q.outputs[i], payable[i])
}

/// The fee of a listed message is taken in exactly when payments are accepted and the message is
/// wrapped with a transaction; the fee of a notification exactly when it is wrapped with a
/// transaction and with an output that the wallet is to take in. What is asked is what the server
/// sent, part by part.
pub proof fn fees_are_taken_in_as_sent(
    wrapped: Option<WrappedMessageBodyModel>,
    accept_payments: bool,
)
    ensures
        ({
            let payment = wrapped matches Some(w) && w.payment is Some && w.payment->0.tx is Some;
            let sent = wrapped->0.payment->0;
            let payable = sent.outputs->0.filter(|o: ServerPaymentOutputModel| is_payable(o));
            &&& listed_fee(wrapped, accept_payments) is Some <==> accept_payments && payment
            &&& listed_fee(wrapped, accept_payments) matches Some(q) ==> takes_in(
                q,
                sent,
                "Server delivery fee"@,
                "server-delivery-fee"@,
            )
            &&& notification_fee(wrapped) is Some <==> payment && sent.outputs is Some
                && payable.len() > 0
            &&& notification_fee(wrapped) matches Some(q) ==> takes_in(
                q,
                sent,
                "MessageBox recipient payment"@,
                "notification-payment"@,
            )
        }),
{
    if let Some(w) = wrapped {
        if let Some(p) = w.payment {
            match p.outputs {
                Some(os) => payments_stand_for_their_outputs(os),
                None => payments_stand_for_their_outputs(Seq::empty()),
            }
        }
    }
}

/// The body of a wrapped message is the message inside: the text of it where it is a text, and else
/// its JSON. A body that is not wrapped, or wraps nothing, stays as it is.
pub proof fn wrapped_messages_are_taken_out(
    body: Seq<char>,
    wrapped: Option<WrappedMessageBodyModel>,
)
    ensures
        match wrapped {
            None => listed_body(body, wrapped) == body,
            Some(w) => match w.message {
                None => listed_body(body, wrapped) == body,
                Some(m) => {
                    &&& m.string is Some ==> listed_body(body, wrapped) == m.string->0
                    &&& m.string is None ==> listed_body(body, wrapped) == m.printed
                },
            },
        },
{
}

} // verus!
