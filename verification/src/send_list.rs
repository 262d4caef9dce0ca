//! Sending a message to several recipients.
//!
//! The recipients that block the sender are set aside. For the others the hosts are resolved, one
//! payment is made for all fees, and the message is sent to each in turn.

use crate::client::MessageBoxClient;
use crate::collections::{lookup, named};
use crate::error::{ErrorModel, MessageBoxError};
use crate::message_payment::{FeeTuple, FeeTupleModel};
use crate::text::{
    decimal, decimal_text, joined3, opt_view, result_view, same_text, views, Duplicate,
};
use crate::types::{
    FailedRecipient, FailedRecipientModel, MessageBoxMultiQuote, MessageBoxMultiQuoteModel,
    MessagePayment, MessagePaymentModel, RecipientQuote, RecipientQuoteModel, SendListParams,
    SendListParamsModel, SendListResult, SendListResultModel, SendListTotals, SendListTotalsModel,
    SentRecipient, SentRecipientModel,
};
use vstd::prelude::*;
use vstd::string::*;

verus! {

broadcast use vstd::string::group_string_axioms;

/// A message on its way to several recipients.
pub struct SendList {
    /// The message box.
    message_box: String,
    /// The body, in the clear.
    body: String,
    /// Whether the body goes out as it is.
    skip_encryption: bool,
    /// The host for a recipient that cannot be resolved.
    own_host: String,
    /// The recipients that block the sender.
    blocked: Vec<String>,
    /// The quotes of the other recipients, in order.
    sendable: Vec<RecipientQuote>,
    /// The identity key of the delivery agent of each host.
    agent_keys: Vec<(String, String)>,
    /// The host of each recipient so far.
    hosts: Vec<String>,
    /// The payment, once it is made.
    payment: Option<MessagePayment>,
    /// The recipients that the message went to so far.
    sent: Vec<SentRecipient>,
    /// The recipients that the message did not go to so far.
    failed: Vec<FailedRecipient>,
    /// The fees.
    totals: Option<SendListTotals>,
}

/// The contents of a `SendList`.
#[verifier::ext_equal]
pub struct SendListModel {
    pub message_box: Seq<char>,
    pub body: Seq<char>,
    pub skip_encryption: bool,
    pub own_host: Seq<char>,
    pub blocked: Seq<Seq<char>>,
    pub sendable: Seq<RecipientQuoteModel>,
    pub agent_keys: Seq<(Seq<char>, Seq<char>)>,
    pub hosts: Seq<Seq<char>>,
    pub payment: Option<MessagePaymentModel>,
    pub sent: Seq<SentRecipientModel>,
    pub failed: Seq<FailedRecipientModel>,
    pub totals: Option<SendListTotalsModel>,
}

impl View for SendList {
    type V = SendListModel;

    closed spec fn view(&self) -> SendListModel {
        SendListModel {
            message_box: self.message_box@,
            body: self.body@,
            skip_encryption: self.skip_encryption,
            own_host: self.own_host@,
            blocked: views(self.blocked@),
            sendable: views(self.sendable@),
            agent_keys: views(self.agent_keys@),
            hosts: views(self.hosts@),
            payment: opt_view(self.payment),
            sent: views(self.sent@),
            failed: views(self.failed@),
            totals: opt_view(self.totals),
        }
    }
}

/// The next step of sending to several recipients.
pub enum SendListStep {
    /// Resolve the host of this recipient.
    Resolve(SendList, String),
    /// Make one payment for what is due.
    Pay(SendList, Vec<FeeTuple>),
    /// Send the message to this recipient at this host, with the payment that was made.
    Send(SendList, SendOrder),
    /// Nothing is left to do.
    Done(SendListResult),
}

/// One message to send.
pub struct SendOrder {
    /// The host.
    pub host: String,
    /// The recipient.
    pub recipient: String,
    /// The message box.
    pub message_box: String,
    /// The body, in the clear.
    pub body: String,
    /// Whether the body goes out as it is.
    pub skip_encryption: bool,
    /// The payment.
    pub payment: Option<MessagePayment>,
}

/// The contents of a `SendOrder`.
#[verifier::ext_equal]
pub struct SendOrderModel {
    pub host: Seq<char>,
    pub recipient: Seq<char>,
    pub message_box: Seq<char>,
    pub body: Seq<char>,
    pub skip_encryption: bool,
    pub payment: Option<MessagePaymentModel>,
}

impl View for SendOrder {
    type V = SendOrderModel;

    open spec fn view(&self) -> SendOrderModel {
        SendOrderModel {
            host: self.host@,
            recipient: self.recipient@,
            message_box: self.message_box@,
            body: self.body@,
            skip_encryption: self.skip_encryption,
            payment: opt_view(self.payment),
        }
    }
}

/// The contents of a `SendListStep`.
#[verifier::ext_equal]
pub enum SendListStepModel {
    Resolve(SendListModel, Seq<char>),
    Pay(SendListModel, Seq<FeeTupleModel>),
    Send(SendListModel, SendOrderModel),
    Done(SendListResultModel),
}

impl View for SendListStep {
    type V = SendListStepModel;

    open spec fn view(&self) -> SendListStepModel {
        match self {
            SendListStep::Resolve(s, recipient) => SendListStepModel::Resolve(s@, recipient@),
            SendListStep::Pay(s, tuples) => SendListStepModel::Pay(s@, views(tuples@)),
            SendListStep::Send(s, order) => SendListStepModel::Send(s@, order@),
            SendListStep::Done(r) => SendListStepModel::Done(r@),
        }
    }
}

/// The quotes of the recipients that do not block the sender, in order.
pub open spec fn sendable_of(quotes: Seq<RecipientQuoteModel>) -> Seq<RecipientQuoteModel>
    decreases quotes.len(),
{
    if quotes.len() == 0 {
        quotes
    } else {
        let before = sendable_of(quotes.drop_last());
        if quotes.last().status == "blocked"@ {
            before
        } else {
            before.push(quotes.last())
        }
    }
}

/// Whether a fee is asked in one of the quotes.
pub open spec fn any_fee(quotes: Seq<RecipientQuoteModel>) -> bool {
    exists|i: int|
        0 <= i < quotes.len() && ((#[trigger] quotes[i]).delivery_fee > 0
            || quotes[i].recipient_fee > 0)
}

impl SendListModel {
    /// The host of a recipient: the one that was resolved for it last, or the own host.
    pub open spec fn host_of(self, recipient: Seq<char>, upto: int) -> Seq<char>
        decreases upto,
    {
        if upto <= 0 || upto > self.sendable.len() || upto > self.hosts.len() {
            self.own_host
        } else if self.sendable[upto - 1].recipient == recipient {
            self.hosts[upto - 1]
        } else {
            self.host_of(recipient, upto - 1)
        }
    }

    /// What is due for the recipient at a position.
    pub open spec fn tuple(self, i: int) -> FeeTupleModel {
        let q = self.sendable[i];
        FeeTupleModel {
            recipient: q.recipient,
            delivery_fee: q.delivery_fee,
            recipient_fee: q.recipient_fee,
            agent_key: match named(
                self.agent_keys,
                self.host_of(q.recipient, self.sendable.len() as int),
            ) {
                Some(k) => k,
                None => Seq::empty(),
            },
        }
    }

    /// How many recipients the message was tried with.
    pub open spec fn tried(self) -> nat {
        self.sent.len() + self.failed.len()
    }

    /// The message for the recipient at a position.
    pub open spec fn order(self, i: int) -> SendOrderModel {
        let q = self.sendable[i];
        SendOrderModel {
            host: self.host_of(q.recipient, self.sendable.len() as int),
            recipient: q.recipient,
            message_box: self.message_box,
            body: self.body,
            skip_encryption: self.skip_encryption,
            payment: self.payment,
        }
    }

    /// The outcome, once every recipient was tried.
    pub open spec fn result(self) -> SendListResultModel {
        SendListResultModel {
            status: "success"@,
            description: "Sent to "@ + decimal_text(self.sent.len()) + " recipients"@,
            sent: self.sent,
            blocked: self.blocked,
            failed: self.failed,
            totals: self.totals,
        }
    }

    /// The outcome when the payment could not be made: no recipient gets the message.
    pub open spec fn unpaid_result(self, e: ErrorModel) -> SendListResultModel {
        SendListResultModel {
            status: "error"@,
            description: "Batch payment creation failed"@,
            sent: Seq::empty(),
            blocked: self.blocked,
            failed: Seq::new(
                self.sendable.len(),
                |i: int|
                    FailedRecipientModel {
                        recipient: self.sendable[i].recipient,
                        error: e.text(),
                    },
            ),
            totals: None,
        }
    }

    /// The step once the payment is settled: the next recipient, or the outcome.
    pub open spec fn send_next(self) -> SendListStepModel {
        if self.tried() < self.sendable.len() {
            SendListStepModel::Send(self, self.order(self.tried() as int))
        } else {
            SendListStepModel::Done(self.result())
        }
    }

    /// The next step: resolve the hosts, then pay, then send.
    pub open spec fn next(self) -> SendListStepModel {
        if self.hosts.len() < self.sendable.len() {
            SendListStepModel::Resolve(self, self.sendable[self.hosts.len() as int].recipient)
        } else if any_fee(self.sendable) && self.payment is None {
            SendListStepModel::Pay(self, Seq::new(self.sendable.len(), |i: int| self.tuple(i)))
        } else {
            self.send_next()
        }
    }

    /// A message before its first step.
    pub open spec fn start(
        params: SendListParamsModel,
        quote: MessageBoxMultiQuoteModel,
        own_host: Seq<char>,
        override_host: Option<Seq<char>>,
    ) -> SendListModel {
        let sendable = sendable_of(quote.quotes_by_recipient);
        SendListModel {
            message_box: params.message_box,
            body: params.body,
            skip_encryption: params.skip_encryption == Some(true),
            own_host,
            blocked: quote.blocked_recipients,
            sendable,
            agent_keys: quote.delivery_agent_identity_key_by_host,
            hosts: match override_host {
                Some(h) => Seq::new(sendable.len(), |i: int| h),
                None => Seq::empty(),
            },
            payment: None,
            sent: Seq::empty(),
            failed: Seq::empty(),
            totals: quote.totals,
        }
    }

    /// The step after a host was resolved. The own host stands in for one that could not be.
    pub open spec fn resolved(self, host: Option<Seq<char>>) -> SendListStepModel {
        (SendListModel {
            hosts: self.hosts.push(
                match host {
                    Some(h) => h,
                    None => self.own_host,
                },
            ),
            ..self
        }).next()
    }

    /// The step after the payment was made, or could not be.
    pub open spec fn paid(self, payment: Result<MessagePaymentModel, ErrorModel>) -> SendListStepModel {
        match payment {
            Ok(p) => (SendListModel { payment: Some(p), ..self }).send_next(),
            Err(e) => SendListStepModel::Done(self.unpaid_result(e)),
        }
    }

    /// The message with the outcome for the recipient at hand.
    pub open spec fn tallied(self, outcome: Result<Seq<char>, ErrorModel>) -> SendListModel {
        let recipient = self.sendable[self.tried() as int].recipient;
        match outcome {
            Ok(id) => SendListModel {
                sent: self.sent.push(SentRecipientModel { recipient, message_id: id }),
                ..self
            },
            Err(e) => SendListModel {
                failed: self.failed.push(FailedRecipientModel { recipient, error: e.text() }),
                ..self
            },
        }
    }

    /// The step after the message was sent to a recipient, or could not be.
    pub open spec fn sent_to(self, outcome: Result<Seq<char>, ErrorModel>) -> SendListStepModel {
        self.tallied(outcome).send_next()
    }
}

impl MessageBoxClient {
    /// The first step of sending a message to several recipients, given their quotes.
    pub fn send_message_to_recipients(
        &self,
        params: &SendListParams,
        quote: MessageBoxMultiQuote,
        override_host: Option<&str>,
    ) -> (r: SendListStep)
        ensures
            r@ == SendListModel::start(params@, quote@, self@.host, opt_view(override_host)).next(),
    {
        let ghost model = SendListModel::start(params@, quote@, self@.host, opt_view(override_host));
        let ghost quotes = views(quote.quotes_by_recipient@);
        let mut sendable: Vec<RecipientQuote> = Vec::new();
        let mut hosts: Vec<String> = Vec::new();
        assert(views(sendable@) =~= sendable_of(quotes.take(0)));
        let all = quote.quotes_by_recipient;
        for q in it: all
            invariant
                it.seq() == all@,
                quotes == views(all@),
                views(sendable@) == sendable_of(quotes.take(it.index() as int)),
                override_host is None ==> hosts@.len() == 0,
                override_host is Some ==> hosts@.len() == sendable@.len() && (forall|k: int|
                    0 <= k < hosts@.len() ==> (#[trigger] hosts@[k])@ == override_host->0@),
        {
            let ghost n = it.index() as int;
            let ghost before = views(sendable@);
            assert(quotes.take(n + 1).drop_last() =~= quotes.take(n));
            if !same_text(q.status.as_str(), "blocked") {
                if let Some(h) = override_host {
                    hosts.push(h.to_owned());
                }
                sendable.push(q);
                assert(views(sendable@) =~= before.push(q@));
            }
        }
        assert(quotes.take(quotes.len() as int) =~= quotes);
        let s = SendList {
            message_box: params.message_box.clone(),
            body: params.body.clone(),
            skip_encryption: match params.skip_encryption {
                Some(b) => b,
                None => false,
            },
            own_host: self.host().to_owned(),
            blocked: quote.blocked_recipients,
            sendable,
            agent_keys: quote.delivery_agent_identity_key_by_host,
            hosts,
            payment: None,
            sent: Vec::new(),
            failed: Vec::new(),
            totals: quote.totals,
        };
        assert(s@.sent =~= Seq::empty());
        assert(s@.failed =~= Seq::empty());
        assert(s@.hosts =~= model.hosts);
        s.next()
    }
}

impl SendList {
    fn host_of(&self, recipient: &str) -> (r: String)
        ensures
            r@ == self@.host_of(recipient@, self@.sendable.len() as int),
    {
        if self.hosts.len() < self.sendable.len() {
            assert(self@.hosts.len() < self@.sendable.len());
            return self.own_host.clone();
        }
        let mut i: usize = self.sendable.len();
        while i > 0
            invariant
                0 <= i <= self.sendable@.len() <= self.hosts@.len(),
                self@.host_of(recipient@, self@.sendable.len() as int) == self@.host_of(
                    recipient@,
                    i as int,
                ),
            decreases i,
        {
            if same_text(self.sendable[i - 1].recipient.as_str(), recipient) {
                return self.hosts[i - 1].clone();
            }
            i = i - 1;
        }
        self.own_host.clone()
    }

    fn any_fee(&self) -> (r: bool)
        ensures
            r == any_fee(self@.sendable),
    {
        let ghost quotes = self@.sendable;
        let mut i: usize = 0;
        while i < self.sendable.len()
            invariant
                0 <= i <= self.sendable@.len(),
                quotes == self@.sendable,
                forall|k: int|
                    0 <= k < i ==> (#[trigger] quotes[k]).delivery_fee <= 0
                        && quotes[k].recipient_fee <= 0,
            decreases self.sendable@.len() - i,
        {
            assert(quotes[i as int] == self.sendable@[i as int]@);
            if self.sendable[i].delivery_fee > 0 || self.sendable[i].recipient_fee > 0 {
                return true;
            }
            i = i + 1;
        }
        false
    }

    fn tuples(&self) -> (r: Vec<FeeTuple>)
        ensures
            views(r@) == Seq::new(self@.sendable.len(), |i: int| self@.tuple(i)),
    {
        let mut r: Vec<FeeTuple> = Vec::new();
        let mut i: usize = 0;
        while i < self.sendable.len()
            invariant
                0 <= i <= self.sendable@.len(),
                r@.len() == i,
                forall|k: int| 0 <= k < i ==> (#[trigger] r@[k])@ == self@.tuple(k),
            decreases self.sendable@.len() - i,
        {
            let q = &self.sendable[i];
            let host = self.host_of(q.recipient.as_str());
            let agent_key = match lookup(&self.agent_keys, host.as_str()) {
                Some(k) => k,
                None => String::new(),
            };
            let t = FeeTuple {
                recipient: q.recipient.clone(),
                delivery_fee: q.delivery_fee,
                recipient_fee: q.recipient_fee,
                agent_key,
            };
            assert(self@.sendable[i as int] == q@);
            assert(t@ == self@.tuple(i as int));
            r.push(t);
            i = i + 1;
        }
        assert(views(r@) =~= Seq::new(self@.sendable.len(), |k: int| self@.tuple(k)));
        r
    }

    fn next(self) -> (r: SendListStep)
        ensures
            r@ == self@.next(),
    {
        assert(self@.hosts.len() == self.hosts@.len());
        assert(self@.sendable.len() == self.sendable@.len());
        if self.hosts.len() < self.sendable.len() {
            let recipient = self.sendable[self.hosts.len()].recipient.clone();
            return SendListStep::Resolve(self, recipient);
        }
        if self.any_fee() && self.payment.is_none() {
            let tuples = self.tuples();
            return SendListStep::Pay(self, tuples);
        }
        self.send_next()
    }

    fn send_next(self) -> (r: SendListStep)
        ensures
            r@ == self@.send_next(),
    {
        let n: usize = self.sendable.len();
        let sent: usize = self.sent.len();
        let failed: usize = self.failed.len();
        assert(self@.sendable.len() == n && self@.sent.len() == sent && self@.failed.len()
            == failed);
        if sent < n && failed < n - sent {
            let q = &self.sendable[sent + failed];
            let order = SendOrder {
                host: self.host_of(q.recipient.as_str()),
                recipient: q.recipient.clone(),
                message_box: self.message_box.clone(),
                body: self.body.clone(),
                skip_encryption: self.skip_encryption,
                payment: match &self.payment {
                    Some(p) => Some(p.duplicate()),
                    None => None,
                },
            };
            assert(self@.sendable[sent + failed] == q@);
            assert(order@ == self@.order(sent + failed));
            SendListStep::Send(self, order)
        } else {
            let description = joined3("Sent to ", decimal(sent as u64).as_str(), " recipients");
            SendListStep::Done(
                SendListResult {
                    status: "success".to_owned(),
                    description,
                    sent: self.sent,
                    blocked: self.blocked,
                    failed: self.failed,
                    totals: self.totals,
                },
            )
        }
    }

    /// The step after a host was resolved, or could not be.
    pub fn resolved(self, host: Result<String, MessageBoxError>) -> (r: SendListStep)
        ensures
            r@ == self@.resolved(
                match host {
                    Ok(h) => Some(h@),
                    Err(_) => None,
                },
            ),
    {
        let mut s = self;
        let h = match host {
            Ok(h) => h,
            Err(_) => s.own_host.clone(),
        };
        s.hosts.push(h);
        assert(s@.hosts =~= self@.hosts.push(h@));
        s.next()
    }

    /// The step after the payment was made, or could not be.
    pub fn paid(self, payment: Result<MessagePayment, MessageBoxError>) -> (r: SendListStep)
        ensures
            r@ == self@.paid(result_view(payment)),
    {
        match payment {
            Ok(p) => {
                let mut s = self;
                s.payment = Some(p);
                s.send_next()
            },
            Err(e) => {
                let text = e.to_text();
                let mut failed: Vec<FailedRecipient> = Vec::new();
                let mut i: usize = 0;
                while i < self.sendable.len()
                    invariant
                        0 <= i <= self.sendable@.len(),
                        text@ == e@.text(),
                        failed@.len() == i,
                        forall|k: int|
                            0 <= k < i ==> (#[trigger] failed@[k])@ == (FailedRecipientModel {
                                recipient: self@.sendable[k].recipient,
                                error: e@.text(),
                            }),
                    decreases self.sendable@.len() - i,
                {
                    assert(self@.sendable[i as int] == self.sendable@[i as int]@);
                    failed.push(
                        FailedRecipient {
                            recipient: self.sendable[i].recipient.clone(),
                            error: text.clone(),
                        },
                    );
                    i = i + 1;
                }
                assert(views(failed@) =~= self@.unpaid_result(e@).failed);
                let result = SendListResult {
                    status: "error".to_owned(),
                    description: "Batch payment creation failed".to_owned(),
                    sent: Vec::new(),
                    blocked: self.blocked,
                    failed,
                    totals: None,
                };
                assert(result@.sent =~= Seq::empty());
                SendListStep::Done(result)
            },
        }
    }

    /// The step after the message was sent to a recipient, or could not be.
    pub fn sent_to(self, outcome: Result<String, MessageBoxError>) -> (r: SendListStep)
        requires
            self@.tried() < self@.sendable.len(),
        ensures
            r@ == self@.sent_to(result_view(outcome)),
    {
        let mut s = self;
        assert(s@.sendable.len() == s.sendable@.len());
        assert(s@.sent.len() == s.sent@.len() && s@.failed.len() == s.failed@.len());
        let count: usize = s.sendable.len();
        assert(s.sent@.len() + s.failed@.len() < count);
        let at: usize = s.sent.len() + s.failed.len();
        let recipient = s.sendable[at].recipient.clone();
        assert(s@.sendable[at as int].recipient == recipient@);
        match outcome {
            Ok(message_id) => {
                s.sent.push(SentRecipient { recipient, message_id });
                assert(s@.sent =~= self@.tallied(result_view(outcome)).sent);
            },
            Err(e) => {
                s.failed.push(FailedRecipient { recipient, error: e.to_text() });
                assert(s@.failed =~= self@.tallied(result_view(outcome)).failed);
            },
        }
        assert(s@ == self@.tallied(result_view(outcome)));
        s.send_next()
    }
}

/// The recipients of quotes.
pub open spec fn quoted_recipients(quotes: Seq<RecipientQuoteModel>) -> Seq<Seq<char>> {
    quotes.map_values(|q: RecipientQuoteModel| q.recipient)
}

/// The recipients that a message went to.
pub open spec fn sent_recipients(sent: Seq<SentRecipientModel>) -> Seq<Seq<char>> {
    sent.map_values(|s: SentRecipientModel| s.recipient)
}

/// The recipients that a message did not go to.
pub open spec fn failed_recipients(failed: Seq<FailedRecipientModel>) -> Seq<Seq<char>> {
    failed.map_values(|f: FailedRecipientModel| f.recipient)
}

impl SendListModel {
    /// The message once it was tried with as many recipients as there are outcomes.
    pub open spec fn after(self, outcomes: Seq<Result<Seq<char>, ErrorModel>>) -> SendListModel
        decreases outcomes.len(),
    {
        if outcomes.len() == 0 {
            self
        } else {
            self.after(outcomes.drop_last()).tallied(outcomes.last())
        }
    }
}

proof fn tally_is_balanced(
    s: SendListModel,
    outcomes: Seq<Result<Seq<char>, ErrorModel>>,
)
    requires
        s.sent.len() == 0,
        s.failed.len() == 0,
        outcomes.len() <= s.sendable.len(),
    ensures
        s.after(outcomes).sendable == s.sendable,
        s.after(outcomes).blocked == s.blocked,
        s.after(outcomes).tried() == outcomes.len(),
        sent_recipients(s.after(outcomes).sent).to_multiset().add(
            failed_recipients(s.after(outcomes).failed).to_multiset(),
        ) =~= quoted_recipients(s.sendable.take(outcomes.len() as int)).to_multiset(),
    decreases outcomes.len(),
{
    broadcast use vstd::seq_lib::group_to_multiset_ensures;

    if outcomes.len() == 0 {
        assert(sent_recipients(s.sent) =~= Seq::empty());
        assert(failed_recipients(s.failed) =~= Seq::empty());
        assert(quoted_recipients(s.sendable.take(0)) =~= Seq::empty());
    } else {
        let n = outcomes.len() - 1;
        let before = s.after(outcomes.drop_last());
        let now = s.after(outcomes);
        tally_is_balanced(s, outcomes.drop_last());
        let recipient = s.sendable[n].recipient;
        assert(quoted_recipients(s.sendable.take(n + 1)) =~= quoted_recipients(
            s.sendable.take(n),
        ).push(recipient));
        match outcomes.last() {
            Ok(_) => {
                assert(sent_recipients(now.sent) =~= sent_recipients(before.sent).push(recipient));
            },
            Err(_) => {
                assert(failed_recipients(now.failed) =~= failed_recipients(before.failed).push(
                    recipient,
                ));
            },
        }
    }
}

/// Every recipient that does not block the sender is told of once for each of its quotes: the
/// message went to it, or it is listed with an error. That holds whatever came of each sending,
/// and also when the payment could not be made. The recipients that block the sender are handed
/// on as they were quoted.
pub proof fn every_recipient_is_accounted_for(
    params: SendListParamsModel,
    quote: MessageBoxMultiQuoteModel,
    own_host: Seq<char>,
    override_host: Option<Seq<char>>,
    outcomes: Seq<Result<Seq<char>, ErrorModel>>,
    e: ErrorModel,
)
    requires
        outcomes.len() == sendable_of(quote.quotes_by_recipient).len(),
    ensures
        ({
            let start = SendListModel::start(params, quote, own_host, override_host);
            let recipients = quoted_recipients(sendable_of(quote.quotes_by_recipient));
            let done = start.after(outcomes).result();
            let unpaid = start.unpaid_result(e);
            &&& start.after(outcomes).send_next() == SendListStepModel::Done(done)
            &&& sent_recipients(done.sent).to_multiset().add(
                failed_recipients(done.failed).to_multiset(),
            ) == recipients.to_multiset()
            &&& done.blocked == quote.blocked_recipients
            &&& unpaid.sent.len() == 0
            &&& failed_recipients(unpaid.failed) == recipients
            &&& unpaid.blocked == quote.blocked_recipients
        }),
{
    let start = SendListModel::start(params, quote, own_host, override_host);
    let sendable = sendable_of(quote.quotes_by_recipient);
    tally_is_balanced(start, outcomes);
    assert(sendable.take(sendable.len() as int) =~= sendable);
    assert(failed_recipients(start.unpaid_result(e).failed) =~= quoted_recipients(sendable));
}

/// No recipient that blocks the sender is among those the message is sent to, and every other
/// recipient is.
pub proof fn blocked_recipients_get_nothing(quotes: Seq<RecipientQuoteModel>, q: RecipientQuoteModel)
    ensures
        sendable_of(quotes).contains(q) <==> quotes.contains(q) && q.status != "blocked"@,
    decreases quotes.len(),
{
    if quotes.len() > 0 {
        let rest = quotes.drop_last();
        blocked_recipients_get_nothing(rest, q);
        assert(quotes =~= rest.push(quotes.last()));
        if quotes.contains(q) {
            let i = choose|i: int| 0 <= i < quotes.len() && quotes[i] == q;
            assert(i < rest.len() ==> rest[i] == q);
        }
        if rest.contains(q) {
            let i = choose|i: int| 0 <= i < rest.len() && rest[i] == q;
            assert(quotes[i] == q);
        }
        let kept = sendable_of(rest);
        assert(quotes[rest.len() as int] == quotes.last());
        if quotes.last().status != "blocked"@ {
            let now = kept.push(quotes.last());
            assert(now[kept.len() as int] == quotes.last());
            if now.contains(q) {
                let i = choose|i: int| 0 <= i < now.len() && now[i] == q;
                assert(i < kept.len() ==> kept[i] == q);
            }
            if kept.contains(q) {
                let i = choose|i: int| 0 <= i < kept.len() && kept[i] == q;
                assert(now[i] == q);
            }
        }
    }
}

// ---------------------------------------------------------------------------------------------
// A sending to several recipients as a whole
// ---------------------------------------------------------------------------------------------

/// What is answered while a message is sent to several recipients: the host of the recipient at
/// each place, where it can be resolved; the payment; and what comes of each sending.
pub struct ListAnswers {
    pub hosts: spec_fn(int) -> Option<Seq<char>>,
    pub payment: Result<MessagePaymentModel, ErrorModel>,
    pub outcomes: spec_fn(int) -> Result<Seq<char>, ErrorModel>,
}

impl ListAnswers {
    /// The step that follows one when it is answered.
    pub open spec fn follow(self, step: SendListStepModel) -> SendListStepModel {
        match step {
            SendListStepModel::Resolve(s, _) => s.resolved((self.hosts)(s.hosts.len() as int)),
            SendListStepModel::Pay(s, _) => s.paid(self.payment),
            SendListStepModel::Send(s, _) => s.sent_to((self.outcomes)(s.tried() as int)),
            SendListStepModel::Done(_) => step,
        }
    }

    /// The step that is reached after `n` answers.
    pub open spec fn step(self, first: SendListStepModel, n: nat) -> SendListStepModel
        decreases n,
    {
        if n == 0 {
            first
        } else {
            self.follow(self.step(first, (n - 1) as nat))
        }
    }
}

/// The recipients that do not block the sender, in the order of their quotes.
pub proof fn sendable_recipients_keep_their_order(quotes: Seq<RecipientQuoteModel>)
    ensures
        sendable_of(quotes) == quotes.filter(|q: RecipientQuoteModel| q.status != "blocked"@),
    decreases quotes.len(),
{
    reveal(Seq::filter);
    if quotes.len() > 0 {
        sendable_recipients_keep_their_order(quotes.drop_last());
    }
}

/// Whether some quote asks a fee, of either kind.
pub open spec fn asks_fee(quotes: Seq<RecipientQuoteModel>) -> bool {
    exists|i: int|
        0 <= i < quotes.len() && ((#[trigger] quotes[i]).delivery_fee > 0
            || quotes[i].recipient_fee > 0)
}

/// The host for the recipient at a place: the one that is given for all, or the one that was
/// resolved, or the own one.
pub open spec fn host_at(
    a: ListAnswers,
    own_host: Seq<char>,
    override_host: Option<Seq<char>>,
    i: int,
) -> Seq<char> {
    match override_host {
        Some(h) => h,
        None => match (a.hosts)(i) {
            Some(h) => h,
            None => own_host,
        },
    }
}

/// Whether a host is the one for the recipient at a place: that of the last quote with the same
/// recipient.
pub open spec fn is_host_for(
    a: ListAnswers,
    own_host: Seq<char>,
    override_host: Option<Seq<char>>,
    quotes: Seq<RecipientQuoteModel>,
    recipient: Seq<char>,
    host: Seq<char>,
) -> bool {
    exists|j: int|
        0 <= j < quotes.len() && (#[trigger] quotes[j]).recipient == recipient && host == host_at(
            a,
            own_host,
            override_host,
            j,
        ) && forall|k: int| j < k < quotes.len() ==> (#[trigger] quotes[k]).recipient != recipient
}

/// Whether a step asks for what belongs to the message and its recipients.
pub open spec fn asks_for_list(
    step: SendListStepModel,
    params: SendListParamsModel,
    quote: MessageBoxMultiQuoteModel,
    own_host: Seq<char>,
    override_host: Option<Seq<char>>,
    a: ListAnswers,
) -> bool {
    let quotes = quote.quotes_by_recipient.filter(
        |q: RecipientQuoteModel| q.status != "blocked"@,
    );
    match step {
        SendListStepModel::Resolve(s, recipient) => {
            &&& override_host is None
            &&& s.hosts.len() < quotes.len()
            &&& recipient == quotes[s.hosts.len() as int].recipient
        },
        SendListStepModel::Pay(_, tuples) => {
            &&& asks_fee(quotes)
            &&& tuples.len() == quotes.len()
            &&& forall|i: int|
                0 <= i < quotes.len() ==> {
                    &&& (#[trigger] tuples[i]).recipient == quotes[i].recipient
                    &&& tuples[i].delivery_fee == quotes[i].delivery_fee
                    &&& tuples[i].recipient_fee == quotes[i].recipient_fee
                    &&& exists|host: Seq<char>| #[trigger]
                        is_host_for(a, own_host, override_host, quotes, quotes[i].recipient, host)
                            && tuples[i].agent_key == (match named(
                            quote.delivery_agent_identity_key_by_host,
                            host,
                        ) {
                            Some(k) => k,
                            None => Seq::empty(),
                        })
                }
        },
        SendListStepModel::Send(s, o) => {
            let i = s.sent.len() + s.failed.len();
            &&& i < quotes.len()
            &&& o.recipient == quotes[i as int].recipient
            &&& is_host_for(a, own_host, override_host, quotes, o.recipient, o.host)
            &&& o.message_box == params.message_box
            &&& o.body == params.body
            &&& o.skip_encryption <==> params.skip_encryption == Some(true)
            &&& if asks_fee(quotes) {
                o.payment is Some && a.payment == Ok::<_, ErrorModel>(o.payment->0)
            } else {
                o.payment is None
            }
        },
        SendListStepModel::Done(r) => if asks_fee(quotes) && a.payment is Err {
            &&& r.status == "error"@
            &&& r.sent.len() == 0
            &&& r.failed.len() == quotes.len()
            &&& forall|i: int|
                0 <= i < quotes.len() ==> (#[trigger] r.failed[i]).recipient == quotes[i].recipient
                    && r.failed[i].error == a.payment->Err_0.text()
            &&& r.blocked == quote.blocked_recipients
            &&& r.description == "Batch payment creation failed"@
            &&& r.totals is None
        } else {
            &&& r.status == "success"@
            &&& r.description == "Sent to "@ + decimal_text(r.sent.len()) + " recipients"@
            &&& r.sent == sent_of(a, quotes, quotes.len())
            &&& r.failed == failed_of(a, quotes, quotes.len())
            &&& r.blocked == quote.blocked_recipients
            &&& r.totals == quote.totals
        },
    }
}

/// The first recipients that the message went to, with the identifiers it got.
pub open spec fn sent_of(a: ListAnswers, quotes: Seq<RecipientQuoteModel>, n: nat) -> Seq<
    SentRecipientModel,
>
    decreases n,
{
    if n == 0 {
        Seq::empty()
    } else {
        let before = sent_of(a, quotes, (n - 1) as nat);
        match (a.outcomes)(n - 1) {
            Ok(id) => before.push(
                SentRecipientModel { recipient: quotes[n - 1].recipient, message_id: id },
            ),
            Err(_) => before,
        }
    }
}

/// The first recipients that the message did not go to, with what went wrong.
pub open spec fn failed_of(a: ListAnswers, quotes: Seq<RecipientQuoteModel>, n: nat) -> Seq<
    FailedRecipientModel,
>
    decreases n,
{
    if n == 0 {
        Seq::empty()
    } else {
        let before = failed_of(a, quotes, (n - 1) as nat);
        match (a.outcomes)(n - 1) {
            Ok(_) => before,
            Err(e) => before.push(
                FailedRecipientModel { recipient: quotes[n - 1].recipient, error: e.text() },
            ),
        }
    }
}

spec fn is_message_of(
    s: SendListModel,
    params: SendListParamsModel,
    quote: MessageBoxMultiQuoteModel,
    own_host: Seq<char>,
    override_host: Option<Seq<char>>,
    a: ListAnswers,
) -> bool {
    let quotes = quote.quotes_by_recipient.filter(
        |q: RecipientQuoteModel| q.status != "blocked"@,
    );
    &&& s.sendable == quotes
    &&& s.message_box == params.message_box
    &&& s.body == params.body
    &&& s.skip_encryption == (params.skip_encryption == Some(true))
    &&& s.own_host == own_host
    &&& s.blocked == quote.blocked_recipients
    &&& s.agent_keys == quote.delivery_agent_identity_key_by_host
    &&& s.totals == quote.totals
    &&& s.hosts.len() <= quotes.len()
    &&& forall|i: int|
        0 <= i < s.hosts.len() ==> #[trigger] s.hosts[i] == host_at(a, own_host, override_host, i)
    &&& override_host is Some ==> s.hosts.len() == quotes.len()
    &&& s.tried() <= quotes.len()
    &&& s.sent == sent_of(a, quotes, s.tried())
    &&& s.failed == failed_of(a, quotes, s.tried())
}

spec fn is_step_of(
    step: SendListStepModel,
    params: SendListParamsModel,
    quote: MessageBoxMultiQuoteModel,
    own_host: Seq<char>,
    override_host: Option<Seq<char>>,
    a: ListAnswers,
) -> bool {
    let quotes = quote.quotes_by_recipient.filter(
        |q: RecipientQuoteModel| q.status != "blocked"@,
    );
    match step {
        SendListStepModel::Resolve(s, _) => {
            &&& is_message_of(s, params, quote, own_host, override_host, a)
            &&& s.hosts.len() < quotes.len()
            &&& s.payment is None
            &&& s.tried() == 0
        },
        SendListStepModel::Pay(s, _) => {
            &&& is_message_of(s, params, quote, own_host, override_host, a)
            &&& s.hosts.len() == quotes.len()
            &&& s.payment is None
            &&& s.tried() == 0
        },
        SendListStepModel::Send(s, _) => {
            &&& is_message_of(s, params, quote, own_host, override_host, a)
            &&& s.hosts.len() == quotes.len()
            &&& s.tried() < quotes.len()
            &&& is_paid(s, quotes, a)
        },
        SendListStepModel::Done(_) => true,
    }
}

spec fn is_paid(s: SendListModel, quotes: Seq<RecipientQuoteModel>, a: ListAnswers) -> bool {
    if asks_fee(quotes) {
        s.payment is Some && a.payment == Ok::<_, ErrorModel>(s.payment->0)
    } else {
        s.payment is None
    }
}

proof fn hosts_are_found(
    s: SendListModel,
    params: SendListParamsModel,
    quote: MessageBoxMultiQuoteModel,
    own_host: Seq<char>,
    override_host: Option<Seq<char>>,
    a: ListAnswers,
    recipient: Seq<char>,
    upto: int,
)
    requires
        is_message_of(s, params, quote, own_host, override_host, a),
        s.hosts.len() == s.sendable.len(),
        0 <= upto <= s.sendable.len(),
        exists|i: int| 0 <= i < upto && (#[trigger] s.sendable[i]).recipient == recipient,
        forall|i: int|
            upto <= i < s.sendable.len() ==> (#[trigger] s.sendable[i]).recipient != recipient,
    ensures
        is_host_for(
            a,
            own_host,
            override_host,
            s.sendable,
            recipient,
            s.host_of(recipient, upto),
        ),
    decreases upto,
{
    if s.sendable[upto - 1].recipient == recipient {
        assert(s.hosts[upto - 1] == host_at(a, own_host, override_host, upto - 1));
    } else {
        hosts_are_found(
            s,
            params,
            quote,
            own_host,
            override_host,
            a,
            recipient,
            upto - 1,
        );
    }
}

proof fn hosts_are_found_for_all(
    s: SendListModel,
    params: SendListParamsModel,
    quote: MessageBoxMultiQuoteModel,
    own_host: Seq<char>,
    override_host: Option<Seq<char>>,
    a: ListAnswers,
    i: int,
)
    requires
        is_message_of(s, params, quote, own_host, override_host, a),
        s.hosts.len() == s.sendable.len(),
        0 <= i < s.sendable.len(),
    ensures
        is_host_for(
            a,
            own_host,
            override_host,
            s.sendable,
            s.sendable[i].recipient,
            s.host_of(s.sendable[i].recipient, s.sendable.len() as int),
        ),
{
    let n = s.sendable.len() as int;
    assert(s.sendable[i].recipient == s.sendable[i].recipient);
    hosts_are_found(s, params, quote, own_host, override_host, a, s.sendable[i].recipient, n);
}

proof fn sending_goes_on(
    s: SendListModel,
    params: SendListParamsModel,
    quote: MessageBoxMultiQuoteModel,
    own_host: Seq<char>,
    override_host: Option<Seq<char>>,
    a: ListAnswers,
)
    requires
        is_message_of(s, params, quote, own_host, override_host, a),
        s.hosts.len() == s.sendable.len(),
        is_paid(s, s.sendable, a),
    ensures
        is_step_of(s.send_next(), params, quote, own_host, override_host, a),
        asks_for_list(s.send_next(), params, quote, own_host, override_host, a),
{
    if s.tried() < s.sendable.len() {
        hosts_are_found_for_all(
            s,
            params,
            quote,
            own_host,
            override_host,
            a,
            s.tried() as int,
        );
    }
}

proof fn list_goes_on(
    s: SendListModel,
    params: SendListParamsModel,
    quote: MessageBoxMultiQuoteModel,
    own_host: Seq<char>,
    override_host: Option<Seq<char>>,
    a: ListAnswers,
)
    requires
        is_message_of(s, params, quote, own_host, override_host, a),
        s.payment is None,
        s.tried() == 0,
    ensures
        is_step_of(s.next(), params, quote, own_host, override_host, a),
        asks_for_list(s.next(), params, quote, own_host, override_host, a),
{
    let quotes = s.sendable;
    assert(any_fee(quotes) == asks_fee(quotes));
    if s.hosts.len() < quotes.len() {
    } else if asks_fee(quotes) {
        let tuples = Seq::new(quotes.len(), |i: int| s.tuple(i));
        assert forall|i: int| 0 <= i < quotes.len() implies {
            &&& (#[trigger] tuples[i]).recipient == quotes[i].recipient
            &&& tuples[i].delivery_fee == quotes[i].delivery_fee
            &&& tuples[i].recipient_fee == quotes[i].recipient_fee
            &&& exists|host: Seq<char>| #[trigger]
                is_host_for(a, own_host, override_host, quotes, quotes[i].recipient, host)
                    && tuples[i].agent_key == (match named(
                    quote.delivery_agent_identity_key_by_host,
                    host,
                ) {
                    Some(k) => k,
                    None => Seq::empty(),
                })
        } by {
            hosts_are_found_for_all(s, params, quote, own_host, override_host, a, i);
        }
    } else {
        sending_goes_on(s, params, quote, own_host, override_host, a);
    }
}

proof fn answers_go_on(
    step: SendListStepModel,
    params: SendListParamsModel,
    quote: MessageBoxMultiQuoteModel,
    own_host: Seq<char>,
    override_host: Option<Seq<char>>,
    a: ListAnswers,
)
    requires
        is_step_of(step, params, quote, own_host, override_host, a),
        asks_for_list(step, params, quote, own_host, override_host, a),
    ensures
        is_step_of(a.follow(step), params, quote, own_host, override_host, a),
        asks_for_list(a.follow(step), params, quote, own_host, override_host, a),
{
    match step {
        SendListStepModel::Resolve(s, _) => {
            let t = SendListModel {
                hosts: s.hosts.push(
                    match (a.hosts)(s.hosts.len() as int) {
                        Some(h) => h,
                        None => s.own_host,
                    },
                ),
                ..s
            };
            list_goes_on(t, params, quote, own_host, override_host, a);
        },
        SendListStepModel::Pay(s, _) => {
            if let Ok(p) = a.payment {
                let t = SendListModel { payment: Some(p), ..s };
                sending_goes_on(t, params, quote, own_host, override_host, a);
            }
        },
        SendListStepModel::Send(s, _) => {
            let t = s.tallied((a.outcomes)(s.tried() as int));
            sending_goes_on(t, params, quote, own_host, override_host, a);
        },
        SendListStepModel::Done(_) => {},
    }
}

/// The whole way of a message to several recipients, whatever is answered. Only the hosts of
/// recipients that do not block the sender are looked up, in their order, and none where one host
/// is given for all. One payment is asked for exactly where some of them asks a fee, and for what
/// each of them asks. Every message carries the body, the message box and the choice of encryption
/// that were given, goes to the host of its recipient, and has the payment that was made. In the
/// end every recipient stands where the outcome for it belongs, and when the payment could not be
/// made nobody gets the message.
pub proof fn lists_are_sent_as_ordered(
    params: SendListParamsModel,
    quote: MessageBoxMultiQuoteModel,
    own_host: Seq<char>,
    override_host: Option<Seq<char>>,
    a: ListAnswers,
    n: nat,
)
    ensures
        asks_for_list(
            a.step(SendListModel::start(params, quote, own_host, override_host).next(), n),
            params,
            quote,
            own_host,
            override_host,
            a,
        ),
{
    list_steps_go_on(params, quote, own_host, override_host, a, n);
}

proof fn list_steps_go_on(
    params: SendListParamsModel,
    quote: MessageBoxMultiQuoteModel,
    own_host: Seq<char>,
    override_host: Option<Seq<char>>,
    a: ListAnswers,
    n: nat,
)
    ensures
        ({
            let step = a.step(
                SendListModel::start(params, quote, own_host, override_host).next(),
                n,
            );
            &&& is_step_of(step, params, quote, own_host, override_host, a)
            &&& asks_for_list(step, params, quote, own_host, override_host, a)
        }),
    decreases n,
{
    let start = SendListModel::start(params, quote, own_host, override_host);
    if n == 0 {
        sendable_recipients_keep_their_order(quote.quotes_by_recipient);
        assert(start.sent =~= sent_of(a, start.sendable, 0));
        assert(start.failed =~= failed_of(a, start.sendable, 0));
        list_goes_on(start, params, quote, own_host, override_host, a);
    } else {
        list_steps_go_on(params, quote, own_host, override_host, a, (n - 1) as nat);
        answers_go_on(
            a.step(start.next(), (n - 1) as nat),
            params,
            quote,
            own_host,
            override_host,
            a,
        );
    }
}

/// A message to several recipients comes to its end: after at most one answer for the host of each
/// recipient, one for the payment and one for each sending.
pub proof fn lists_come_to_an_end(
    params: SendListParamsModel,
    quote: MessageBoxMultiQuoteModel,
    own_host: Seq<char>,
    override_host: Option<Seq<char>>,
    a: ListAnswers,
    n: nat,
)
    ensures
        n > 2 * quote.quotes_by_recipient.filter(
            |q: RecipientQuoteModel| q.status != "blocked"@,
        ).len() ==> a.step(
            SendListModel::start(params, quote, own_host, override_host).next(),
            n,
        ) is Done,
{
    list_answers_add_up(params, quote, own_host, override_host, a, n);
    list_steps_go_on(params, quote, own_host, override_host, a, n);
}

proof fn list_answers_add_up(
    params: SendListParamsModel,
    quote: MessageBoxMultiQuoteModel,
    own_host: Seq<char>,
    override_host: Option<Seq<char>>,
    a: ListAnswers,
    n: nat,
)
    ensures
        ({
            let step = a.step(
                SendListModel::start(params, quote, own_host, override_host).next(),
                n,
            );
            match step {
                SendListStepModel::Resolve(s, _) => n <= s.hosts.len(),
                SendListStepModel::Pay(s, _) => n <= s.hosts.len(),
                SendListStepModel::Send(s, _) => n <= s.hosts.len() + 1 + s.tried(),
                SendListStepModel::Done(_) => true,
            }
        }),
    decreases n,
{
    let first = SendListModel::start(params, quote, own_host, override_host).next();
    if n > 0 {
        list_answers_add_up(params, quote, own_host, override_host, a, (n - 1) as nat);
        list_steps_go_on(params, quote, own_host, override_host, a, (n - 1) as nat);
        if let SendListStepModel::Send(s, _) = a.step(first, (n - 1) as nat) {
            assert(s.tallied((a.outcomes)(s.tried() as int)).tried() == s.tried() + 1);
        }
    }
}

} // verus!
