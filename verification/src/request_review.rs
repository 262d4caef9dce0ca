//! The requests for payments that wait in the inbox: which of them stand, and which messages are
//! done with.
//!
//! The proofs of the cancellations are checked first, then the time is told, then the proofs of
//! the requests that are left are checked. What does not stand is acknowledged.

use crate::chain::{key_of, public_key};
use crate::client::MessageBoxClient;
use crate::codec::{hex_bytes, hex_decode, hex_text_reads_back, is_hex};
use crate::payment_requests::{
    incoming_request, is_valid_payment_request, is_whole_request, proof_data, RequestMessage,
    RequestMessageModel, RequestNamedModel, RequestStepModel,
};
use crate::text::{joined, opt_view, same_text, views};
use crate::types::{
    IncomingPaymentRequest, IncomingPaymentRequestModel, PaymentRequestLimits,
    PaymentRequestMessage, PaymentRequestMessageModel,
};
use crate::wallet::{
    protocol, request_proof_protocol, HmacCheck, HmacCheckModel, Party, PartyModel, ProtocolIdModel,
};
use vstd::prelude::*;
use vstd::string::*;
use vstd::utf8::*;

verus! {

broadcast use vstd::string::group_string_axioms;

/// What becomes of a message of the request box.
#[derive(Clone, Copy, Debug, PartialEq, Eq, Structural)]
pub enum Verdict {
    /// Its body is no whole request and no whole cancellation.
    Unreadable,
    /// It is a cancellation whose proof is wrong.
    FalseCancellation,
    /// It is a cancellation.
    Cancellation,
    /// It is a request whose time is over.
    Expired,
    /// It is a request that who asked has cancelled.
    Cancelled,
    /// It is a request for too little or too much.
    OutOfRange,
    /// It is a request whose proof is wrong.
    Unproven,
    /// It is a request that stands.
    Active,
}

/// A review of the request box.
pub struct Review {
    messages: Vec<RequestMessage>,
    me: String,
    limits: PaymentRequestLimits,
    cancels: Vec<bool>,
    now: Option<u64>,
    proofs: Vec<bool>,
}

/// The contents of a `Review`: the messages, the own identity key, the limits, the outcomes of the
/// checks of cancellations so far, the time in milliseconds since the epoch, and the outcomes of
/// the checks of requests so far. A message that is not checked counts as not proven.
#[verifier::ext_equal]
pub struct ReviewModel {
    pub messages: Seq<RequestMessageModel>,
    pub me: Seq<char>,
    pub limits: PaymentRequestLimits,
    pub cancels: Seq<bool>,
    pub now: Option<u64>,
    pub proofs: Seq<bool>,
}

impl View for Review {
    type V = ReviewModel;

    closed spec fn view(&self) -> ReviewModel {
        ReviewModel {
            messages: views(self.messages@),
            me: self.me@,
            limits: self.limits,
            cancels: self.cancels@,
            now: self.now,
            proofs: self.proofs@,
        }
    }
}

/// The outcome of a review.
#[derive(Clone, Debug)]
pub struct RequestListing {
    /// The requests that stand.
    pub requests: Vec<IncomingPaymentRequest>,
    /// The messages to acknowledge.
    pub acknowledge: Vec<String>,
}

/// The contents of a `RequestListing`.
#[verifier::ext_equal]
pub struct RequestListingModel {
    pub requests: Seq<IncomingPaymentRequestModel>,
    pub acknowledge: Seq<Seq<char>>,
}

impl View for RequestListing {
    type V = RequestListingModel;

    open spec fn view(&self) -> RequestListingModel {
        RequestListingModel {
            requests: views(self.requests@),
            acknowledge: views(self.acknowledge@),
        }
    }
}

/// The next step of a review.
pub enum ReviewStep {
    /// Ask the wallet whether this proof is right.
    Verify(Review, HmacCheck),
    /// Ask for the time.
    Clock(Review),
    /// The review is done.
    Done(RequestListing),
}

/// The contents of a `ReviewStep`.
#[verifier::ext_equal]
pub enum ReviewStepModel {
    Verify(ReviewModel, HmacCheckModel),
    Clock(ReviewModel),
    Done(RequestListingModel),
}

impl View for ReviewStep {
    type V = ReviewStepModel;

    open spec fn view(&self) -> ReviewStepModel {
        match self {
            ReviewStep::Verify(s, q) => ReviewStepModel::Verify(s@, q@),
            ReviewStep::Clock(s) => ReviewStepModel::Clock(s@),
            ReviewStep::Done(l) => ReviewStepModel::Done(l@),
        }
    }
}

/// The check of the proof that a message carries, when the sender's key reads as given. A proof
/// that is not hexadecimal is not checked.
pub open spec fn proof_check_model(
    request: PaymentRequestMessageModel,
    me: Seq<char>,
    sender: Result<Seq<char>, Seq<char>>,
) -> Option<HmacCheckModel> {
    if is_hex(request.request_proof) {
        Some(
            HmacCheckModel {
                data: proof_data(request.request_id, me),
                hmac: hex_bytes(request.request_proof),
                protocol: request_proof_protocol(),
                key_id: request.request_id,
                counterparty: PartyModel::Other(
                    match sender {
                        Ok(key) => Some(key),
                        Err(_) => None,
                    },
                ),
            },
        )
    } else {
        None
    }
}

/// The check of the proof that a message carries, when the sender's key reads as given.
pub fn proof_check(request: &PaymentRequestMessage, me: &str, sender: Result<String, String>) -> (r:
    Option<HmacCheck>)
    ensures
        opt_view(r) == proof_check_model(
            request@,
            me@,
            match sender {
                Ok(k) => Ok(k@),
                Err(e) => Err(e@),
            },
        ),
{
    let hmac = match hex_decode(request.request_proof.as_str()) {
        Err(_) => {
            return None;
        },
        Ok(bytes) => bytes,
    };
    let data = joined(request.request_id.as_str(), me);
    Some(
        HmacCheck {
            data: data.as_str().as_bytes_vec(),
            hmac,
            protocol: protocol(2, "payment request auth"),
            key_id: request.request_id.clone(),
            counterparty: Party::Other(
                match sender {
                    Ok(key) => Some(key),
                    Err(_) => None,
                },
            ),
        },
    )
}

/// Whether a message brings a whole cancellation.
pub open spec fn is_cancellation(m: RequestMessageModel) -> bool {
    m.request matches Some(request) && is_whole_request(request) && request.cancelled == Some(true)
}

impl ReviewModel {
    /// A review before its first step.
    pub open spec fn start(
        messages: Seq<RequestMessageModel>,
        me: Seq<char>,
        limits: PaymentRequestLimits,
    ) -> ReviewModel {
        ReviewModel {
            messages,
            me,
            limits,
            cancels: Seq::empty(),
            now: None,
            proofs: Seq::empty(),
        }
    }

    /// Whether the cancellation at a position was found right.
    pub open spec fn cancels_at(self, i: int) -> bool {
        is_cancellation(self.messages[i]) && self.cancels[i]
    }

    /// Whether the message at a position is a cancellation that was found right, of the request of
    /// this name, by this sender.
    pub open spec fn takes_back(self, j: int, request_id: Seq<char>, sender: Seq<char>) -> bool {
        &&& self.cancels_at(j)
        &&& self.messages[j].request->0.request_id == request_id
        &&& self.messages[j].message.sender == sender
    }

    /// Whether a sender has cancelled their request of this name, anywhere in the box.
    pub open spec fn taken_back(self, request_id: Seq<char>, sender: Seq<char>) -> bool {
        exists|j: int|
            0 <= j < self.messages.len() && #[trigger] self.takes_back(j, request_id, sender)
    }

    /// What becomes of the message at a position, if its proof is right.
    pub open spec fn standing(self, i: int) -> Verdict {
        let m = self.messages[i];
        match m.request {
            None => Verdict::Unreadable,
            Some(request) => if !is_whole_request(request) {
                Verdict::Unreadable
            } else if request.cancelled == Some(true) {
                if self.cancels[i] {
                    Verdict::Cancellation
                } else {
                    Verdict::FalseCancellation
                }
            } else if request.expires_at->0 < self.now->0 {
                Verdict::Expired
            } else if self.taken_back(request.request_id, m.message.sender) {
                Verdict::Cancelled
            } else if request.amount->0 < self.limits.min_amount || request.amount->0
                > self.limits.max_amount {
                Verdict::OutOfRange
            } else {
                Verdict::Active
            },
        }
    }

    /// What becomes of the message at a position.
    pub open spec fn verdict(self, i: int) -> Verdict {
        if self.standing(i) == Verdict::Active && !self.proofs[i] {
            Verdict::Unproven
        } else {
            self.standing(i)
        }
    }

    /// The check of the cancellation at a position.
    pub open spec fn cancellation_check(self, i: int) -> Option<HmacCheckModel> {
        if is_cancellation(self.messages[i]) {
            proof_check_model(
                self.messages[i].request->0,
                self.me,
                key_of(self.messages[i].message.sender),
            )
        } else {
            None
        }
    }

    /// The check of the request at a position.
    pub open spec fn request_check(self, i: int) -> Option<HmacCheckModel> {
        if self.standing(i) == Verdict::Active {
            proof_check_model(
                self.messages[i].request->0,
                self.me,
                key_of(self.messages[i].message.sender),
            )
        } else {
            None
        }
    }

    /// The names of the messages of which a thing becomes, among the first messages, in order.
    pub open spec fn ids_with(self, v: Verdict, upto: int) -> Seq<Seq<char>>
        decreases upto,
    {
        if upto <= 0 {
            Seq::empty()
        } else {
            let before = self.ids_with(v, upto - 1);
            if self.verdict(upto - 1) == v {
                before.push(self.messages[upto - 1].message.message_id)
            } else {
                before
            }
        }
    }

    /// The request that the message at a position brings.
    pub open spec fn request_at(self, i: int) -> IncomingPaymentRequestModel {
        incoming_request(self.messages[i].message, self.messages[i].request->0)->0
    }

    /// The requests that stand, among the first messages, in order.
    pub open spec fn active(self, upto: int) -> Seq<IncomingPaymentRequestModel>
        decreases upto,
    {
        if upto <= 0 {
            Seq::empty()
        } else {
            let before = self.active(upto - 1);
            if self.verdict(upto - 1) == Verdict::Active {
                before.push(self.request_at(upto - 1))
            } else {
                before
            }
        }
    }

    /// The outcome, once every message was reviewed.
    pub open spec fn listing(self) -> RequestListingModel {
        let n = self.messages.len() as int;
        RequestListingModel {
            requests: self.active(n),
            acknowledge: self.ids_with(Verdict::Expired, n) + self.ids_with(Verdict::Cancelled, n)
                + self.ids_with(Verdict::Cancellation, n) + self.ids_with(Verdict::OutOfRange, n)
                + self.ids_with(Verdict::Unreadable, n) + self.ids_with(
                Verdict::FalseCancellation,
                n,
            ) + self.ids_with(Verdict::Unproven, n),
        }
    }

    /// The review with the outcome of the check at hand.
    pub open spec fn told(self, valid: bool) -> ReviewModel {
        if self.cancels.len() < self.messages.len() {
            ReviewModel { cancels: self.cancels.push(valid), ..self }
        } else {
            ReviewModel { proofs: self.proofs.push(valid), ..self }
        }
    }

    /// How many outcomes are still missing.
    pub open spec fn left(self) -> int {
        2 * self.messages.len() - self.cancels.len() - self.proofs.len()
    }

    /// Whether the outcomes are those of the first messages.
    pub open spec fn wf(self) -> bool {
        &&& self.cancels.len() <= self.messages.len()
        &&& self.proofs.len() <= self.messages.len()
        &&& self.now is None ==> self.proofs.len() == 0
        &&& self.now is Some ==> self.cancels.len() == self.messages.len()
    }

    /// Whether an outcome is missing.
    pub open spec fn waits(self) -> bool {
        self.cancels.len() < self.messages.len() || (self.now is Some && self.proofs.len()
            < self.messages.len())
    }

    /// The check at hand: none, when the message at hand needs none.
    pub open spec fn check(self) -> Option<HmacCheckModel> {
        if self.cancels.len() < self.messages.len() {
            self.cancellation_check(self.cancels.len() as int)
        } else {
            self.request_check(self.proofs.len() as int)
        }
    }

    /// The next step.
    pub open spec fn next(self) -> ReviewStepModel
        decreases self.left(),
        when self.wf()
    {
        if self.waits() {
            match self.check() {
                Some(q) => ReviewStepModel::Verify(self, q),
                None => self.told(false).next(),
            }
        } else if self.now is None {
            ReviewStepModel::Clock(self)
        } else {
            ReviewStepModel::Done(self.listing())
        }
    }

    /// Whether a proof can be told right or wrong now.
    pub open spec fn awaits_proof(self) -> bool {
        self.wf() && self.waits()
    }

    /// Whether the time can be told now.
    pub open spec fn awaits_time(self) -> bool {
        self.wf() && !self.waits() && self.now is None
    }

    /// The step after the wallet said whether a proof is right. An error counts as no.
    pub open spec fn verified(self, reply: Result<bool, Seq<char>>) -> ReviewStepModel {
        self.told(reply == Ok::<bool, Seq<char>>(true)).next()
    }

    /// The step after the time was told.
    pub open spec fn clocked(self, now: u64) -> ReviewStepModel {
        (ReviewModel { now: Some(now), ..self }).next()
    }
}

impl ReviewStepModel {
    /// Whether what the step waits for can be given.
    pub open spec fn is_ready(self) -> bool {
        match self {
            ReviewStepModel::Verify(s, _) => s.awaits_proof(),
            ReviewStepModel::Clock(s) => s.awaits_time(),
            ReviewStepModel::Done(_) => true,
        }
    }
}

impl MessageBoxClient {
    /// The first step of a review of the request box.
    pub fn list_incoming_payment_requests(
        &self,
        messages: Vec<RequestMessage>,
        me: &str,
        limits: Option<PaymentRequestLimits>,
    ) -> (r: ReviewStep)
        ensures
            ({
                let limits = match limits {
                    Some(l) => l,
                    None => PaymentRequestLimits { min_amount: 1000, max_amount: 10_000_000 },
                };
                r@ == ReviewModel::start(views(messages@), me@, limits).next()
            }),
            r@.is_ready(),
    {
        let limits = match limits {
            Some(l) => l,
            None => PaymentRequestLimits::default(),
        };
        let s = Review {
            messages,
            me: me.to_owned(),
            limits,
            cancels: Vec::new(),
            now: None,
            proofs: Vec::new(),
        };
        assert(s@.cancels =~= Seq::empty());
        assert(s@.proofs =~= Seq::empty());
        s.next()
    }
}

impl Review {
    fn taken_back(&self, request_id: &str, sender: &str) -> (r: bool)
        requires
            self@.cancels.len() == self@.messages.len(),
        ensures
            r == self@.taken_back(request_id@, sender@),
    {
        let mut j: usize = 0;
        while j < self.messages.len()
            invariant
                0 <= j <= self.messages@.len(),
                self.cancels@.len() == self.messages@.len(),
                self@.messages.len() == self.messages@.len(),
                forall|k: int| 0 <= k < j ==> !#[trigger] self@.takes_back(
                    k,
                    request_id@,
                    sender@,
                ),
            decreases self.messages@.len() - j,
        {
            let m = &self.messages[j];
            assert(self@.messages[j as int] == m@);
            if self.cancels[j] {
                if let Some(request) = &m.request {
                    if is_valid_payment_request(request) && request.cancelled == Some(true)
                        && same_text(request.request_id.as_str(), request_id) && same_text(
                        m.message.sender.as_str(),
                        sender,
                    ) {
                        assert(self@.takes_back(j as int, request_id@, sender@));
                        return true;
                    }
                }
            }
            j = j + 1;
        }
        false
    }

    fn standing(&self, i: usize) -> (r: Verdict)
        requires
            i < self@.messages.len(),
            self@.cancels.len() == self@.messages.len(),
            self@.now is Some,
        ensures
            r == self@.standing(i as int),
    {
        let m = &self.messages[i];
        assert(self@.messages[i as int] == m@);
        let request = match &m.request {
            None => {
                return Verdict::Unreadable;
            },
            Some(request) => request,
        };
        if !is_valid_payment_request(request) {
            return Verdict::Unreadable;
        }
        if let Some(true) = request.cancelled {
            return if self.cancels[i] {
                Verdict::Cancellation
            } else {
                Verdict::FalseCancellation
            };
        }
        let (amount, expires_at, now): (u64, u64, u64) = match (
            request.amount,
            request.expires_at,
            self.now,
        ) {
            (Some(a), Some(e), Some(n)) => (a, e, n),
            _ => {
                return Verdict::Unreadable;
            },
        };
        if expires_at < now {
            return Verdict::Expired;
        }
        if self.taken_back(request.request_id.as_str(), m.message.sender.as_str()) {
            return Verdict::Cancelled;
        }
        if amount < self.limits.min_amount || amount > self.limits.max_amount {
            Verdict::OutOfRange
        } else {
            Verdict::Active
        }
    }

    fn check_of(&self, i: usize) -> (r: Option<HmacCheck>)
        requires
            i < self@.messages.len(),
            self@.messages[i as int].request is Some,
        ensures
            opt_view(r) == proof_check_model(
                self@.messages[i as int].request->0,
                self@.me,
                key_of(self@.messages[i as int].message.sender),
            ),
    {
        let m = &self.messages[i];
        assert(self@.messages[i as int] == m@);
        match &m.request {
            Some(request) => proof_check(
                request,
                self.me.as_str(),
                public_key(m.message.sender.as_str()),
            ),
            None => None,
        }
    }

    fn check(&self) -> (r: Option<HmacCheck>)
        requires
            self@.wf(),
            self@.waits(),
        ensures
            opt_view(r) == self@.check(),
    {
        if self.cancels.len() < self.messages.len() {
            let i: usize = self.cancels.len();
            let m = &self.messages[i];
            assert(self@.messages[i as int] == m@);
            if let Some(request) = &m.request {
                if is_valid_payment_request(request) && request.cancelled == Some(true) {
                    return self.check_of(i);
                }
            }
            None
        } else {
            let i: usize = self.proofs.len();
            match self.standing(i) {
                Verdict::Active => self.check_of(i),
                _ => None,
            }
        }
    }

    fn tell(&mut self, valid: bool)
        requires
            old(self)@.wf(),
            old(self)@.waits(),
        ensures
            final(self)@ == old(self)@.told(valid),
    {
        if self.cancels.len() < self.messages.len() {
            self.cancels.push(valid);
        } else {
            self.proofs.push(valid);
        }
    }

    fn next(self) -> (r: ReviewStep)
        requires
            self@.wf(),
        ensures
            r@ == self@.next(),
            r@.is_ready(),
    {
        let mut s = self;
        while s.cancels.len() < s.messages.len() || (s.now.is_some() && s.proofs.len()
            < s.messages.len())
            invariant
                s@.wf(),
                s@.next() == self@.next(),
                s@.messages.len() == s.messages@.len(),
            decreases s@.left(),
        {
            if let Some(q) = s.check() {
                return ReviewStep::Verify(s, q);
            }
            s.tell(false);
        }
        if s.now.is_none() {
            return ReviewStep::Clock(s);
        }
        ReviewStep::Done(s.listing())
    }

    fn verdicts(&self) -> (r: Vec<Verdict>)
        requires
            self@.wf(),
            self@.now is Some,
            self@.proofs.len() == self@.messages.len(),
        ensures
            r@.len() == self@.messages.len(),
            forall|i: int| 0 <= i < r@.len() ==> r@[i] == #[trigger] self@.verdict(i),
    {
        let mut r: Vec<Verdict> = Vec::new();
        let mut i: usize = 0;
        while i < self.messages.len()
            invariant
                0 <= i <= self.messages@.len(),
                self@.messages.len() == self.messages@.len(),
                self@.wf(),
                self@.now is Some,
                self@.proofs.len() == self@.messages.len(),
                r@.len() == i,
                forall|k: int| 0 <= k < i ==> r@[k] == #[trigger] self@.verdict(k),
            decreases self.messages@.len() - i,
        {
            let v = match self.standing(i) {
                Verdict::Active => if self.proofs[i] {
                    Verdict::Active
                } else {
                    Verdict::Unproven
                },
                v => v,
            };
            r.push(v);
            i = i + 1;
        }
        r
    }

    fn collect(&self, verdicts: &Vec<Verdict>, v: Verdict, ids: &mut Vec<String>)
        requires
            verdicts@.len() == self@.messages.len(),
            forall|i: int| 0 <= i < verdicts@.len() ==> verdicts@[i] == #[trigger] self@.verdict(i),
        ensures
            views(final(ids)@) == views(old(ids)@) + self@.ids_with(v, self@.messages.len() as int),
    {
        let ghost before = views(ids@);
        let mut i: usize = 0;
        assert(views(ids@) =~= before + self@.ids_with(v, 0));
        while i < self.messages.len()
            invariant
                0 <= i <= self.messages@.len(),
                self@.messages.len() == self.messages@.len(),
                verdicts@.len() == self@.messages.len(),
                forall|k: int|
                    0 <= k < verdicts@.len() ==> verdicts@[k] == #[trigger] self@.verdict(k),
                views(ids@) == before + self@.ids_with(v, i as int),
            decreases self.messages@.len() - i,
        {
            assert(self@.messages[i as int] == self.messages@[i as int]@);
            let ghost now = views(ids@);
            assert(verdicts@[i as int] == self@.verdict(i as int));
            if verdicts[i] == v {
                let id = self.messages[i].message.message_id.clone();
                ids.push(id);
                assert(views(ids@) =~= now.push(id@));
                assert(views(ids@) =~= before + self@.ids_with(v, i + 1));
            }
            i = i + 1;
        }
    }

    fn listing(self) -> (r: RequestListing)
        requires
            self@.wf(),
            self@.now is Some,
            self@.proofs.len() == self@.messages.len(),
        ensures
            r@ == self@.listing(),
    {
        let ghost model = self@;
        let verdicts = self.verdicts();
        let mut acknowledge: Vec<String> = Vec::new();
        assert(views(acknowledge@) =~= Seq::empty());
        self.collect(&verdicts, Verdict::Expired, &mut acknowledge);
        self.collect(&verdicts, Verdict::Cancelled, &mut acknowledge);
        self.collect(&verdicts, Verdict::Cancellation, &mut acknowledge);
        self.collect(&verdicts, Verdict::OutOfRange, &mut acknowledge);
        self.collect(&verdicts, Verdict::Unreadable, &mut acknowledge);
        self.collect(&verdicts, Verdict::FalseCancellation, &mut acknowledge);
        self.collect(&verdicts, Verdict::Unproven, &mut acknowledge);
        assert(views(acknowledge@) =~= model.listing().acknowledge);
        let mut requests: Vec<IncomingPaymentRequest> = Vec::new();
        assert(views(requests@) =~= model.active(0));
        let mut i: usize = 0;
        while i < self.messages.len()
            invariant
                0 <= i <= self.messages@.len(),
                model == self@,
                model.messages.len() == self.messages@.len(),
                verdicts@.len() == model.messages.len(),
                forall|k: int|
                    0 <= k < verdicts@.len() ==> verdicts@[k] == #[trigger] model.verdict(k),
                views(requests@) == model.active(i as int),
            decreases self.messages@.len() - i,
        {
            assert(model.messages[i as int] == self.messages@[i as int]@);
            let ghost before = views(requests@);
            assert(verdicts@[i as int] == model.verdict(i as int));
            if verdicts[i] == Verdict::Active {
                let m = &self.messages[i];
                if let Some(q) = &m.request {
                    if let (Some(amount), Some(description), Some(expires_at)) = (
                        q.amount,
                        &q.description,
                        q.expires_at,
                    ) {
                        let request = IncomingPaymentRequest {
                            message_id: m.message.message_id.clone(),
                            sender: m.message.sender.clone(),
                            request_id: q.request_id.clone(),
                            amount,
                            description: description.clone(),
                            expires_at,
                        };
                        requests.push(request);
                        assert(views(requests@) =~= before.push(request@));
                    }
                }
            }
            i = i + 1;
        }
        RequestListing { requests, acknowledge }
    }

    /// The step after the wallet said whether a proof is right, or failed.
    pub fn verified(self, reply: Result<bool, String>) -> (r: ReviewStep)
        requires
            self@.awaits_proof(),
        ensures
            r@ == self@.verified(
                match reply {
                    Ok(b) => Ok(b),
                    Err(e) => Err(e@),
                },
            ),
            r@.is_ready(),
    {
        let valid = match reply {
            Ok(b) => b,
            Err(_) => false,
        };
        let mut s = self;
        s.tell(valid);
        s.next()
    }

    /// The step after the time was told, in milliseconds since the epoch.
    pub fn clocked(self, now: u64) -> (r: ReviewStep)
        requires
            self@.awaits_time(),
        ensures
            r@ == self@.clocked(now),
            r@.is_ready(),
    {
        let mut s = self;
        s.now = Some(now);
        s.next()
    }
}

/// The names of the first messages.
pub open spec fn message_ids(ms: Seq<RequestMessageModel>, upto: int) -> Seq<Seq<char>> {
    ms.take(upto).map_values(|m: RequestMessageModel| m.message.message_id)
}

/// The messages that brought requests.
pub open spec fn request_ids(rs: Seq<IncomingPaymentRequestModel>) -> Seq<Seq<char>> {
    rs.map_values(|r: IncomingPaymentRequestModel| r.message_id)
}

proof fn verdicts_part_the_messages(s: ReviewModel, upto: int)
    requires
        0 <= upto <= s.messages.len(),
    ensures
        message_ids(s.messages, upto).to_multiset() =~= request_ids(
            s.active(upto),
        ).to_multiset().add(s.ids_with(Verdict::Expired, upto).to_multiset()).add(
            s.ids_with(Verdict::Cancelled, upto).to_multiset(),
        ).add(s.ids_with(Verdict::Cancellation, upto).to_multiset()).add(
            s.ids_with(Verdict::OutOfRange, upto).to_multiset(),
        ).add(s.ids_with(Verdict::Unreadable, upto).to_multiset()).add(
            s.ids_with(Verdict::FalseCancellation, upto).to_multiset(),
        ).add(s.ids_with(Verdict::Unproven, upto).to_multiset()),
    decreases upto,
{
    broadcast use vstd::seq_lib::group_to_multiset_ensures;

    if upto == 0 {
        assert(message_ids(s.messages, 0) =~= Seq::empty());
        assert(request_ids(s.active(0)) =~= Seq::empty());
    } else {
        verdicts_part_the_messages(s, upto - 1);
        let id = s.messages[upto - 1].message.message_id;
        assert(message_ids(s.messages, upto) =~= message_ids(s.messages, upto - 1).push(id));
        if s.verdict(upto - 1) == Verdict::Active {
            assert(request_ids(s.active(upto)) =~= request_ids(s.active(upto - 1)).push(id));
        }
    }
}

/// Every message of the box ends in exactly one place: it brings a request that is listed, or it is
/// acknowledged. Nothing is listed or acknowledged that was not in the box.
pub proof fn every_message_is_listed_or_acknowledged(s: ReviewModel)
    ensures
        request_ids(s.listing().requests).to_multiset().add(
            s.listing().acknowledge.to_multiset(),
        ) == message_ids(s.messages, s.messages.len() as int).to_multiset(),
{
    let n = s.messages.len() as int;
    let a = s.ids_with(Verdict::Expired, n);
    let b = s.ids_with(Verdict::Cancelled, n);
    let c = s.ids_with(Verdict::Cancellation, n);
    let d = s.ids_with(Verdict::OutOfRange, n);
    let e = s.ids_with(Verdict::Unreadable, n);
    let f = s.ids_with(Verdict::FalseCancellation, n);
    let g = s.ids_with(Verdict::Unproven, n);
    verdicts_part_the_messages(s, n);
    vstd::seq_lib::lemma_multiset_commutative(a, b);
    vstd::seq_lib::lemma_multiset_commutative(a + b, c);
    vstd::seq_lib::lemma_multiset_commutative(a + b + c, d);
    vstd::seq_lib::lemma_multiset_commutative(a + b + c + d, e);
    vstd::seq_lib::lemma_multiset_commutative(a + b + c + d + e, f);
    vstd::seq_lib::lemma_multiset_commutative(a + b + c + d + e + f, g);
    assert(request_ids(s.listing().requests).to_multiset().add(
        s.listing().acknowledge.to_multiset(),
    ) =~= message_ids(s.messages, n).to_multiset());
}

/// Whether a message brings a request that stands: it is whole, in its time, within the limits, not
/// cancelled by who sent it, and its proof was found right.
pub open spec fn stands(s: ReviewModel, i: int) -> bool {
    let m = s.messages[i];
    &&& m.request matches Some(request)
    &&& is_whole_request(request)
    &&& request.cancelled != Some(true)
    &&& s.now->0 <= request.expires_at->0
    &&& s.limits.min_amount <= request.amount->0 <= s.limits.max_amount
    &&& !s.taken_back(request.request_id, m.message.sender)
    &&& s.proofs[i]
}

proof fn active_requests_stand(s: ReviewModel, upto: int, r: IncomingPaymentRequestModel)
    requires
        0 <= upto <= s.messages.len(),
    ensures
        s.active(upto).contains(r) <==> exists|i: int|
            0 <= i < upto && #[trigger] stands(s, i) && r == s.request_at(i),
    decreases upto,
{
    if upto > 0 {
        active_requests_stand(s, upto - 1, r);
        let before = s.active(upto - 1);
        let now = s.active(upto);
        assert(stands(s, upto - 1) <==> s.verdict(upto - 1) == Verdict::Active);
        if now.contains(r) {
            let j = choose|j: int| 0 <= j < now.len() && now[j] == r;
            if j < before.len() {
                assert(before[j] == r);
            } else {
                assert(stands(s, upto - 1) && r == s.request_at(upto - 1));
            }
        }
        if exists|i: int| 0 <= i < upto && #[trigger] stands(s, i) && r == s.request_at(i) {
            let i = choose|i: int| 0 <= i < upto && #[trigger] stands(s, i) && r == s.request_at(i);
            if i < upto - 1 {
                let j = choose|j: int| 0 <= j < before.len() && before[j] == r;
                assert(now[j] == r);
            } else {
                assert(now[before.len() as int] == r);
            }
        }
    }
}

/// A request is listed exactly when it stands.
pub proof fn listed_requests_are_those_that_stand(s: ReviewModel, r: IncomingPaymentRequestModel)
    ensures
        s.listing().requests.contains(r) <==> exists|i: int|
            0 <= i < s.messages.len() && #[trigger] stands(s, i) && r == s.request_at(i),
{
    active_requests_stand(s, s.messages.len() as int, r);
}

/// A request in its time is cancelled exactly when a cancellation of its name, found right, came
/// from its own sender.
pub proof fn requests_are_cancelled_by_their_own_sender(s: ReviewModel, i: int)
    requires
        0 <= i < s.messages.len(),
        s.messages[i].request matches Some(request) && is_whole_request(request)
            && request.cancelled != Some(true) && s.now->0 <= request.expires_at->0,
    ensures
        s.verdict(i) == Verdict::Cancelled <==> exists|j: int|
            0 <= j < s.messages.len() && #[trigger] s.cancels_at(j)
                && s.messages[j].request->0.request_id == s.messages[i].request->0.request_id
                && s.messages[j].message.sender == s.messages[i].message.sender,
{
    let request_id = s.messages[i].request->0.request_id;
    let sender = s.messages[i].message.sender;
    if exists|j: int|
        0 <= j < s.messages.len() && #[trigger] s.cancels_at(j)
            && s.messages[j].request->0.request_id == request_id
            && s.messages[j].message.sender == sender {
        let j = choose|j: int|
            0 <= j < s.messages.len() && #[trigger] s.cancels_at(j)
                && s.messages[j].request->0.request_id == request_id
                && s.messages[j].message.sender == sender;
        assert(s.takes_back(j, request_id, sender));
    }
    if s.taken_back(request_id, sender) {
        let j = choose|j: int|
            0 <= j < s.messages.len() && #[trigger] s.takes_back(j, request_id, sender);
        assert(s.cancels_at(j));
    }
}

/// Nothing revives a request that its sender took back: whatever messages come behind, it stays
/// unlisted.
pub proof fn cancelled_requests_stay_cancelled(s: ReviewModel, later: ReviewModel, i: int)
    requires
        s.messages.is_prefix_of(later.messages),
        s.cancels.is_prefix_of(later.cancels),
        s.cancels.len() == s.messages.len(),
        0 <= i < s.messages.len(),
        s.messages[i].request is Some,
        s.taken_back(s.messages[i].request->0.request_id, s.messages[i].message.sender),
    ensures
        !stands(later, i),
{
    let request_id = s.messages[i].request->0.request_id;
    let sender = s.messages[i].message.sender;
    let j = choose|j: int|
        0 <= j < s.messages.len() && #[trigger] s.takes_back(j, request_id, sender);
    assert(later.messages[j] == s.messages[j]);
    assert(later.cancels[j] == s.cancels[j]);
    assert(later.messages[i] == s.messages[i]);
    assert(later.takes_back(j, request_id, sender));
}

/// What a wallet and a clock answer to a review: whether each proof is right, and the time.
pub struct ReviewAnswers {
    pub proofs: spec_fn(HmacCheckModel) -> Result<bool, Seq<char>>,
    pub now: u64,
}

impl ReviewAnswers {
    /// The step after the answer to a step.
    pub open spec fn follow(self, step: ReviewStepModel) -> ReviewStepModel {
        match step {
            ReviewStepModel::Verify(s, q) => s.verified((self.proofs)(q)),
            ReviewStepModel::Clock(s) => s.clocked(self.now),
            ReviewStepModel::Done(_) => step,
        }
    }

    /// The step after some answers.
    pub open spec fn step(self, first: ReviewStepModel, n: nat) -> ReviewStepModel
        decreases n,
    {
        if n == 0 {
            first
        } else {
            self.follow(self.step(first, (n - 1) as nat))
        }
    }

    /// Whether the wallet finds the proof of a message right: a hexadecimal text that stands for
    /// the keyed hash of the name of the request and the own key, under that name, with the sender.
    pub open spec fn proves(self, m: RequestMessageModel, me: Seq<char>) -> bool {
        let request = m.request->0;
        is_hex(request.request_proof) && (self.proofs)(
            HmacCheckModel {
                data: encode_utf8(request.request_id + me),
                hmac: hex_bytes(request.request_proof),
                protocol: ProtocolIdModel { security_level: 2, name: "payment request auth"@ },
                key_id: request.request_id,
                counterparty: PartyModel::Other(
                    match key_of(m.message.sender) {
                        Ok(key) => Some(key),
                        Err(_) => None,
                    },
                ),
            },
        ) == Ok::<bool, Seq<char>>(true)
    }

    /// Whether a message is a proven cancellation of a request, by the sender of that request.
    pub open spec fn cancels(
        self,
        c: RequestMessageModel,
        m: RequestMessageModel,
        me: Seq<char>,
    ) -> bool {
        &&& c.request matches Some(q)
        &&& is_whole_request(q)
        &&& q.cancelled == Some(true)
        &&& self.proves(c, me)
        &&& q.request_id == m.request->0.request_id
        &&& c.message.sender == m.message.sender
    }

    /// Whether a message of a box brings a request to list.
    pub open spec fn lists(
        self,
        m: RequestMessageModel,
        messages: Seq<RequestMessageModel>,
        me: Seq<char>,
        limits: PaymentRequestLimits,
    ) -> bool {
        &&& m.request matches Some(q)
        &&& is_whole_request(q)
        &&& q.cancelled != Some(true)
        &&& self.now <= q.expires_at->0
        &&& limits.min_amount <= q.amount->0 <= limits.max_amount
        &&& self.proves(m, me)
        &&& !exists|j: int| 0 <= j < messages.len() && #[trigger] self.cancels(messages[j], m, me)
    }
}

/// The request of a message of the request box.
pub open spec fn request_of(m: RequestMessageModel) -> IncomingPaymentRequestModel {
    IncomingPaymentRequestModel {
        message_id: m.message.message_id,
        sender: m.message.sender,
        request_id: m.request->0.request_id,
        amount: m.request->0.amount->0,
        description: m.request->0.description->0,
        expires_at: m.request->0.expires_at->0,
    }
}

/// Whether what a review was told so far is what the wallet and the clock answer.
spec fn is_told(
    s: ReviewModel,
    messages: Seq<RequestMessageModel>,
    me: Seq<char>,
    limits: PaymentRequestLimits,
    a: ReviewAnswers,
) -> bool {
    &&& s.wf()
    &&& s.messages == messages && s.me == me && s.limits == limits
    &&& s.now is Some ==> s.now == Some(a.now)
    &&& forall|i: int|
        0 <= i < s.cancels.len() ==> #[trigger] s.cancels[i] == (is_cancellation(messages[i])
            && a.proves(messages[i], me))
    &&& forall|i: int|
        0 <= i < s.proofs.len() ==> (s.standing(i) == Verdict::Active ==> #[trigger] s.proofs[i]
            == a.proves(messages[i], me))
}

proof fn standing_is_told_by_the_cancellations(s: ReviewModel, t: ReviewModel, i: int)
    requires
        s.messages == t.messages && s.limits == t.limits && s.now == t.now && s.cancels == t.cancels,
    ensures
        s.standing(i) == t.standing(i),
{
    let m = s.messages[i];
    if m.request is Some {
        let id = m.request->0.request_id;
        let sender = m.message.sender;
        if s.taken_back(id, sender) {
            let j = choose|j: int|
                0 <= j < s.messages.len() && #[trigger] s.takes_back(j, id, sender);
            assert(t.takes_back(j, id, sender));
        }
        if t.taken_back(id, sender) {
            let j = choose|j: int|
                0 <= j < t.messages.len() && #[trigger] t.takes_back(j, id, sender);
            assert(s.takes_back(j, id, sender));
        }
    }
}

proof fn telling_keeps_what_was_told(
    s: ReviewModel,
    valid: bool,
    messages: Seq<RequestMessageModel>,
    me: Seq<char>,
    limits: PaymentRequestLimits,
    a: ReviewAnswers,
)
    requires
        is_told(s, messages, me, limits, a),
        s.waits(),
        match s.check() {
            None => !valid,
            Some(q) => valid == ((a.proofs)(q) == Ok::<bool, Seq<char>>(true)),
        },
    ensures
        is_told(s.told(valid), messages, me, limits, a),
        s.told(valid).left() == s.left() - 1,
{
    let t = s.told(valid);
    if s.cancels.len() >= s.messages.len() {
        assert forall|i: int|
            0 <= i < t.proofs.len() && t.standing(i) == Verdict::Active implies #[trigger] t.proofs[i]
            == a.proves(messages[i], me) by {
            standing_is_told_by_the_cancellations(s, t, i);
            if i < s.proofs.len() {
                assert(s.proofs[i] == t.proofs[i]);
            }
        }
    }
}

proof fn reviews_keep_what_was_told(
    s: ReviewModel,
    messages: Seq<RequestMessageModel>,
    me: Seq<char>,
    limits: PaymentRequestLimits,
    a: ReviewAnswers,
)
    requires
        is_told(s, messages, me, limits, a),
    ensures
        is_told_step(s.next(), messages, me, limits, a),
        s.next() matches ReviewStepModel::Verify(t, _) ==> t.left() <= s.left() && (t.now is Some
            <==> s.now is Some),
        s.next() matches ReviewStepModel::Clock(t) ==> t.left() <= s.left() && s.now is None,
    decreases s.left(),
{
    if s.waits() {
        if s.check() is None {
            telling_keeps_what_was_told(s, false, messages, me, limits, a);
            reviews_keep_what_was_told(s.told(false), messages, me, limits, a);
        }
    } else if s.now is Some {
        listings_follow_what_was_told(s, messages, me, limits, a, messages.len() as int);
        assert(messages.take(messages.len() as int) =~= messages);
    }
}

/// Whether a step of a review is one on what was told, or lists what is to be listed.
spec fn is_told_step(
    step: ReviewStepModel,
    messages: Seq<RequestMessageModel>,
    me: Seq<char>,
    limits: PaymentRequestLimits,
    a: ReviewAnswers,
) -> bool {
    match step {
        ReviewStepModel::Verify(s, q) => is_told(s, messages, me, limits, a) && s.waits()
            && s.check() == Some(q),
        ReviewStepModel::Clock(s) => is_told(s, messages, me, limits, a) && !s.waits() && s.now
            is None,
        ReviewStepModel::Done(l) => l.requests == messages.filter(
            |m: RequestMessageModel| a.lists(m, messages, me, limits),
        ).map_values(|m: RequestMessageModel| request_of(m)),
    }
}

proof fn listings_follow_what_was_told(
    s: ReviewModel,
    messages: Seq<RequestMessageModel>,
    me: Seq<char>,
    limits: PaymentRequestLimits,
    a: ReviewAnswers,
    upto: int,
)
    requires
        is_told(s, messages, me, limits, a),
        s.now is Some,
        !s.waits(),
        0 <= upto <= messages.len(),
    ensures
        s.active(upto) == messages.take(upto).filter(
            |m: RequestMessageModel| a.lists(m, messages, me, limits),
        ).map_values(|m: RequestMessageModel| request_of(m)),
    decreases upto,
{
    reveal(Seq::filter);
    let lists = |m: RequestMessageModel| a.lists(m, messages, me, limits);
    let of = |m: RequestMessageModel| request_of(m);
    if upto == 0 {
        assert(messages.take(0).filter(lists).map_values(of) =~= Seq::empty());
    } else {
        let i = upto - 1;
        let m = messages[i];
        listings_follow_what_was_told(s, messages, me, limits, a, i);
        assert(messages.take(upto).drop_last() =~= messages.take(i));
        assert(messages.take(upto).last() == m);
        let before = messages.take(i).filter(lists);
        assert(before.push(m).map_values(of) =~= before.map_values(of).push(request_of(m)));
        if m.request is Some && is_whole_request(m.request->0) {
            let id = m.request->0.request_id;
            let sender = m.message.sender;
            if s.taken_back(id, sender) {
                let j = choose|j: int|
                    0 <= j < s.messages.len() && #[trigger] s.takes_back(j, id, sender);
                assert(a.cancels(messages[j], m, me));
            }
            if exists|j: int| 0 <= j < messages.len() && #[trigger] a.cancels(messages[j], m, me) {
                let j = choose|j: int|
                    0 <= j < messages.len() && #[trigger] a.cancels(messages[j], m, me);
                assert(s.cancels[j]);
                assert(s.takes_back(j, id, sender));
            }
            assert(s.proofs.len() == messages.len());
            if s.standing(i) == Verdict::Active {
                assert(s.proofs[i] == a.proves(m, me));
            }
        }
        assert((s.verdict(i) == Verdict::Active) == lists(m));
    }
}

proof fn review_steps_go_on(
    messages: Seq<RequestMessageModel>,
    me: Seq<char>,
    limits: PaymentRequestLimits,
    a: ReviewAnswers,
    n: nat,
)
    ensures
        ({
            let step = a.step(ReviewModel::start(messages, me, limits).next(), n);
            &&& is_told_step(step, messages, me, limits, a)
            &&& match step {
                ReviewStepModel::Verify(s, _) => s.left() + (if s.now is None {
                    1int
                } else {
                    0
                }) <= 2 * messages.len() + 1 - n,
                ReviewStepModel::Clock(s) => s.left() + 1 <= 2 * messages.len() + 1 - n,
                ReviewStepModel::Done(_) => true,
            }
        }),
    decreases n,
{
    let first = ReviewModel::start(messages, me, limits);
    if n == 0 {
        reviews_keep_what_was_told(first, messages, me, limits, a);
    } else {
        review_steps_go_on(messages, me, limits, a, (n - 1) as nat);
        match a.step(first.next(), (n - 1) as nat) {
            ReviewStepModel::Verify(s, q) => {
                let valid = (a.proofs)(q) == Ok::<bool, Seq<char>>(true);
                telling_keeps_what_was_told(s, valid, messages, me, limits, a);
                reviews_keep_what_was_told(s.told(valid), messages, me, limits, a);
            },
            ReviewStepModel::Clock(s) => {
                let t = ReviewModel { now: Some(a.now), ..s };
                reviews_keep_what_was_told(t, messages, me, limits, a);
            },
            ReviewStepModel::Done(_) => {},
        }
    }
}

/// A review, whatever the wallet and the clock answer: it comes to its end, and lists the requests
/// of the box that are whole, in their time, within the limits, proven, and not taken back by a
/// proven cancellation of their own sender. It lists all of these and no others, in their order, and
/// each as its message brought it.
pub proof fn reviews_list_what_stands(
    messages: Seq<RequestMessageModel>,
    me: Seq<char>,
    limits: PaymentRequestLimits,
    a: ReviewAnswers,
    n: nat,
)
    ensures
        a.step(ReviewModel::start(messages, me, limits).next(), n) matches ReviewStepModel::Done(l)
            ==> l.requests == messages.filter(
            |m: RequestMessageModel| a.lists(m, messages, me, limits),
        ).map_values(|m: RequestMessageModel| request_of(m)),
        n > 2 * messages.len() + 1 ==> a.step(
            ReviewModel::start(messages, me, limits).next(),
            n,
        ) is Done,
{
    review_steps_go_on(messages, me, limits, a, n);
}

/// What a request is proven over is what its proof is checked over: who is asked checks the name of
/// the request and their own key, under the name of the request, against the very bytes of the
/// proof.
pub proof fn proofs_are_checked_as_made(
    named: RequestNamedModel,
    me: Seq<char>,
    key: Seq<char>,
    hmac: Seq<u8>,
    sender: Result<Seq<char>, Seq<char>>,
)
    ensures
        match named.identified(Ok(me), Ok(key)) {
            Ok(RequestStepModel::Prove(draft, q)) => match proof_check_model(
                draft.request(hmac),
                named.start.recipient,
                sender,
            ) {
                Some(c) => {
                    &&& c.data == q.data
                    &&& c.protocol == q.protocol
                    &&& c.key_id == q.key_id
                    &&& c.hmac == hmac
                    &&& c.counterparty == PartyModel::Other(
                        match sender {
                            Ok(k) => Some(k),
                            Err(_) => None,
                        },
                    )
                },
                None => false,
            },
            _ => false,
        },
{
    hex_text_reads_back(hmac);
}

} // verus!
