//! Reading the messages of a message box: fees are taken in, and bodies are unwrapped and
//! decrypted, one message after the other.

use crate::adapter::adapted_all;
use crate::client::{accept_body, accepted_body, HttpReply, HttpReplyModel, MessageBoxClient};
use crate::delivery_fee::{
    listed_body, listed_fee, listed_fee_request, unwrap_listed_body, WrappedMessageBody,
    WrappedMessageBodyModel,
};
use crate::encryption::{
    all_wrappers, decrypt_plan, extract_plain_body, inner_body, message_text, opened, plain_body,
    try_decrypt_message, try_decrypt_plan, typed_outcome, wrappers_make_no_difference, DecryptPlan,
    DecryptPlanModel,
};
use crate::error::{ErrorModel, MessageBoxError};
use crate::text::{duplicate_all, duplicate_bytes, opt_view, result_view, views};
use crate::types::{PeerMessageModel, ServerPeerMessage, ServerPeerMessageModel};
use crate::wallet::{
    DecryptRequest, DecryptRequestModel, InternalizeRequest, InternalizeRequestModel,
};
use vstd::prelude::*;
use vstd::string::*;

verus! {

broadcast use vstd::string::group_string_axioms;

/// A message of the server, with the wrapper that its body is, if it is one.
#[derive(Clone, Debug)]
pub struct ListedMessage {
    /// The message.
    pub message: ServerPeerMessage,
    /// The wrapper.
    pub wrapped: Option<WrappedMessageBody>,
}

/// The contents of a `ListedMessage`.
#[verifier::ext_equal]
pub struct ListedMessageModel {
    pub message: ServerPeerMessageModel,
    pub wrapped: Option<WrappedMessageBodyModel>,
}

impl View for ListedMessage {
    type V = ListedMessageModel;

    open spec fn view(&self) -> ListedMessageModel {
        ListedMessageModel {
            message: self.message@,
            wrapped: opt_view(self.wrapped),
        }
    }
}

/// A message to read: its body without the wrapper, and the fee to take in.
#[derive(Clone, Debug)]
pub struct InboxEntry {
    /// The message.
    message: ServerPeerMessage,
    /// The body without the wrapper of the server.
    plain: String,
    /// The fee to take in.
    fee: Option<InternalizeRequest>,
}

/// The contents of a `InboxEntry`.
#[verifier::ext_equal]
pub struct InboxEntryModel {
    pub message: ServerPeerMessageModel,
    pub plain: Seq<char>,
    pub fee: Option<InternalizeRequestModel>,
}

impl View for InboxEntry {
    type V = InboxEntryModel;

    closed spec fn view(&self) -> InboxEntryModel {
        InboxEntryModel {
            message: self.message@,
            plain: self.plain@,
            fee: opt_view(self.fee),
        }
    }
}

/// Messages while their bodies are read.
pub struct InboxReading {
    /// The messages.
    entries: Vec<InboxEntry>,
    /// Whether the fee of the message at hand was taken in.
    paid: bool,
    /// The messages that are read.
    done: Vec<ServerPeerMessage>,
}

/// The contents of a `InboxReading`.
#[verifier::ext_equal]
pub struct InboxReadingModel {
    pub entries: Seq<InboxEntryModel>,
    pub paid: bool,
    pub done: Seq<ServerPeerMessageModel>,
}

impl View for InboxReading {
    type V = InboxReadingModel;

    closed spec fn view(&self) -> InboxReadingModel {
        InboxReadingModel {
            entries: views(self.entries@),
            paid: self.paid,
            done: views(self.done@),
        }
    }
}

/// A body that the wallet is asked to decrypt.
pub struct PendingBody {
    /// The messages.
    reading: InboxReading,
    /// The body as it is.
    raw: String,
}

/// The contents of a `PendingBody`.
#[verifier::ext_equal]
pub struct PendingBodyModel {
    pub reading: InboxReadingModel,
    pub raw: Seq<char>,
}

impl View for PendingBody {
    type V = PendingBodyModel;

    closed spec fn view(&self) -> PendingBodyModel {
        PendingBodyModel {
            reading: self.reading@,
            raw: self.raw@,
        }
    }
}

/// The next step of reading messages.
pub enum InboxStep {
    /// Ask the wallet to take a fee in. Its answer makes no difference.
    Internalize(InboxReading, InternalizeRequest),
    /// Ask the wallet to decrypt a body.
    Decrypt(PendingBody, DecryptRequest),
    /// The messages are read.
    Done(Vec<ServerPeerMessage>),
}

/// The contents of a `InboxStep`.
#[verifier::ext_equal]
pub enum InboxStepModel {
    Internalize(InboxReadingModel, InternalizeRequestModel),
    Decrypt(PendingBodyModel, DecryptRequestModel),
    Done(Seq<ServerPeerMessageModel>),
}

impl View for InboxStep {
    type V = InboxStepModel;

    open spec fn view(&self) -> InboxStepModel {
        match self {
            InboxStep::Internalize(s, q) => InboxStepModel::Internalize(s@, q@),
            InboxStep::Decrypt(s, q) => InboxStepModel::Decrypt(s@, q@),
            InboxStep::Done(ms) => InboxStepModel::Done(views(ms@)),
        }
    }
}

impl InboxReadingModel {
    /// Messages before they are read.
    pub open spec fn start(entries: Seq<InboxEntryModel>) -> InboxReadingModel {
        InboxReadingModel { entries, paid: false, done: Seq::empty() }
    }

    /// Whether no more messages are read than there are.
    pub open spec fn wf(self) -> bool {
        self.done.len() <= self.entries.len()
    }

    /// Whether a message is at hand.
    pub open spec fn at_hand(self) -> bool {
        self.done.len() < self.entries.len()
    }

    /// The message at hand.
    pub open spec fn entry(self) -> InboxEntryModel {
        self.entries[self.done.len() as int]
    }

    /// The messages with the body of the one at hand read.
    pub open spec fn with_body(self, body: Seq<char>) -> InboxReadingModel {
        InboxReadingModel {
            paid: false,
            done: self.done.push(ServerPeerMessageModel { body, ..self.entry().message }),
            ..self
        }
    }

    /// The next step: the fee of the message at hand, then its body.
    pub open spec fn next(self) -> InboxStepModel
        decreases self.entries.len() - self.done.len(),
    {
        if !self.at_hand() {
            InboxStepModel::Done(self.done)
        } else if !self.paid && self.entry().fee is Some {
            InboxStepModel::Internalize(self, self.entry().fee->0)
        } else {
            match decrypt_plan(self.entry().plain, self.entry().message.sender) {
                DecryptPlanModel::Passthrough(raw) => self.with_body(raw).next(),
                DecryptPlanModel::Decrypt(raw, q) => InboxStepModel::Decrypt(
                    PendingBodyModel { reading: self, raw },
                    q,
                ),
            }
        }
    }

    /// The step after the wallet was asked to take a fee in.
    pub open spec fn internalized(self) -> InboxStepModel {
        (InboxReadingModel { paid: true, ..self }).next()
    }
}

impl PendingBodyModel {
    /// The step after the wallet answered with the plaintext. A body that it cannot decrypt goes
    /// through as it is.
    pub open spec fn decrypted(self, reply: Result<Seq<u8>, Seq<char>>) -> InboxStepModel {
        self.reading.with_body(typed_outcome(self.raw, reply).body()).next()
    }
}

/// A message that is read as it is.
pub open spec fn plain_entry(m: ServerPeerMessageModel) -> InboxEntryModel {
    InboxEntryModel { message: m, plain: m.body, fee: None }
}

/// A message of which the wrapper is taken off.
pub open spec fn polled_entry(m: ServerPeerMessageModel) -> InboxEntryModel {
    InboxEntryModel { message: m, plain: plain_body(m.body), fee: None }
}

/// A message of which the wrapper is taken off, and whose fee is taken in.
pub open spec fn listed_entry(m: ListedMessageModel, accept_payments: bool) -> InboxEntryModel {
    InboxEntryModel {
        message: m.message,
        plain: listed_body(m.message.body, m.wrapped),
        fee: listed_fee(m.wrapped, accept_payments),
    }
}

/// The entries of the messages of a list.
pub open spec fn listed_entries(
    messages: Seq<ListedMessageModel>,
    accept_payments: bool,
) -> Seq<InboxEntryModel> {
    messages.map_values(|m: ListedMessageModel| listed_entry(m, accept_payments))
}

impl MessageBoxClient {
    /// The first step of reading messages as they are, without fees.
    pub fn list_messages_lite(&self, messages: Vec<ServerPeerMessage>) -> (r: InboxStep)
        ensures
            r@ == InboxReadingModel::start(
                views(messages@).map_values(|m: ServerPeerMessageModel| plain_entry(m)),
            ).next(),
            r@.is_ready(),
    {
        let ghost all = views(messages@).map_values(|m: ServerPeerMessageModel| plain_entry(m));
        let mut entries: Vec<InboxEntry> = Vec::new();
        assert(views(entries@) =~= all.take(0));
        for m in it: messages
            invariant
                it.seq() == messages@,
                all == views(messages@).map_values(|m: ServerPeerMessageModel| plain_entry(m)),
                views(entries@) == all.take(it.index() as int),
        {
            let ghost n = it.index() as int;
            let ghost before = views(entries@);
            let plain = m.body.clone();
            let entry = InboxEntry { message: m, plain, fee: None };
            entries.push(entry);
            assert(all[n] == entry@);
            assert(views(entries@) =~= before.push(entry@));
            assert(all.take(n + 1) =~= before.push(entry@));
        }
        assert(all.take(all.len() as int) =~= all);
        start(entries)
    }
}

/// The first step of reading messages that were looked up beside the live connection: nothing is
/// left to read when there was no answer, when its status code is not a successful one, when it
/// reports an error or when no messages could be read from it.
pub open spec fn polled(
    url: Seq<char>,
    reply: Result<HttpReplyModel, Seq<char>>,
    listed: Result<Seq<ServerPeerMessageModel>, Seq<char>>,
) -> InboxStepModel {
    match accepted_body(url, reply) {
        Err(_) => InboxStepModel::Done(Seq::empty()),
        Ok(_) => match listed {
            Err(_) => InboxStepModel::Done(Seq::empty()),
            Ok(messages) => InboxReadingModel::start(
                messages.map_values(|m: ServerPeerMessageModel| polled_entry(m)),
            ).next(),
        },
    }
}

/// What went wrong with a lookup beside the live connection, if anything did.
pub open spec fn poll_failure(
    url: Seq<char>,
    reply: Result<HttpReplyModel, Seq<char>>,
    listed: Result<Seq<ServerPeerMessageModel>, Seq<char>>,
) -> Option<ErrorModel> {
    match (accepted_body(url, reply), listed) {
        (Err(e), _) => Some(e),
        (Ok(_), Err(e)) => Some(ErrorModel::Json(e)),
        (Ok(_), Ok(_)) => None,
    }
}

/// The contents of a list of messages, or the message of the error.
pub open spec fn listed_view(listed: Result<Vec<ServerPeerMessage>, String>) -> Result<
    Seq<ServerPeerMessageModel>,
    Seq<char>,
> {
    match listed {
        Ok(messages) => Ok(views(messages@)),
        Err(e) => Err(e@),
    }
}

/// The first step of reading what was looked up at `url` beside the live connection, and what went
/// wrong. `listed` is what the body of the answer says. A lookup that failed gives no messages.
pub fn poll_list_messages(
    url: &str,
    reply: Result<HttpReply, String>,
    listed: Result<Vec<ServerPeerMessage>, String>,
) -> (r: (InboxStep, Option<MessageBoxError>))
    ensures
        r.0@ == polled(url@, result_view(reply), listed_view(listed)),
        opt_view(r.1) == poll_failure(url@, result_view(reply), listed_view(listed)),
        r.0@.is_ready(),
{
    let none: Vec<ServerPeerMessage> = Vec::new();
    assert(views(none@) =~= Seq::empty());
    match (accept_body(url, reply), listed) {
        (Ok(_), Ok(messages)) => (start_polled(messages), None),
        (Err(e), _) => (InboxStep::Done(none), Some(e)),
        (Ok(_), Err(e)) => (InboxStep::Done(none), Some(MessageBoxError::Json(e))),
    }
}

fn start_polled(messages: Vec<ServerPeerMessage>) -> (r: InboxStep)
    ensures
        r@ == InboxReadingModel::start(
            views(messages@).map_values(|m: ServerPeerMessageModel| polled_entry(m)),
        ).next(),
        r@.is_ready(),
{
    let ghost all = views(messages@).map_values(|m: ServerPeerMessageModel| polled_entry(m));
    let mut entries: Vec<InboxEntry> = Vec::new();
    assert(views(entries@) =~= all.take(0));
    for m in it: messages
        invariant
            it.seq() == messages@,
            all == views(messages@).map_values(|m: ServerPeerMessageModel| polled_entry(m)),
            views(entries@) == all.take(it.index() as int),
    {
        let ghost n = it.index() as int;
        let ghost before = views(entries@);
        let plain = extract_plain_body(m.body.as_str());
        let entry = InboxEntry { message: m, plain, fee: None };
        entries.push(entry);
        assert(all[n] == entry@);
        assert(views(entries@) =~= before.push(entry@));
        assert(all.take(n + 1) =~= before.push(entry@));
    }
    assert(all.take(all.len() as int) =~= all);
    start(entries)
}

/// The first step of reading messages with their fees, when payments are accepted.
pub fn list_messages_from_host(messages: Vec<ListedMessage>, accept_payments: bool) -> (r:
    InboxStep)
    ensures
        r@ == InboxReadingModel::start(listed_entries(views(messages@), accept_payments)).next(),
        r@.is_ready(),
{
    let ghost all = listed_entries(views(messages@), accept_payments);
    let mut entries: Vec<InboxEntry> = Vec::new();
    assert(views(entries@) =~= all.take(0));
    for m in it: messages
        invariant
            it.seq() == messages@,
            all == listed_entries(views(messages@), accept_payments),
            views(entries@) == all.take(it.index() as int),
    {
        let ghost n = it.index() as int;
        let ghost before = views(entries@);
        let fee = listed_fee_request(&m.wrapped, accept_payments);
        let plain = unwrap_listed_body(m.message.body.as_str(), m.wrapped);
        let entry = InboxEntry { message: m.message, plain, fee };
        entries.push(entry);
        assert(all[n] == entry@);
        assert(views(entries@) =~= before.push(entry@));
        assert(all.take(n + 1) =~= before.push(entry@));
    }
    assert(all.take(all.len() as int) =~= all);
    start(entries)
}

fn start(entries: Vec<InboxEntry>) -> (r: InboxStep)
    ensures
        r@ == InboxReadingModel::start(views(entries@)).next(),
        r@.is_ready(),
{
    let s = InboxReading { entries, paid: false, done: Vec::new() };
    assert(s@.done =~= Seq::empty());
    s.next()
}

fn copy_request(q: &InternalizeRequest) -> (r: InternalizeRequest)
    ensures
        r@ == q@,
{
    InternalizeRequest {
        tx: duplicate_bytes(&q.tx),
        description: q.description.clone(),
        labels: duplicate_all(&q.labels),
        seek_permission: q.seek_permission,
        outputs: duplicate_all(&q.outputs),
    }
}

impl InboxStepModel {
    /// Whether what the step waits for can be given.
    pub open spec fn is_ready(self) -> bool {
        match self {
            InboxStepModel::Internalize(s, _) => s.at_hand(),
            InboxStepModel::Decrypt(s, _) => s.reading.at_hand(),
            InboxStepModel::Done(_) => true,
        }
    }
}

impl InboxReading {
    fn push_body(&mut self, body: String)
        requires
            old(self)@.at_hand(),
        ensures
            final(self)@ == old(self)@.with_body(body@),
    {
        let ghost before = self@.done;
        let i: usize = self.done.len();
        assert(self@.entries.len() == self.entries@.len());
        assert(self@.entries[i as int] == self.entries@[i as int]@);
        let m = &self.entries[i].message;
        let read = ServerPeerMessage {
            message_id: m.message_id.clone(),
            body,
            sender: m.sender.clone(),
            created_at: m.created_at.clone(),
            updated_at: m.updated_at.clone(),
            acknowledged: m.acknowledged,
        };
        self.done.push(read);
        self.paid = false;
        assert(self@.done =~= before.push(read@));
    }

    fn next(self) -> (r: InboxStep)
        requires
            self@.wf(),
        ensures
            r@ == self@.next(),
            r@.is_ready(),
    {
        let mut s = self;
        while s.done.len() < s.entries.len()
            invariant
                s@.wf(),
                s@.next() == self@.next(),
                s@.entries.len() == s.entries@.len(),
                s@.done.len() == s.done@.len(),
            decreases s.entries@.len() - s.done@.len(),
        {
            let i: usize = s.done.len();
            assert(s@.entries[i as int] == s.entries@[i as int]@);
            if !s.paid {
                if let Some(q) = &s.entries[i].fee {
                    let q = copy_request(q);
                    return InboxStep::Internalize(s, q);
                }
            }
            let plan = try_decrypt_plan(
                s.entries[i].plain.as_str(),
                s.entries[i].message.sender.as_str(),
            );
            match plan {
                DecryptPlan::Passthrough(raw) => {
                    s.push_body(raw);
                },
                DecryptPlan::Decrypt { raw, request } => {
                    return InboxStep::Decrypt(PendingBody { reading: s, raw }, request);
                },
            }
        }
        InboxStep::Done(s.done)
    }

    /// The step after the wallet was asked to take a fee in, whatever it answered.
    pub fn internalized(self) -> (r: InboxStep)
        requires
            self@.at_hand(),
        ensures
            r@ == self@.internalized(),
            r@.is_ready(),
    {
        let mut s = self;
        s.paid = true;
        s.next()
    }
}

impl PendingBody {
    /// The step after the wallet answered with the plaintext, or could not.
    pub fn decrypted(self, reply: Result<Vec<u8>, String>) -> (r: InboxStep)
        requires
            self@.reading.at_hand(),
        ensures
            r@ == self@.decrypted(result_view(reply)),
            r@.is_ready(),
    {
        let mut s = self.reading;
        let body = try_decrypt_message(self.raw, reply);
        s.push_body(body);
        s.next()
    }
}

// ---------------------------------------------------------------------------------------------
// A reading as a whole
// ---------------------------------------------------------------------------------------------

/// What a body is read as: the body itself when it is not encrypted, and else what the answer of
/// the wallet makes of it.
pub open spec fn read_body(
    plain: Seq<char>,
    sender: Seq<char>,
    answer: Result<Seq<u8>, Seq<char>>,
) -> Seq<char> {
    message_text(decrypt_plan(plain, sender), answer)
}

/// The messages with their bodies read, when the wallet gives `answers(i)` where it is asked for
/// the body of the message at place `i`.
pub open spec fn read_all(
    entries: Seq<InboxEntryModel>,
    answers: spec_fn(int) -> Result<Seq<u8>, Seq<char>>,
) -> Seq<ServerPeerMessageModel> {
    Seq::new(
        entries.len(),
        |i: int|
            ServerPeerMessageModel {
                body: read_body(entries[i].plain, entries[i].message.sender, answers(i)),
                ..entries[i].message
            },
    )
}

/// A bound on the answers that a reading still waits for.
pub open spec fn answers_left(step: InboxStepModel) -> int {
    match step {
        InboxStepModel::Internalize(s, _) => 2 * (s.entries.len() - s.done.len()) + 1,
        InboxStepModel::Decrypt(p, _) => 2 * (p.reading.entries.len() - p.reading.done.len()),
        InboxStepModel::Done(_) => 0,
    }
}

proof fn next_is_nearer(s: InboxReadingModel)
    requires
        s.wf(),
    ensures
        0 <= answers_left(s.next()) <= 2 * (s.entries.len() - s.done.len()) + 1,
        s.paid && s.at_hand() ==> answers_left(s.next()) <= 2 * (s.entries.len() - s.done.len()),
        s.next().is_ready(),
    decreases s.entries.len() - s.done.len(),
{
    if s.at_hand() && !(!s.paid && s.entry().fee is Some) {
        match decrypt_plan(s.entry().plain, s.entry().message.sender) {
            DecryptPlanModel::Passthrough(raw) => next_is_nearer(s.with_body(raw)),
            DecryptPlanModel::Decrypt(_, _) => {},
        }
    }
}

/// The messages that a reading ends with, when the wallet gives `answers(i)` where it is asked for
/// the body of the message at place `i`.
pub open spec fn outcome(
    step: InboxStepModel,
    answers: spec_fn(int) -> Result<Seq<u8>, Seq<char>>,
) -> Seq<ServerPeerMessageModel>
    decreases answers_left(step),
    via outcome_ends
{
    if !step.is_ready() {
        Seq::empty()
    } else {
        match step {
            InboxStepModel::Internalize(s, _) => outcome(s.internalized(), answers),
            InboxStepModel::Decrypt(p, _) => outcome(
                p.decrypted(answers(p.reading.done.len() as int)),
                answers,
            ),
            InboxStepModel::Done(ms) => ms,
        }
    }
}

#[via_fn]
proof fn outcome_ends(
    step: InboxStepModel,
    answers: spec_fn(int) -> Result<Seq<u8>, Seq<char>>,
) {
    step_is_nearer(step, answers);
}

/// The fees that a reading asks the wallet to take in, in their order.
pub open spec fn taken_in(
    step: InboxStepModel,
    answers: spec_fn(int) -> Result<Seq<u8>, Seq<char>>,
) -> Seq<InternalizeRequestModel>
    decreases answers_left(step),
    via taken_in_ends
{
    if !step.is_ready() {
        Seq::empty()
    } else {
        match step {
            InboxStepModel::Internalize(s, q) => seq![q] + taken_in(s.internalized(), answers),
            InboxStepModel::Decrypt(p, _) => taken_in(
                p.decrypted(answers(p.reading.done.len() as int)),
                answers,
            ),
            InboxStepModel::Done(_) => Seq::empty(),
        }
    }
}

#[via_fn]
proof fn taken_in_ends(
    step: InboxStepModel,
    answers: spec_fn(int) -> Result<Seq<u8>, Seq<char>>,
) {
    step_is_nearer(step, answers);
}

proof fn step_is_nearer(
    step: InboxStepModel,
    answers: spec_fn(int) -> Result<Seq<u8>, Seq<char>>,
)
    ensures
        step.is_ready() ==> match step {
            InboxStepModel::Internalize(s, _) => 0 <= answers_left(s.internalized())
                < answers_left(step),
            InboxStepModel::Decrypt(p, _) => 0 <= answers_left(
                p.decrypted(answers(p.reading.done.len() as int)),
            ) < answers_left(step),
            InboxStepModel::Done(_) => true,
        },
{
    if step.is_ready() {
        match step {
            InboxStepModel::Internalize(s, _) => next_is_nearer(
                InboxReadingModel { paid: true, ..s },
            ),
            InboxStepModel::Decrypt(p, _) => next_is_nearer(
                p.reading.with_body(
                    typed_outcome(p.raw, answers(p.reading.done.len() as int)).body(),
                ),
            ),
            InboxStepModel::Done(_) => {},
        }
    }
}

/// The fees of the messages from place `k` on.
pub open spec fn fees_from(entries: Seq<InboxEntryModel>, k: int) -> Seq<InternalizeRequestModel>
    decreases entries.len() - k,
{
    if k < 0 || k >= entries.len() {
        Seq::empty()
    } else {
        match entries[k].fee {
            Some(q) => seq![q] + fees_from(entries, k + 1),
            None => fees_from(entries, k + 1),
        }
    }
}

proof fn reads_on(
    s: InboxReadingModel,
    answers: spec_fn(int) -> Result<Seq<u8>, Seq<char>>,
)
    requires
        s.wf(),
        s.done == read_all(s.entries, answers).take(s.done.len() as int),
    ensures
        outcome(s.next(), answers) == read_all(s.entries, answers),
        taken_in(s.next(), answers) == fees_from(
            s.entries,
            if s.paid {
                s.done.len() as int + 1
            } else {
                s.done.len() as int
            },
        ),
    decreases
        s.entries.len() - s.done.len(),
        if s.paid {
            0int
        } else {
            1int
        },
{
    let all = read_all(s.entries, answers);
    let k = s.done.len() as int;
    next_is_nearer(s);
    if !s.at_hand() {
        assert(all.take(k) =~= all);
    } else if !s.paid && s.entry().fee is Some {
        reads_on(InboxReadingModel { paid: true, ..s }, answers);
    } else {
        let body = read_body(s.entry().plain, s.entry().message.sender, answers(k));
        let t = s.with_body(body);
        assert(t.done =~= all.take(k + 1));
        reads_on(t, answers);
    }
}

/// Every message of a reading ends in its place, with its name, its sender and its times, and with
/// its body read; every fee is asked to be taken in once, in the order of the messages.
pub proof fn readings_read_every_body(
    entries: Seq<InboxEntryModel>,
    answers: spec_fn(int) -> Result<Seq<u8>, Seq<char>>,
)
    ensures
        outcome(InboxReadingModel::start(entries).next(), answers) == read_all(entries, answers),
        taken_in(InboxReadingModel::start(entries).next(), answers) == fees_from(entries, 0),
{
    let s = InboxReadingModel::start(entries);
    assert(s.done =~= read_all(entries, answers).take(0));
    reads_on(s, answers);
}

/// A message of the server as a list gives it, when the wallet answers so where it is asked for the
/// body: the body is taken out of its wrapper and decrypted.
pub open spec fn listed_message(
    m: ListedMessageModel,
    answer: Result<Seq<u8>, Seq<char>>,
    identity_key: Seq<char>,
    message_box: Seq<char>,
) -> PeerMessageModel {
    PeerMessageModel {
        message_id: m.message.message_id,
        sender: m.message.sender,
        recipient: identity_key,
        message_box,
        body: read_body(listed_body(m.message.body, m.wrapped), m.message.sender, answer),
    }
}

/// A list gives every message that the server sent, in its order and with its body opened. It is
/// the same list whether or not payments are accepted.
pub proof fn listed_bodies_are_opened(
    messages: Seq<ListedMessageModel>,
    accept_payments: bool,
    answers: spec_fn(int) -> Result<Seq<u8>, Seq<char>>,
    identity_key: Seq<char>,
    message_box: Seq<char>,
)
    ensures
        adapted_all(
            outcome(
                InboxReadingModel::start(listed_entries(messages, accept_payments)).next(),
                answers,
            ),
            identity_key,
            message_box,
        ) == Seq::new(
            messages.len(),
            |i: int| listed_message(messages[i], answers(i), identity_key, message_box),
        ),
{
    let entries = listed_entries(messages, accept_payments);
    readings_read_every_body(entries, answers);
    assert(adapted_all(read_all(entries, answers), identity_key, message_box) =~= Seq::new(
        messages.len(),
        |i: int| listed_message(messages[i], answers(i), identity_key, message_box),
    ));
}

/// Whether the wrapper of a message was read out of its body: the message in it is the one that the
/// body wraps. Of a body that is a JSON array it is not.
pub open spec fn wrapper_fits(m: ListedMessageModel) -> bool {
    let body = m.message.body;
    listed_body(body, m.wrapped) == body || listed_body(body, m.wrapped) == plain_body(body)
}

/// The body of every message in a list is what opening and decrypting the body that the server sent
/// gives, as it stands; and it is the same with and without payments.
pub proof fn listed_bodies_are_decrypted(
    messages: Seq<ListedMessageModel>,
    accept_payments: bool,
    answers: spec_fn(int) -> Result<Seq<u8>, Seq<char>>,
    identity_key: Seq<char>,
    message_box: Seq<char>,
)
    requires
        forall|i: int|
            0 <= i < messages.len() ==> wrapper_fits(#[trigger] messages[i]) && inner_body(
                opened(messages[i].message.body, all_wrappers()),
            ) is None,
    ensures
        adapted_all(
            outcome(
                InboxReadingModel::start(listed_entries(messages, accept_payments)).next(),
                answers,
            ),
            identity_key,
            message_box,
        ) == Seq::new(
            messages.len(),
            |i: int|
                PeerMessageModel {
                    message_id: messages[i].message.message_id,
                    sender: messages[i].message.sender,
                    recipient: identity_key,
                    message_box,
                    body: message_text(
                        decrypt_plan(messages[i].message.body, messages[i].message.sender),
                        answers(i),
                    ),
                },
        ),
{
    listed_bodies_are_opened(messages, accept_payments, answers, identity_key, message_box);
    let listed = Seq::new(
        messages.len(),
        |i: int| listed_message(messages[i], answers(i), identity_key, message_box),
    );
    let wanted = Seq::new(
        messages.len(),
        |i: int|
            PeerMessageModel {
                message_id: messages[i].message.message_id,
                sender: messages[i].message.sender,
                recipient: identity_key,
                message_box,
                body: message_text(
                    decrypt_plan(messages[i].message.body, messages[i].message.sender),
                    answers(i),
                ),
            },
    );
    assert forall|i: int| 0 <= i < messages.len() implies listed[i] == wanted[i] by {
        assert(wrapper_fits(messages[i]));
        wrappers_make_no_difference(messages[i].message.body, messages[i].message.sender);
    }
    assert(listed =~= wanted);
}

proof fn no_fees_from(messages: Seq<ListedMessageModel>, k: int)
    requires
        0 <= k,
    ensures
        fees_from(listed_entries(messages, false), k) == Seq::<InternalizeRequestModel>::empty(),
    decreases messages.len() - k,
{
    if k < messages.len() {
        no_fees_from(messages, k + 1);
    }
}

/// Fees are taken in only when payments are accepted.
pub proof fn fees_are_taken_in_on_request(
    messages: Seq<ListedMessageModel>,
    answers: spec_fn(int) -> Result<Seq<u8>, Seq<char>>,
)
    ensures
        taken_in(InboxReadingModel::start(listed_entries(messages, false)).next(), answers)
            == Seq::<InternalizeRequestModel>::empty(),
{
    readings_read_every_body(listed_entries(messages, false), answers);
    no_fees_from(messages, 0);
}

proof fn fees_of_one_more(entries: Seq<InboxEntryModel>, e: InboxEntryModel, k: int)
    requires
        0 <= k <= entries.len(),
    ensures
        fees_from(entries.push(e), k) == fees_from(entries, k) + (match e.fee {
            Some(q) => seq![q],
            None => Seq::empty(),
        }),
    decreases entries.len() - k,
{
    if k < entries.len() {
        fees_of_one_more(entries, e, k + 1);
        assert(entries.push(e)[k] == entries[k]);
        if let Some(q) = entries[k].fee {
            assert(fees_from(entries.push(e), k) =~= fees_from(entries, k) + (match e.fee {
                Some(q) => seq![q],
                None => Seq::empty(),
            }));
        }
    } else {
        reveal_with_fuel(fees_from, 2);
        assert(entries.push(e)[k] == e);
        assert(fees_from(entries.push(e), k) =~= fees_from(entries, k) + (match e.fee {
            Some(q) => seq![q],
            None => Seq::empty(),
        }));
    }
}

proof fn fees_are_in_order(entries: Seq<InboxEntryModel>)
    ensures
        fees_from(entries, 0) == entries.filter(
            |e: InboxEntryModel| e.fee is Some,
        ).map_values(|e: InboxEntryModel| e.fee->0),
    decreases entries.len(),
{
    reveal(Seq::filter);
    let pays = |e: InboxEntryModel| e.fee is Some;
    let fee = |e: InboxEntryModel| e.fee->0;
    if entries.len() > 0 {
        let rest = entries.drop_last();
        fees_are_in_order(rest);
        fees_of_one_more(rest, entries.last(), 0);
        assert(rest.push(entries.last()) =~= entries);
        let before = rest.filter(pays);
        assert(before.push(entries.last()).map_values(fee) =~= before.map_values(fee) + seq![
            entries.last().fee->0,
        ]);
    } else {
        assert(entries.filter(pays).map_values(fee) =~= Seq::empty());
    }
}

proof fn fees_come_from_the_wrappers(messages: Seq<ListedMessageModel>)
    ensures
        listed_entries(messages, true).filter(
            |e: InboxEntryModel| e.fee is Some,
        ).map_values(|e: InboxEntryModel| e.fee->0) == messages.filter(
            |m: ListedMessageModel| listed_fee(m.wrapped, true) is Some,
        ).map_values(|m: ListedMessageModel| listed_fee(m.wrapped, true)->0),
    decreases messages.len(),
{
    reveal(Seq::filter);
    let entries = listed_entries(messages, true);
    let pays = |e: InboxEntryModel| e.fee is Some;
    let fee = |e: InboxEntryModel| e.fee->0;
    let wraps = |m: ListedMessageModel| listed_fee(m.wrapped, true) is Some;
    let wrapped = |m: ListedMessageModel| listed_fee(m.wrapped, true)->0;
    if messages.len() > 0 {
        let rest = messages.drop_last();
        fees_come_from_the_wrappers(rest);
        assert(entries.drop_last() =~= listed_entries(rest, true));
        let m = messages.last();
        let e = entries.last();
        assert(e == listed_entry(m, true));
        let before = entries.drop_last().filter(pays);
        let so_far = rest.filter(wraps);
        assert(before.push(e).map_values(fee) =~= before.map_values(fee).push(fee(e)));
        assert(so_far.push(m).map_values(wrapped) =~= so_far.map_values(wrapped).push(wrapped(m)));
    } else {
        assert(entries.filter(pays).map_values(fee) =~= messages.filter(wraps).map_values(wrapped));
    }
}

/// When payments are accepted, the fee of every message that has one is taken in, once and in the
/// order of the messages.
pub proof fn fees_of_all_messages_are_taken_in(
    messages: Seq<ListedMessageModel>,
    answers: spec_fn(int) -> Result<Seq<u8>, Seq<char>>,
)
    ensures
        taken_in(InboxReadingModel::start(listed_entries(messages, true)).next(), answers)
            == messages.filter(
            |m: ListedMessageModel| listed_fee(m.wrapped, true) is Some,
        ).map_values(|m: ListedMessageModel| listed_fee(m.wrapped, true)->0),
{
    let entries = listed_entries(messages, true);
    readings_read_every_body(entries, answers);
    fees_are_in_order(entries);
    fees_come_from_the_wrappers(messages);
}

/// The messages with their bodies decrypted, each with the key of its own sender.
pub open spec fn decrypted_messages(
    messages: Seq<ServerPeerMessageModel>,
    answers: spec_fn(int) -> Result<Seq<u8>, Seq<char>>,
) -> Seq<ServerPeerMessageModel> {
    Seq::new(
        messages.len(),
        |i: int|
            ServerPeerMessageModel {
                message_id: messages[i].message_id,
                body: message_text(decrypt_plan(messages[i].body, messages[i].sender), answers(i)),
                sender: messages[i].sender,
                created_at: messages[i].created_at,
                updated_at: messages[i].updated_at,
                acknowledged: messages[i].acknowledged,
            },
    )
}

proof fn free_entries_have_no_fees(entries: Seq<InboxEntryModel>, k: int)
    requires
        0 <= k,
        forall|i: int| 0 <= i < entries.len() ==> (#[trigger] entries[i]).fee is None,
    ensures
        fees_from(entries, k) == Seq::<InternalizeRequestModel>::empty(),
    decreases entries.len() - k,
{
    if k < entries.len() {
        free_entries_have_no_fees(entries, k + 1);
    }
}

/// Messages that are read as they are come out whole and in order, with their bodies decrypted, and
/// no fee is taken in for them.
pub proof fn plain_readings_only_decrypt(
    messages: Seq<ServerPeerMessageModel>,
    answers: spec_fn(int) -> Result<Seq<u8>, Seq<char>>,
)
    ensures
        ({
            let first = InboxReadingModel::start(
                messages.map_values(|m: ServerPeerMessageModel| plain_entry(m)),
            ).next();
            &&& outcome(first, answers) == decrypted_messages(messages, answers)
            &&& taken_in(first, answers).len() == 0
        }),
{
    let entries = messages.map_values(|m: ServerPeerMessageModel| plain_entry(m));
    readings_read_every_body(entries, answers);
    free_entries_have_no_fees(entries, 0);
    assert(read_all(entries, answers) =~= decrypted_messages(messages, answers));
}

/// Messages that were looked up beside the live connection come out whole and in order, with their
/// bodies opened and decrypted, and no fee is taken in for them. They come out exactly when nothing
/// went wrong with the lookup, and what went wrong is told: first what is wrong with the answer,
/// then what is wrong with its list.
pub proof fn lookups_only_decrypt(
    url: Seq<char>,
    reply: Result<HttpReplyModel, Seq<char>>,
    listed: Result<Seq<ServerPeerMessageModel>, Seq<char>>,
    answers: spec_fn(int) -> Result<Seq<u8>, Seq<char>>,
)
    requires
        listed matches Ok(messages) ==> forall|i: int|
            0 <= i < messages.len() ==> inner_body(
                opened((#[trigger] messages[i]).body, all_wrappers()),
            ) is None,
    ensures
        ({
            let first = polled(url, reply, listed);
            let failure = poll_failure(url, reply, listed);
            &&& failure is None <==> accepted_body(url, reply) is Ok && listed is Ok
            &&& accepted_body(url, reply) matches Err(e) ==> failure == Some(e)
            &&& accepted_body(url, reply) is Ok && listed is Err ==> failure == Some(
                ErrorModel::Json(listed->Err_0),
            )
            &&& failure is Some ==> outcome(first, answers).len() == 0
            &&& failure is None ==> outcome(first, answers) == decrypted_messages(
                listed->Ok_0,
                answers,
            )
            &&& taken_in(first, answers).len() == 0
        }),
{
    if poll_failure(url, reply, listed) is None {
        let messages = listed->Ok_0;
        let entries = messages.map_values(|m: ServerPeerMessageModel| polled_entry(m));
        readings_read_every_body(entries, answers);
        free_entries_have_no_fees(entries, 0);
        assert forall|i: int| 0 <= i < messages.len() implies read_all(entries, answers)[i]
            == decrypted_messages(messages, answers)[i] by {
            wrappers_make_no_difference(messages[i].body, messages[i].sender);
        }
        assert(read_all(entries, answers) =~= decrypted_messages(messages, answers));
    }
}

} // verus!
