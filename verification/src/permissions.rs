//! Who may send to a message box, and at what fee: the requests to the server, and what is made of
//! its answers.

use crate::client::{
    accept_body, accepted_body, host_choice, HttpPost, HttpPostModel, HttpReply, MessageBoxClient,
};
use crate::collections::{lookup, named};
use crate::error::{ErrorModel, MessageBoxError};
use crate::json::ToJson;
use crate::sending::{MessageOrder, MessageOrderModel};
use crate::text::{
    decimal, decimal_text, duplicate_all, joined, opt_view, result_view, same_text, views,
};
use crate::types::{
    fee_status, status_of_fee, MessageBoxMultiQuote, MessageBoxMultiQuoteModel, MessageBoxQuote,
    MessageBoxQuoteModel, RecipientQuote, RecipientQuoteModel, SendListParams, SendListParamsModel,
    SendListTotals, SendListTotalsModel, SetPermissionParams, SetPermissionParamsModel,
};
use vstd::prelude::*;
use vstd::string::*;

verus! {

broadcast use vstd::string::group_string_axioms;

/// The message box of notifications.
pub const NOTIFICATIONS: &'static str = "notifications";

/// The header of an answer that tells who delivers.
pub const AGENT_KEY_HEADER: &'static str = "x-bsv-auth-identity-key";

/// What a host asks for a message to a recipient.
#[derive(Clone, Debug)]
pub struct HostQuote {
    /// The recipient.
    pub recipient: String,
    /// The host that was asked.
    pub host: String,
    /// Its answer.
    pub quote: MessageBoxQuote,
}

/// The contents of a `HostQuote`.
#[verifier::ext_equal]
pub struct HostQuoteModel {
    pub recipient: Seq<char>,
    pub host: Seq<char>,
    pub quote: MessageBoxQuoteModel,
}

impl View for HostQuote {
    type V = HostQuoteModel;

    open spec fn view(&self) -> HostQuoteModel {
        HostQuoteModel {
            recipient: self.recipient@,
            host: self.host@,
            quote: self.quote@,
        }
    }
}

/// The fees in the answer of a host.
#[derive(Clone, Debug)]
pub struct QuoteFees {
    /// What the recipient asks.
    pub recipient_fee: i64,
    /// What the host asks.
    pub delivery_fee: i64,
}

/// The contents of a `QuoteFees`.
#[verifier::ext_equal]
pub struct QuoteFeesModel {
    pub recipient_fee: i64,
    pub delivery_fee: i64,
}

impl View for QuoteFees {
    type V = QuoteFeesModel;

    open spec fn view(&self) -> QuoteFeesModel {
        QuoteFeesModel {
            recipient_fee: self.recipient_fee,
            delivery_fee: self.delivery_fee,
        }
    }
}

// ---------------------------------------------------------------------------------------------
// Addresses
// ---------------------------------------------------------------------------------------------

/// The request that sets a permission.
pub open spec fn set_permission_request(
    host: Seq<char>,
    params: SetPermissionParamsModel,
) -> HttpPostModel {
    HttpPostModel {
        url: host + "/permissions/set"@,
        body: <SetPermissionParams as ToJson>::text_of(params),
    }
}

/// The address that a permission is read from.
pub open spec fn permission_url(
    host: Seq<char>,
    recipient: Seq<char>,
    message_box: Seq<char>,
    sender: Option<Seq<char>>,
) -> Seq<char> {
    let base = host + "/permissions/get?recipient="@ + recipient + "&messageBox="@ + message_box;
    match sender {
        Some(s) => base + "&sender="@ + s,
        None => base,
    }
}

/// A list of parameters, joined by ampersands.
pub open spec fn query_text(params: Seq<Seq<char>>) -> Seq<char>
    decreases params.len(),
{
    if params.len() == 0 {
        Seq::empty()
    } else if params.len() == 1 {
        params[0]
    } else {
        query_text(params.drop_last()) + "&"@ + params.last()
    }
}

/// The parameters of a listing of permissions. The name of the message box goes by a key with an
/// underscore here, and nowhere else.
pub open spec fn list_params(message_box: Option<Seq<char>>, limit: Option<u32>, offset: Option<u32>) -> Seq<
    Seq<char>,
> {
    let a = match message_box {
        Some(mb) => seq!["message_box="@ + mb],
        None => Seq::empty(),
    };
    let b = match limit {
        Some(n) => seq!["limit="@ + decimal_text(n as nat)],
        None => Seq::empty(),
    };
    let c = match offset {
        Some(n) => seq!["offset="@ + decimal_text(n as nat)],
        None => Seq::empty(),
    };
    a + b + c
}

/// The address that permissions are listed from.
pub open spec fn permissions_url(
    host: Seq<char>,
    message_box: Option<Seq<char>>,
    limit: Option<u32>,
    offset: Option<u32>,
) -> Seq<char> {
    let params = list_params(message_box, limit, offset);
    let base = host + "/permissions/list"@;
    if params.len() == 0 {
        base
    } else {
        base + "?"@ + query_text(params)
    }
}

/// The address that a quote is read from.
pub open spec fn quote_url(host: Seq<char>, recipient: Seq<char>, message_box: Seq<char>) -> Seq<char> {
    host + "/permissions/quote?recipient="@ + recipient + "&messageBox="@ + message_box
}

fn add_param(params: &mut Vec<String>, key: &str, value: &str)
    ensures
        views(final(params)@) == views(old(params)@).push(key@ + value@),
{
    let ghost before = views(params@);
    let p = joined(key, value);
    params.push(p);
    assert(views(params@) =~= before.push(key@ + value@));
}

fn joined_params(params: &Vec<String>) -> (r: String)
    ensures
        r@ == query_text(views(params@)),
{
    let ghost all = views(params@);
    let mut r = String::new();
    let mut i: usize = 0;
    assert(r@ =~= query_text(all.take(0)));
    while i < params.len()
        invariant
            0 <= i <= params@.len(),
            all == views(params@),
            r@ == query_text(all.take(i as int)),
        decreases params@.len() - i,
    {
        assert(all.take(i + 1).drop_last() =~= all.take(i as int));
        assert(all.take(i + 1).last() == params@[i as int]@);
        if i > 0 {
            r.append("&");
        }
        r.append(params[i].as_str());
        assert(r@ =~= query_text(all.take(i + 1)));
        i = i + 1;
    }
    assert(all.take(all.len() as int) =~= all);
    r
}

impl MessageBoxClient {
    /// The request that sets a permission, at a host in place of the own.
    pub fn set_message_box_permission(
        &self,
        params: &SetPermissionParams,
        override_host: Option<&str>,
    ) -> (r: HttpPost)
        ensures
            r@ == set_permission_request(
                host_choice(opt_view(override_host), self@.host),
                params@,
            ),
    {
        let host = self.host_or_own(override_host);
        HttpPost { url: joined(host.as_str(), "/permissions/set"), body: params.to_json() }
    }

    /// The address that a permission is read from, at a host in place of the own.
    pub fn get_message_box_permission(
        &self,
        recipient: &str,
        message_box: &str,
        sender: Option<&str>,
        override_host: Option<&str>,
    ) -> (r: String)
        ensures
            r@ == permission_url(
                host_choice(opt_view(override_host), self@.host),
                recipient@,
                message_box@,
                opt_view(sender),
            ),
    {
        let mut url = self.host_or_own(override_host);
        url.append("/permissions/get?recipient=");
        url.append(recipient);
        url.append("&messageBox=");
        url.append(message_box);
        if let Some(s) = sender {
            url.append("&sender=");
            url.append(s);
        }
        url
    }

    /// The address that permissions are listed from, at a host in place of the own.
    pub fn list_message_box_permissions(
        &self,
        message_box: Option<&str>,
        limit: Option<u32>,
        offset: Option<u32>,
        override_host: Option<&str>,
    ) -> (r: String)
        ensures
            r@ == permissions_url(
                host_choice(opt_view(override_host), self@.host),
                opt_view(message_box),
                limit,
                offset,
            ),
    {
        let mut url = self.host_or_own(override_host);
        url.append("/permissions/list");
        let mut params: Vec<String> = Vec::new();
        assert(views(params@) =~= Seq::empty());
        if let Some(mb) = message_box {
            add_param(&mut params, "message_box=", mb);
        }
        if let Some(n) = limit {
            add_param(&mut params, "limit=", decimal(n as u64).as_str());
        }
        if let Some(n) = offset {
            add_param(&mut params, "offset=", decimal(n as u64).as_str());
        }
        assert(views(params@) =~= list_params(opt_view(message_box), limit, offset));
        assert(params@.len() == views(params@).len());
        if params.len() > 0 {
            url.append("?");
            url.append(joined_params(&params).as_str());
        }
        url
    }

    /// The address that a quote is read from, at a host in place of the own.
    pub fn get_message_box_quote(
        &self,
        recipient: &str,
        message_box: &str,
        override_host: Option<&str>,
    ) -> (r: String)
        ensures
            r@ == quote_url(
                host_choice(opt_view(override_host), self@.host),
                recipient@,
                message_box@,
            ),
    {
        let mut url = self.host_or_own(override_host);
        url.append("/permissions/quote?recipient=");
        url.append(recipient);
        url.append("&messageBox=");
        url.append(message_box);
        url
    }

    /// The address that tells whether a peer may notify.
    pub fn check_peer_notification_status(
        &self,
        identity_key: &str,
        peer: &str,
        override_host: Option<&str>,
    ) -> (r: String)
        ensures
            r@ == permission_url(
                host_choice(opt_view(override_host), self@.host),
                identity_key@,
                NOTIFICATIONS@,
                Some(peer@),
            ),
    {
        self.get_message_box_permission(identity_key, NOTIFICATIONS, Some(peer), override_host)
    }

    /// The address that lists who may notify.
    pub fn list_peer_notifications(&self, override_host: Option<&str>) -> (r: String)
        ensures
            r@ == permissions_url(
                host_choice(opt_view(override_host), self@.host),
                Some(NOTIFICATIONS@),
                None,
                None,
            ),
    {
        self.list_message_box_permissions(Some(NOTIFICATIONS), None, None, override_host)
    }
}

// ---------------------------------------------------------------------------------------------
// Answers
// ---------------------------------------------------------------------------------------------

/// The outcome of setting a permission.
pub fn permission_set(url: &str, reply: Result<HttpReply, String>) -> (r: Result<
    (),
    MessageBoxError,
>)
    ensures
        match accepted_body(url@, result_view(reply)) {
            Ok(_) => r is Ok,
            Err(e) => r is Err && r->Err_0@ == e,
        },
{
    match accept_body(url, reply) {
        Ok(_) => Ok(()),
        Err(e) => Err(e),
    }
}

/// A quote, given what is wrong with the answer, its headers, and how its body was read.
pub open spec fn quote_model(
    accepted: Result<(), ErrorModel>,
    agent_key: Option<Seq<char>>,
    fees: Result<QuoteFeesModel, Seq<char>>,
) -> Result<MessageBoxQuoteModel, ErrorModel> {
    match (accepted, agent_key, fees) {
        (Err(e), _, _) => Err(e),
        (Ok(_), None, _) => Err(ErrorModel::MissingHeader(AGENT_KEY_HEADER@)),
        (Ok(_), Some(_), Err(e)) => Err(ErrorModel::Json(e)),
        (Ok(_), Some(key), Ok(f)) => Ok(
            MessageBoxQuoteModel {
                delivery_fee: f.delivery_fee,
                recipient_fee: f.recipient_fee,
                delivery_agent_identity_key: key,
            },
        ),
    }
}

/// The quote in the answer of a host. The fees come from its body, the key of who delivers from a
/// header.
pub fn message_box_quote(
    accepted: Result<(), MessageBoxError>,
    headers: &Vec<(String, String)>,
    fees: Result<QuoteFees, String>,
) -> (r: Result<MessageBoxQuote, MessageBoxError>)
    ensures
        result_view(r) == quote_model(
            result_view(accepted),
            named(views(headers@), AGENT_KEY_HEADER@),
            result_view(fees),
        ),
{
    if let Err(e) = accepted {
        return Err(e);
    }
    match lookup(headers, AGENT_KEY_HEADER) {
        None => Err(MessageBoxError::MissingHeader(AGENT_KEY_HEADER.to_owned())),
        Some(delivery_agent_identity_key) => match fees {
            Err(e) => Err(MessageBoxError::Json(e)),
            Ok(f) => Ok(
                MessageBoxQuote {
                    delivery_fee: f.delivery_fee,
                    recipient_fee: f.recipient_fee,
                    delivery_agent_identity_key,
                },
            ),
        },
    }
}

// ---------------------------------------------------------------------------------------------
// Quotes for several recipients
// ---------------------------------------------------------------------------------------------

/// The quote of one recipient.
pub open spec fn recipient_quote(q: HostQuoteModel, message_box: Seq<char>) -> RecipientQuoteModel {
    RecipientQuoteModel {
        recipient: q.recipient,
        message_box,
        delivery_fee: q.quote.delivery_fee,
        recipient_fee: q.quote.recipient_fee,
        status: fee_status(q.quote.recipient_fee as int),
    }
}

/// Whether a recipient blocks the sender.
pub open spec fn blocks(q: HostQuoteModel) -> bool {
    q.quote.recipient_fee < 0
}

/// The recipients that block the sender, in order.
pub open spec fn blocked_of(qs: Seq<HostQuoteModel>) -> Seq<Seq<char>>
    decreases qs.len(),
{
    if qs.len() == 0 {
        Seq::empty()
    } else if blocks(qs.last()) {
        blocked_of(qs.drop_last()).push(qs.last().recipient)
    } else {
        blocked_of(qs.drop_last())
    }
}

/// What the hosts ask together for the recipients that do not block the sender.
pub open spec fn delivery_total(qs: Seq<HostQuoteModel>) -> int
    decreases qs.len(),
{
    if qs.len() == 0 {
        0
    } else if blocks(qs.last()) {
        delivery_total(qs.drop_last())
    } else {
        delivery_total(qs.drop_last()) + qs.last().quote.delivery_fee
    }
}

/// What the recipients that do not block the sender ask together.
pub open spec fn recipient_total(qs: Seq<HostQuoteModel>) -> int
    decreases qs.len(),
{
    if qs.len() == 0 {
        0
    } else if blocks(qs.last()) {
        recipient_total(qs.drop_last())
    } else {
        recipient_total(qs.drop_last()) + qs.last().quote.recipient_fee
    }
}

/// Whether a sum is an amount that can be told.
pub open spec fn is_amount(n: int) -> bool {
    i64::MIN <= n <= i64::MAX
}

/// The totals: none, when one of them is no amount that can be told.
pub open spec fn totals_of(qs: Seq<HostQuoteModel>) -> Option<SendListTotalsModel> {
    let d = delivery_total(qs);
    let r = recipient_total(qs);
    if is_amount(d) && is_amount(r) && is_amount(d + r) {
        Some(
            SendListTotalsModel {
                delivery_fees: d as i64,
                recipient_fees: r as i64,
                total_for_payable_recipients: (d + r) as i64,
            },
        )
    } else {
        None
    }
}

/// Names with a text put under one of them.
pub open spec fn put(pairs: Seq<(Seq<char>, Seq<char>)>, name: Seq<char>, text: Seq<char>) -> Seq<
    (Seq<char>, Seq<char>),
>
    decreases pairs.len(),
{
    if pairs.len() == 0 {
        seq![(name, text)]
    } else if pairs[0].0 == name {
        pairs.update(0, (name, text))
    } else {
        seq![pairs[0]] + put(pairs.subrange(1, pairs.len() as int), name, text)
    }
}

/// The key of who delivers at each host.
pub open spec fn agents_of(qs: Seq<HostQuoteModel>) -> Seq<(Seq<char>, Seq<char>)>
    decreases qs.len(),
{
    if qs.len() == 0 {
        Seq::empty()
    } else {
        put(
            agents_of(qs.drop_last()),
            qs.last().host,
            qs.last().quote.delivery_agent_identity_key,
        )
    }
}

/// The quotes of several recipients together.
pub open spec fn multi_quote(
    qs: Seq<HostQuoteModel>,
    message_box: Seq<char>,
) -> MessageBoxMultiQuoteModel {
    MessageBoxMultiQuoteModel {
        quotes_by_recipient: qs.map_values(|q: HostQuoteModel| recipient_quote(q, message_box)),
        totals: totals_of(qs),
        blocked_recipients: blocked_of(qs),
        delivery_agent_identity_key_by_host: agents_of(qs),
    }
}

proof fn put_at(
    pairs: Seq<(Seq<char>, Seq<char>)>,
    name: Seq<char>,
    text: Seq<char>,
    i: int,
)
    requires
        0 <= i <= pairs.len(),
        forall|k: int| 0 <= k < i ==> (#[trigger] pairs[k]).0 != name,
        i < pairs.len() ==> pairs[i].0 == name,
    ensures
        put(pairs, name, text) == (if i < pairs.len() {
            pairs.update(i, (name, text))
        } else {
            pairs.push((name, text))
        }),
    decreases pairs.len(),
{
    if pairs.len() == 0 {
        assert(put(pairs, name, text) =~= pairs.push((name, text)));
    } else if i > 0 {
        let rest = pairs.subrange(1, pairs.len() as int);
        assert(pairs[0].0 != name);
        assert forall|k: int| 0 <= k < i - 1 implies (#[trigger] rest[k]).0 != name by {
            assert(rest[k] == pairs[k + 1]);
        }
        put_at(rest, name, text, i - 1);
        if i < pairs.len() {
            assert(put(pairs, name, text) =~= pairs.update(i, (name, text)));
        } else {
            assert(put(pairs, name, text) =~= pairs.push((name, text)));
        }
    }
}

fn put_text(pairs: &mut Vec<(String, String)>, name: String, text: String)
    ensures
        views(final(pairs)@) == put(views(old(pairs)@), name@, text@),
{
    let ghost all = views(pairs@);
    let mut i: usize = 0;
    while i < pairs.len() && !same_text(pairs[i].0.as_str(), name.as_str())
        invariant
            0 <= i <= pairs@.len(),
            all == views(pairs@),
            forall|k: int| 0 <= k < i ==> (#[trigger] all[k]).0 != name@,
        decreases pairs@.len() - i,
    {
        assert(all[i as int] == pairs@[i as int]@);
        i = i + 1;
    }
    let ghost entry = (name@, text@);
    proof {
        if i < all.len() {
            assert(all[i as int] == pairs@[i as int]@);
        }
        put_at(all, name@, text@, i as int);
    }
    if i < pairs.len() {
        pairs.set(i, (name, text));
        assert(views(pairs@) =~= all.update(i as int, entry));
    } else {
        pairs.push((name, text));
        assert(views(pairs@) =~= all.push(entry));
    }
}

fn total_of(qs: &Vec<HostQuote>) -> (r: (i128, i128))
    ensures
        r.0 == delivery_total(views(qs@)),
        r.1 == recipient_total(views(qs@)),
{
    let ghost all = views(qs@);
    let mut d: i128 = 0;
    let mut f: i128 = 0;
    let mut i: usize = 0;
    while i < qs.len()
        invariant
            0 <= i <= qs@.len(),
            all == views(qs@),
            d == delivery_total(all.take(i as int)),
            f == recipient_total(all.take(i as int)),
            -(i * 0x8000_0000_0000_0000) <= d <= i * 0x8000_0000_0000_0000,
            -(i * 0x8000_0000_0000_0000) <= f <= i * 0x8000_0000_0000_0000,
        decreases qs@.len() - i,
    {
        assert(all.take(i + 1).drop_last() =~= all.take(i as int));
        assert(all.take(i + 1).last() == qs@[i as int]@);
        if qs[i].quote.recipient_fee >= 0 {
            d = d + qs[i].quote.delivery_fee as i128;
            f = f + qs[i].quote.recipient_fee as i128;
        }
        i = i + 1;
    }
    assert(all.take(all.len() as int) =~= all);
    (d, f)
}

fn totals(qs: &Vec<HostQuote>) -> (r: Option<SendListTotals>)
    ensures
        opt_view(r) == totals_of(views(qs@)),
{
    let (d, f): (i128, i128) = total_of(qs);
    let least: i128 = i64::MIN as i128;
    let most: i128 = i64::MAX as i128;
    if d < least || d > most || f < least || f > most {
        return None;
    }
    if d + f < least || d + f > most {
        return None;
    }
    Some(
        SendListTotals {
            delivery_fees: d as i64,
            recipient_fees: f as i64,
            total_for_payable_recipients: (d + f) as i64,
        },
    )
}

/// The quotes of several recipients together, from what the host of each asks.
pub fn get_message_box_quote_multi(quotes: Vec<HostQuote>, message_box: &str) -> (r:
    MessageBoxMultiQuote)
    ensures
        r@ == multi_quote(views(quotes@), message_box@),
{
    let ghost all = views(quotes@);
    let ghost told = multi_quote(all, message_box@).quotes_by_recipient;
    let totals = totals(&quotes);
    let mut quotes_by_recipient: Vec<RecipientQuote> = Vec::new();
    let mut blocked_recipients: Vec<String> = Vec::new();
    let mut agents: Vec<(String, String)> = Vec::new();
    assert(views(quotes_by_recipient@) =~= told.take(0));
    assert(views(blocked_recipients@) =~= blocked_of(all.take(0)));
    assert(views(agents@) =~= agents_of(all.take(0)));
    for q in it: quotes
        invariant
            it.seq() == quotes@,
            all == views(quotes@),
            told == multi_quote(all, message_box@).quotes_by_recipient,
            views(quotes_by_recipient@) == told.take(it.index() as int),
            views(blocked_recipients@) == blocked_of(all.take(it.index() as int)),
            views(agents@) == agents_of(all.take(it.index() as int)),
    {
        let ghost n = it.index() as int;
        let ghost before = views(quotes_by_recipient@);
        let ghost blocked_before = views(blocked_recipients@);
        assert(all.take(n + 1).drop_last() =~= all.take(n));
        assert(all.take(n + 1).last() == q@);
        if q.quote.recipient_fee < 0 {
            blocked_recipients.push(q.recipient.clone());
            assert(views(blocked_recipients@) =~= blocked_before.push(q@.recipient));
        }
        put_text(&mut agents, q.host, q.quote.delivery_agent_identity_key);
        let told_quote = RecipientQuote {
            recipient: q.recipient,
            message_box: message_box.to_owned(),
            delivery_fee: q.quote.delivery_fee,
            recipient_fee: q.quote.recipient_fee,
            status: status_of_fee(q.quote.recipient_fee).to_owned(),
        };
        assert(told_quote@ == recipient_quote(q@, message_box@));
        quotes_by_recipient.push(told_quote);
        assert(views(quotes_by_recipient@) =~= before.push(told_quote@));
        assert(told[n] == told_quote@);
        assert(told.take(n + 1) =~= before.push(told_quote@));
    }
    assert(all.take(all.len() as int) =~= all);
    assert(told.take(all.len() as int) =~= told);
    MessageBoxMultiQuote {
        quotes_by_recipient,
        totals,
        blocked_recipients,
        delivery_agent_identity_key_by_host: agents,
    }
}

// ---------------------------------------------------------------------------------------------
// Notifications
// ---------------------------------------------------------------------------------------------

/// The permission of a peer to notify.
pub open spec fn notification_permission(sender: Seq<char>, fee: i64) -> SetPermissionParamsModel {
    SetPermissionParamsModel {
        message_box: NOTIFICATIONS@,
        sender: Some(sender),
        recipient_fee: fee,
    }
}

impl MessageBoxClient {
    /// Lets a peer notify, at a fee.
    pub fn allow_notifications_from_peer(&self, sender: &str, recipient_fee: i64) -> (r:
        SetPermissionParams)
        ensures
            r@ == notification_permission(sender@, recipient_fee),
    {
        SetPermissionParams {
            message_box: NOTIFICATIONS.to_owned(),
            sender: Some(sender.to_owned()),
            recipient_fee,
        }
    }

    /// Keeps a peer from notifying.
    pub fn deny_notifications_from_peer(&self, sender: &str) -> (r: SetPermissionParams)
        ensures
            r@ == notification_permission(sender@, (-1) as i64),
    {
        SetPermissionParams {
            message_box: NOTIFICATIONS.to_owned(),
            sender: Some(sender.to_owned()),
            recipient_fee: -1,
        }
    }

    /// The message that notifies a recipient. The fees are asked for and paid.
    pub fn send_notification(&self, recipient: &str, body: &str, override_host: Option<&str>) -> (r:
        MessageOrder)
        ensures
            r@ == (MessageOrderModel {
                recipient: recipient@,
                message_box: NOTIFICATIONS@,
                body: body@,
                host: opt_view(override_host),
                skip_encryption: false,
                check_permissions: true,
                message_id: None,
            }),
    {
        MessageOrder {
            recipient: recipient.to_owned(),
            message_box: NOTIFICATIONS.to_owned(),
            body: body.to_owned(),
            host: match override_host {
                Some(h) => Some(h.to_owned()),
                None => None,
            },
            skip_encryption: false,
            check_permissions: true,
            message_id: None,
        }
    }

    /// The message that notifies several recipients.
    pub fn send_notification_to_recipients(&self, recipients: &Vec<String>, body: &str) -> (r:
        SendListParams)
        ensures
            r@ == (SendListParamsModel {
                recipients: views(recipients@),
                message_box: NOTIFICATIONS@,
                body: body@,
                skip_encryption: None,
            }),
    {
        SendListParams {
            recipients: duplicate_all(recipients),
            message_box: NOTIFICATIONS.to_owned(),
            body: body.to_owned(),
            skip_encryption: None,
        }
    }
}

// ---------------------------------------------------------------------------------------------
// Laws
// ---------------------------------------------------------------------------------------------

/// A recipient is set aside exactly when its own status says that it is blocked.
pub proof fn blocked_recipients_have_that_status(qs: Seq<HostQuoteModel>, message_box: Seq<char>)
    ensures
        blocked_of(qs).len() <= qs.len(),
        forall|i: int|
            0 <= i < qs.len() ==> (blocks(#[trigger] qs[i]) <==> multi_quote(
                qs,
                message_box,
            ).quotes_by_recipient[i].status == "blocked"@),
        forall|r: Seq<char>| #[trigger]
            blocked_of(qs).contains(r) <==> exists|i: int|
                0 <= i < qs.len() && blocks(#[trigger] qs[i]) && qs[i].recipient == r,
    decreases qs.len(),
{
    reveal_strlit("blocked");
    reveal_strlit("always_allow");
    reveal_strlit("payment_required");
    assert("blocked"@.len() == 7);
    assert("always_allow"@.len() == 12);
    assert("payment_required"@.len() == 16);
    if qs.len() > 0 {
        let rest = qs.drop_last();
        blocked_recipients_have_that_status(rest, message_box);
        let before = blocked_of(rest);
        let now = blocked_of(qs);
        assert forall|r: Seq<char>| #[trigger] now.contains(r) <==> exists|i: int|
            0 <= i < qs.len() && blocks(#[trigger] qs[i]) && qs[i].recipient == r by {
            if now.contains(r) {
                let j = choose|j: int| 0 <= j < now.len() && now[j] == r;
                if j < before.len() {
                    assert(before[j] == r);
                    assert(before.contains(r));
                    let i = choose|i: int|
                        0 <= i < rest.len() && blocks(#[trigger] rest[i]) && rest[i].recipient == r;
                    assert(qs[i] == rest[i]);
                } else {
                    assert(blocks(qs[qs.len() - 1]));
                }
            }
            if exists|i: int|
                0 <= i < qs.len() && blocks(#[trigger] qs[i]) && qs[i].recipient == r {
                let i = choose|i: int|
                    0 <= i < qs.len() && blocks(#[trigger] qs[i]) && qs[i].recipient == r;
                if i < rest.len() {
                    assert(rest[i] == qs[i]);
                    assert(before.contains(r));
                    let j = choose|j: int| 0 <= j < before.len() && before[j] == r;
                    assert(now[j] == r);
                } else {
                    assert(now[now.len() - 1] == r);
                }
            }
        }
    }
}

proof fn put_then_named(
    pairs: Seq<(Seq<char>, Seq<char>)>,
    name: Seq<char>,
    text: Seq<char>,
    other: Seq<char>,
)
    ensures
        named(put(pairs, name, text), other) == (if other == name {
            Some(text)
        } else {
            named(pairs, other)
        }),
    decreases pairs.len(),
{
    let now = put(pairs, name, text);
    reveal_with_fuel(named, 2);
    if pairs.len() == 0 {
        assert(now.subrange(1, 1) =~= Seq::empty());
    } else if pairs[0].0 == name {
        assert(now.subrange(1, now.len() as int) =~= pairs.subrange(1, pairs.len() as int));
    } else {
        let rest = pairs.subrange(1, pairs.len() as int);
        put_then_named(rest, name, text, other);
        assert(now.subrange(1, now.len() as int) =~= put(rest, name, text));
    }
}

/// Whoever delivers at a host is known by that host exactly when the host gave a quote, and then by
/// the key of its last quote.
pub proof fn agents_are_known_by_their_hosts(qs: Seq<HostQuoteModel>, host: Seq<char>)
    ensures
        match named(agents_of(qs), host) {
            Some(key) => exists|i: int|
                0 <= i < qs.len() && (#[trigger] qs[i]).host == host
                    && qs[i].quote.delivery_agent_identity_key == key && (forall|k: int|
                    i < k < qs.len() ==> (#[trigger] qs[k]).host != host),
            None => forall|i: int| 0 <= i < qs.len() ==> (#[trigger] qs[i]).host != host,
        },
    decreases qs.len(),
{
    if qs.len() > 0 {
        let rest = qs.drop_last();
        let last = qs.last();
        agents_are_known_by_their_hosts(rest, host);
        put_then_named(
            agents_of(rest),
            last.host,
            last.quote.delivery_agent_identity_key,
            host,
        );
        if last.host == host {
            assert(qs[qs.len() - 1].host == host);
        } else if named(agents_of(rest), host) is Some {
            let key = named(agents_of(rest), host)->0;
            let i = choose|i: int|
                0 <= i < rest.len() && (#[trigger] rest[i]).host == host
                    && rest[i].quote.delivery_agent_identity_key == key && (forall|k: int|
                    i < k < rest.len() ==> (#[trigger] rest[k]).host != host);
            assert(qs[i] == rest[i]);
            assert forall|k: int| i < k < qs.len() implies (#[trigger] qs[k]).host != host by {
                if k < rest.len() {
                    assert(rest[k] == qs[k]);
                }
            }
        } else {
            assert forall|i: int| 0 <= i < qs.len() implies (#[trigger] qs[i]).host != host by {
                if i < rest.len() {
                    assert(rest[i] == qs[i]);
                }
            }
        }
    }
}

/// Every address names its host, its path and, under its own key, each thing that is asked about.
pub proof fn addresses_tell_what_is_asked(
    host: Seq<char>,
    recipient: Seq<char>,
    message_box: Seq<char>,
    sender: Seq<char>,
    limit: u32,
    offset: u32,
)
    ensures
        quote_url(host, recipient, message_box) == host + "/permissions/quote?"@ + query_text(
            seq!["recipient="@ + recipient, "messageBox="@ + message_box],
        ),
        permission_url(host, recipient, message_box, None) == host + "/permissions/get?"@
            + query_text(seq!["recipient="@ + recipient, "messageBox="@ + message_box]),
        permission_url(host, recipient, message_box, Some(sender)) == host + "/permissions/get?"@
            + query_text(
            seq![
                "recipient="@ + recipient,
                "messageBox="@ + message_box,
                "sender="@ + sender,
            ],
        ),
        permissions_url(host, None, None, None) == host + "/permissions/list"@,
        permissions_url(host, Some(message_box), None, None) == host + "/permissions/list?"@
            + query_text(seq!["message_box="@ + message_box]),
        permissions_url(host, None, Some(limit), None) == host + "/permissions/list?"@ + query_text(
            seq!["limit="@ + decimal_text(limit as nat)],
        ),
        permissions_url(host, None, None, Some(offset)) == host + "/permissions/list?"@ + query_text(
            seq!["offset="@ + decimal_text(offset as nat)],
        ),
        permissions_url(host, Some(message_box), Some(limit), Some(offset)) == host
            + "/permissions/list?"@ + query_text(
            seq![
                "message_box="@ + message_box,
                "limit="@ + decimal_text(limit as nat),
                "offset="@ + decimal_text(offset as nat),
            ],
        ),
{
    reveal_strlit("/permissions/quote?");
    reveal_strlit("/permissions/quote?recipient=");
    reveal_strlit("/permissions/get?");
    reveal_strlit("/permissions/get?recipient=");
    reveal_strlit("recipient=");
    reveal_strlit("&messageBox=");
    reveal_strlit("messageBox=");
    reveal_strlit("&sender=");
    reveal_strlit("sender=");
    reveal_strlit("/permissions/list");
    reveal_strlit("/permissions/list?");
    reveal_strlit("?");
    reveal_strlit("&");
    let a = "recipient="@ + recipient;
    let b = "messageBox="@ + message_box;
    let c = "sender="@ + sender;
    query_of_two(a, b);
    query_of_three(a, b, c);
    assert(quote_url(host, recipient, message_box) =~= host + "/permissions/quote?"@ + (a + "&"@
        + b));
    assert(permission_url(host, recipient, message_box, None) =~= host + "/permissions/get?"@ + (a
        + "&"@ + b));
    assert(permission_url(host, recipient, message_box, Some(sender)) =~= host
        + "/permissions/get?"@ + (a + "&"@ + b + "&"@ + c));
    let mb = "message_box="@ + message_box;
    let l = "limit="@ + decimal_text(limit as nat);
    let o = "offset="@ + decimal_text(offset as nat);
    assert(list_params(Some(message_box), None, None) =~= seq![mb]);
    assert(list_params(None, Some(limit), None) =~= seq![l]);
    assert(list_params(None, None, Some(offset)) =~= seq![o]);
    assert(list_params(Some(message_box), Some(limit), Some(offset)) =~= seq![mb, l, o]);
    assert("/permissions/list?"@ =~= "/permissions/list"@ + "?"@);
    assert forall|q: Seq<char>| #[trigger] (host + "/permissions/list?"@ + q) == host
        + "/permissions/list"@ + "?"@ + q by {
        assert(host + "/permissions/list?"@ + q =~= host + "/permissions/list"@ + "?"@ + q);
    }
}

proof fn query_of_two(a: Seq<char>, b: Seq<char>)
    ensures
        query_text(seq![a, b]) == a + "&"@ + b,
{
    reveal_with_fuel(query_text, 2);
    assert(seq![a, b].drop_last() =~= seq![a]);
}

proof fn query_of_three(a: Seq<char>, b: Seq<char>, c: Seq<char>)
    ensures
        query_text(seq![a, b, c]) == a + "&"@ + b + "&"@ + c,
{
    assert(seq![a, b, c].drop_last() =~= seq![a, b]);
    query_of_two(a, b);
}

/// A permission is set by a post that tells the message box, the fee and the peer that it is for.
pub proof fn permissions_are_set_as_given(host: Seq<char>, params: SetPermissionParamsModel)
    ensures
        set_permission_request(host, params).url == host + "/permissions/set"@,
        set_permission_request(host, params).body == params.json_text(),
{
}

/// An answer gives a quote exactly when it was accepted, tells who delivers and tells the fees; it
/// then has each fee in its own place. Otherwise the first thing that is wrong is the failure.
pub proof fn quotes_tell_the_fees_of_the_answer(
    accepted: Result<(), ErrorModel>,
    agent_key: Option<Seq<char>>,
    fees: Result<QuoteFeesModel, Seq<char>>,
)
    ensures
        quote_model(accepted, agent_key, fees) is Ok <==> accepted is Ok && agent_key is Some
            && fees is Ok,
        quote_model(accepted, agent_key, fees) matches Ok(q) ==> {
            &&& q.delivery_fee == fees->Ok_0.delivery_fee
            &&& q.recipient_fee == fees->Ok_0.recipient_fee
            &&& Some(q.delivery_agent_identity_key) == agent_key
        },
        accepted matches Err(e) ==> quote_model(accepted, agent_key, fees)->Err_0 == e,
        accepted is Ok && agent_key is None ==> quote_model(accepted, agent_key, fees)->Err_0
            == ErrorModel::MissingHeader("x-bsv-auth-identity-key"@),
        accepted is Ok && agent_key is Some && fees is Err ==> quote_model(
            accepted,
            agent_key,
            fees,
        )->Err_0 == ErrorModel::Json(fees->Err_0),
{
}

/// The sum of some numbers.
pub open spec fn sum_of(ns: Seq<int>) -> int {
    ns.fold_left(0int, |a: int, b: int| a + b)
}

proof fn totals_are_sums(qs: Seq<HostQuoteModel>)
    ensures
        ({
            let open = qs.filter(|q: HostQuoteModel| q.quote.recipient_fee >= 0);
            &&& delivery_total(qs) == sum_of(
                open.map_values(|q: HostQuoteModel| q.quote.delivery_fee as int),
            )
            &&& recipient_total(qs) == sum_of(
                open.map_values(|q: HostQuoteModel| q.quote.recipient_fee as int),
            )
        }),
    decreases qs.len(),
{
    reveal(Seq::filter);
    let is_open = |q: HostQuoteModel| q.quote.recipient_fee >= 0;
    let delivery = |q: HostQuoteModel| q.quote.delivery_fee as int;
    let asked = |q: HostQuoteModel| q.quote.recipient_fee as int;
    if qs.len() > 0 {
        totals_are_sums(qs.drop_last());
        let before = qs.drop_last().filter(is_open);
        let last = qs.last();
        if is_open(last) {
            let now = before.push(last);
            assert(now.map_values(delivery).drop_last() =~= before.map_values(delivery));
            assert(now.map_values(asked).drop_last() =~= before.map_values(asked));
        }
    }
}

/// The quotes of several recipients: one for each in order, with its own fees; the recipients that
/// block, in order; and the totals over those that do not block, in their places, wherever they can
/// be told.
pub proof fn quotes_are_added_up(qs: Seq<HostQuoteModel>, message_box: Seq<char>)
    ensures
        ({
            let m = multi_quote(qs, message_box);
            let open = qs.filter(|q: HostQuoteModel| q.quote.recipient_fee >= 0);
            let delivery = sum_of(
                open.map_values(|q: HostQuoteModel| q.quote.delivery_fee as int),
            );
            let asked = sum_of(
                open.map_values(|q: HostQuoteModel| q.quote.recipient_fee as int),
            );
            &&& m.quotes_by_recipient.len() == qs.len()
            &&& forall|i: int|
                0 <= i < qs.len() ==> {
                    let q = #[trigger] m.quotes_by_recipient[i];
                    &&& q.recipient == qs[i].recipient
                    &&& q.message_box == message_box
                    &&& q.delivery_fee == qs[i].quote.delivery_fee
                    &&& q.recipient_fee == qs[i].quote.recipient_fee
                    &&& q.recipient_fee < 0 ==> q.status == "blocked"@
                    &&& q.recipient_fee == 0 ==> q.status == "always_allow"@
                    &&& q.recipient_fee > 0 ==> q.status == "payment_required"@
                }
            &&& m.blocked_recipients == qs.filter(
                |q: HostQuoteModel| q.quote.recipient_fee < 0,
            ).map_values(|q: HostQuoteModel| q.recipient)
            &&& m.totals is Some <==> i64::MIN <= delivery <= i64::MAX && i64::MIN <= asked
                <= i64::MAX && i64::MIN <= delivery + asked <= i64::MAX
            &&& m.totals matches Some(t) ==> {
                &&& t.delivery_fees == delivery
                &&& t.recipient_fees == asked
                &&& t.total_for_payable_recipients == delivery + asked
            }
        }),
{
    totals_are_sums(qs);
    blocked_are_in_order(qs);
}

proof fn blocked_are_in_order(qs: Seq<HostQuoteModel>)
    ensures
        blocked_of(qs) == qs.filter(
            |q: HostQuoteModel| q.quote.recipient_fee < 0,
        ).map_values(|q: HostQuoteModel| q.recipient),
    decreases qs.len(),
{
    reveal(Seq::filter);
    let is_blocked = |q: HostQuoteModel| q.quote.recipient_fee < 0;
    let name = |q: HostQuoteModel| q.recipient;
    if qs.len() > 0 {
        blocked_are_in_order(qs.drop_last());
        let before = qs.drop_last().filter(is_blocked);
        assert(before.push(qs.last()).map_values(name) =~= before.map_values(name).push(
            qs.last().recipient,
        ));
    } else {
        assert(qs.filter(is_blocked).map_values(name) =~= Seq::empty());
    }
}

/// A permission to notify is one for the box of notifications and the one peer, at the fee given.
pub proof fn permissions_to_notify_are_for_one_peer(sender: Seq<char>, fee: i64)
    ensures
        notification_permission(sender, fee).message_box == "notifications"@,
        notification_permission(sender, fee).sender == Some(sender),
        notification_permission(sender, fee).recipient_fee == fee,
{
}

} // verus!
