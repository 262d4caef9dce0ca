//! Listing and acknowledging messages over several hosts.

use crate::client::{
    accept_body, accepted_body, HttpPost, HttpPostModel, HttpReply, MessageBoxClient,
};
use crate::collections::TextSet;
use crate::error::{ErrorModel, MessageBoxError};
use crate::json::ToJson;
use crate::text::{decimal, decimal_text, joined, result_view, views};
use crate::types::{
    AcknowledgeMessageParams, AcknowledgeMessageParamsModel, AdvertisementToken,
    AdvertisementTokenModel, ListMessagesParams, ListMessagesParamsModel, PeerMessage,
    PeerMessageModel,
};
use vstd::prelude::*;
use vstd::string::*;

verus! {

broadcast use vstd::string::group_string_axioms;

// ---------------------------------------------------------------------------------------------
// Deduplication
// ---------------------------------------------------------------------------------------------

/// Whether one of the messages has an identifier.
pub open spec fn has_id(ms: Seq<PeerMessageModel>, id: Seq<char>) -> bool {
    exists|i: int| 0 <= i < ms.len() && (#[trigger] ms[i]).message_id == id
}

/// The messages without those whose identifier came before.
pub open spec fn first_of_each(ms: Seq<PeerMessageModel>) -> Seq<PeerMessageModel>
    decreases ms.len(),
{
    if ms.len() == 0 {
        ms
    } else {
        let kept = first_of_each(ms.drop_last());
        if has_id(kept, ms.last().message_id) {
            kept
        } else {
            kept.push(ms.last())
        }
    }
}

/// The identifiers of some messages.
pub open spec fn ids_of(ms: Seq<PeerMessageModel>) -> Set<Seq<char>> {
    Set::new(|id: Seq<char>| has_id(ms, id))
}

/// The lists one behind the other.
pub open spec fn chained(lists: Seq<Seq<PeerMessageModel>>) -> Seq<PeerMessageModel>
    decreases lists.len(),
{
    if lists.len() == 0 {
        Seq::empty()
    } else {
        chained(lists.drop_last()) + lists.last()
    }
}

/// The view of a list of lists of messages.
pub open spec fn list_views(lists: Seq<Vec<PeerMessage>>) -> Seq<Seq<PeerMessageModel>> {
    Seq::new(lists.len(), |i: int| views(lists[i]@))
}

/// The messages of several hosts in one list: in order, and of those with one identifier the
/// first.
pub fn dedup_messages(results: Vec<Vec<PeerMessage>>) -> (r: Vec<PeerMessage>)
    ensures
        views(r@) == first_of_each(chained(list_views(results@))),
{
    let ghost lists = list_views(results@);
    let mut seen = TextSet::new();
    let mut out: Vec<PeerMessage> = Vec::new();
    let ghost mut done: Seq<PeerMessageModel> = Seq::empty();
    assert(seen@ =~= ids_of(views(out@)));
    assert(chained(lists.take(0)) =~= Seq::empty());
    assert(views(out@) =~= first_of_each(done));
    for host_messages in it: results
        invariant
            lists == list_views(results@),
            it.seq() == results@,
            seen.wf(),
            seen@ == ids_of(views(out@)),
            done == chained(lists.take(it.index() as int)),
            views(out@) == first_of_each(done),
    {
        let ghost n = it.index() as int;
        let ghost before = done;
        let ghost here = views(host_messages@);
        assert(lists.take(n + 1).drop_last() =~= lists.take(n));
        assert(lists.take(n + 1).last() == here);
        assert(done =~= before + here.take(0));
        for msg in jt: host_messages
            invariant
                jt.seq() == host_messages@,
                here == views(host_messages@),
                seen.wf(),
                seen@ == ids_of(views(out@)),
                done == before + here.take(jt.index() as int),
                views(out@) == first_of_each(done),
        {
            let ghost k = jt.index() as int;
            let ghost old_out = views(out@);
            let ghost m = msg@;
            proof {
                assert(here.take(k + 1) =~= here.take(k).push(m));
                assert((done + seq![m]).drop_last() =~= done);
                assert(before + here.take(k + 1) =~= done.push(m));
                assert(done.push(m).drop_last() =~= done);
            }
            let fresh = seen.insert(msg.message_id.as_str());
            if fresh {
                out.push(msg);
                proof {
                    assert(views(out@) =~= old_out.push(m));
                    assert(seen@ == ids_of(old_out).insert(m.message_id));
                    assert forall|id: Seq<char>| #[trigger] seen@.contains(id) <==> ids_of(
                        views(out@),
                    ).contains(id) by {
                        if has_id(old_out, id) {
                            let i = choose|i: int|
                                0 <= i < old_out.len() && (#[trigger] old_out[i]).message_id == id;
                            assert(views(out@)[i].message_id == id);
                        }
                        if id == m.message_id {
                            assert(views(out@)[old_out.len() as int].message_id == id);
                        }
                        if has_id(views(out@), id) && id != m.message_id {
                            let i = choose|i: int|
                                0 <= i < views(out@).len() && (#[trigger] views(
                                    out@,
                                )[i]).message_id == id;
                            assert(old_out[i].message_id == id);
                        }
                    }
                    assert(seen@ =~= ids_of(views(out@)));
                }
            } else {
                assert(seen@ =~= ids_of(views(out@)));
            }
            proof {
                done = done.push(m);
            }
        }
        assert(here.take(here.len() as int) =~= here);
    }
    assert(lists.take(results@.len() as int) =~= lists);
    out
}

proof fn lemma_first_of_each(ms: Seq<PeerMessageModel>)
    ensures
        forall|i: int, j: int|
            0 <= i < j < first_of_each(ms).len() ==> first_of_each(ms)[i].message_id
                != first_of_each(ms)[j].message_id,
        forall|id: Seq<char>| has_id(ms, id) <==> has_id(first_of_each(ms), id),
        forall|k: int|
            0 <= k < first_of_each(ms).len() ==> is_first(ms, #[trigger] first_of_each(ms)[k]),
    decreases ms.len(),
{
    if ms.len() > 0 {
        let rest = ms.drop_last();
        let kept = first_of_each(rest);
        let out = first_of_each(ms);
        lemma_first_of_each(rest);
        assert forall|id: Seq<char>| has_id(ms, id) <==> has_id(out, id) by {
            if has_id(ms, id) {
                let i = choose|i: int| 0 <= i < ms.len() && (#[trigger] ms[i]).message_id == id;
                if i < rest.len() {
                    assert(rest[i].message_id == id);
                    assert(has_id(rest, id));
                    let k = choose|k: int|
                        0 <= k < kept.len() && (#[trigger] kept[k]).message_id == id;
                    assert(out[k].message_id == id);
                } else if !has_id(kept, id) {
                    assert(out[kept.len() as int].message_id == id);
                }
            }
            if has_id(out, id) {
                let k = choose|k: int| 0 <= k < out.len() && (#[trigger] out[k]).message_id == id;
                if k < kept.len() {
                    assert(kept[k].message_id == id);
                    assert(has_id(rest, id));
                    let i = choose|i: int|
                        0 <= i < rest.len() && (#[trigger] rest[i]).message_id == id;
                    assert(ms[i].message_id == id);
                } else {
                    assert(ms[ms.len() - 1].message_id == id);
                }
            }
        }
        assert forall|k: int| 0 <= k < out.len() implies is_first(ms, #[trigger] out[k]) by {
            if k < kept.len() {
                assert(kept[k] == out[k]);
                assert(is_first(rest, kept[k]));
                let i = choose|i: int| first_at(rest, kept[k], i);
                assert forall|j: int| 0 <= j < i implies (#[trigger] ms[j]).message_id
                    != out[k].message_id by {
                    assert(rest[j] == ms[j]);
                }
                assert(first_at(ms, out[k], i));
            } else {
                let i = ms.len() - 1;
                assert forall|j: int| 0 <= j < i implies (#[trigger] ms[j]).message_id
                    != ms[i].message_id by {
                    if ms[j].message_id == ms[i].message_id {
                        assert(rest[j].message_id == ms.last().message_id);
                        assert(has_id(rest, ms.last().message_id));
                    }
                }
                assert(first_at(ms, out[k], i));
            }
        }
    }
}

/// Whether `m` stands at position `i`, and no message before it has its identifier.
pub open spec fn first_at(ms: Seq<PeerMessageModel>, m: PeerMessageModel, i: int) -> bool {
    &&& 0 <= i < ms.len()
    &&& ms[i] == m
    &&& forall|j: int| 0 <= j < i ==> (#[trigger] ms[j]).message_id != m.message_id
}

/// Whether `m` is the first message with its identifier.
pub open spec fn is_first(ms: Seq<PeerMessageModel>, m: PeerMessageModel) -> bool {
    exists|i: int| first_at(ms, m, i)
}

/// Deduplicated messages have distinct identifiers, none is lost, and each is the first of its
/// identifier.
pub proof fn deduplication_keeps_the_first_of_each(ms: Seq<PeerMessageModel>)
    ensures
        forall|i: int, j: int|
            0 <= i < j < first_of_each(ms).len() ==> first_of_each(ms)[i].message_id
                != first_of_each(ms)[j].message_id,
        forall|id: Seq<char>| has_id(ms, id) <==> has_id(first_of_each(ms), id),
        forall|k: int|
            0 <= k < first_of_each(ms).len() ==> is_first(ms, #[trigger] first_of_each(ms)[k]),
{
    lemma_first_of_each(ms);
}

/// Deduplicating twice is deduplicating once.
pub proof fn deduplication_is_idempotent(ms: Seq<PeerMessageModel>)
    ensures
        first_of_each(first_of_each(ms)) == first_of_each(ms),
{
    lemma_first_of_each(ms);
    lemma_distinct_stays(first_of_each(ms));
}

proof fn lemma_distinct_stays(ms: Seq<PeerMessageModel>)
    requires
        forall|i: int, j: int|
            0 <= i < j < ms.len() ==> ms[i].message_id != ms[j].message_id,
    ensures
        first_of_each(ms) == ms,
    decreases ms.len(),
{
    if ms.len() > 0 {
        let rest = ms.drop_last();
        assert forall|i: int, j: int| 0 <= i < j < rest.len() implies rest[i].message_id
            != rest[j].message_id by {
            assert(rest[i] == ms[i] && rest[j] == ms[j]);
        }
        lemma_distinct_stays(rest);
        assert(!has_id(rest, ms.last().message_id)) by {
            if has_id(rest, ms.last().message_id) {
                let i = choose|i: int|
                    0 <= i < rest.len() && (#[trigger] rest[i]).message_id == ms.last().message_id;
                assert(ms[i].message_id == ms[ms.len() - 1].message_id);
            }
        }
        assert(rest.push(ms.last()) =~= ms);
    }
}

// ---------------------------------------------------------------------------------------------
// Hosts
// ---------------------------------------------------------------------------------------------

/// The hosts that some advertisements name.
pub open spec fn hosts_of(ads: Seq<AdvertisementTokenModel>) -> Set<Seq<char>> {
    Set::new(|h: Seq<char>| exists|i: int| 0 <= i < ads.len() && (#[trigger] ads[i]).host == h)
}

/// The hosts to ask.
pub enum FanOut {
    /// One host alone.
    One(String),
    /// Several hosts.
    Hosts(Vec<String>),
}

/// The hosts to ask: all that are advertised, and always the own one, each once.
pub fn fan_out(ads: &Vec<AdvertisementToken>, own: &str) -> (r: FanOut)
    ensures
        match r {
            FanOut::One(h) => h@ == own@ && hosts_of(views(ads@)).insert(own@) == set![own@],
            FanOut::Hosts(hs) => {
                &&& views(hs@).no_duplicates()
                &&& views(hs@).to_set() == hosts_of(views(ads@)).insert(own@)
                &&& hs@.len() > 1
            },
        },
{
    let ghost all = views(ads@);
    let mut hosts = TextSet::new();
    let mut i: usize = 0;
    assert(hosts@ =~= hosts_of(all.take(0)));
    while i < ads.len()
        invariant
            0 <= i <= ads@.len(),
            all == views(ads@),
            hosts.wf(),
            hosts@ == hosts_of(all.take(i as int)),
        decreases ads@.len() - i,
    {
        let ghost before = hosts@;
        let _ = hosts.insert(ads[i].host.as_str());
        proof {
            let now = all.take(i + 1);
            assert forall|h: Seq<char>| #[trigger] hosts@.contains(h) <==> hosts_of(now).contains(
                h,
            ) by {
                if before.contains(h) {
                    let k = choose|k: int|
                        0 <= k < i && (#[trigger] all.take(i as int)[k]).host == h;
                    assert(now[k].host == h);
                }
                if h == all[i as int].host {
                    assert(now[i as int].host == h);
                }
                if hosts_of(now).contains(h) {
                    let k = choose|k: int| 0 <= k < now.len() && (#[trigger] now[k]).host == h;
                    if k < i {
                        assert(all.take(i as int)[k].host == h);
                    }
                }
            }
            assert(hosts@ =~= hosts_of(now));
        }
        i = i + 1;
    }
    assert(all.take(i as int) =~= all);
    let _ = hosts.insert(own);
    let ghost want = hosts_of(all).insert(own@);
    let ghost order = hosts.order();
    proof {
        assert(order.to_set() == want);
        assert(want.contains(own@));
        assert(order.contains(own@));
    }
    if hosts.len() == 1 {
        proof {
            assert(order[0] == own@);
            assert forall|h: Seq<char>| #[trigger] want.contains(h) <==> set![own@].contains(h) by {
                if want.contains(h) {
                    assert(order.contains(h));
                }
            }
            assert(want =~= set![own@]);
        }
        FanOut::One(own.to_owned())
    } else {
        let hs = hosts.items();
        assert(views(hs@).len() == hs@.len());
        FanOut::Hosts(hs)
    }
}

impl MessageBoxClient {
    /// The hosts to list messages from or to acknowledge them at: one that is given, or else all
    /// that are advertised for the own identity, and the own one.
    pub fn message_hosts(&self, override_host: Option<&str>, ads: &Vec<AdvertisementToken>) -> (r:
        FanOut)
        ensures
            match (override_host, r) {
                (Some(given), FanOut::One(h)) => h@ == given@,
                (Some(_), FanOut::Hosts(_)) => false,
                (None, FanOut::One(h)) => h@ == self@.host && hosts_of(views(ads@)).insert(
                    self@.host,
                ) == set![self@.host],
                (None, FanOut::Hosts(hs)) => {
                    &&& views(hs@).no_duplicates()
                    &&& views(hs@).to_set() == hosts_of(views(ads@)).insert(self@.host)
                    &&& hs@.len() > 1
                },
            },
    {
        match override_host {
            Some(h) => FanOut::One(h.to_owned()),
            None => fan_out(ads, self.host()),
        }
    }
}

/// The request that lists a message box.
pub open spec fn list_request(host: Seq<char>, message_box: Seq<char>) -> HttpPostModel {
    HttpPostModel {
        url: host + "/listMessages"@,
        body: (ListMessagesParamsModel { message_box }).json_text(),
    }
}

/// The request that lists a message box.
pub fn list_post(host: &str, message_box: &str) -> (r: HttpPost)
    ensures
        r@ == list_request(host@, message_box@),
{
    HttpPost {
        url: joined(host, "/listMessages"),
        body: (ListMessagesParams { message_box: message_box.to_owned() }).to_json(),
    }
}

/// The request that acknowledges messages.
pub open spec fn acknowledge_request(host: Seq<char>, ids: Seq<Seq<char>>) -> HttpPostModel {
    HttpPostModel {
        url: host + "/acknowledgeMessage"@,
        body: (AcknowledgeMessageParamsModel { message_ids: ids }).json_text(),
    }
}

/// The request that acknowledges messages.
pub fn acknowledge_post(host: &str, message_ids: &[String]) -> (r: HttpPost)
    ensures
        r@ == acknowledge_request(host@, views(message_ids@)),
{
    let mut ids: Vec<String> = Vec::new();
    let mut i: usize = 0;
    while i < message_ids.len()
        invariant
            0 <= i <= message_ids@.len(),
            views(ids@) == views(message_ids@).take(i as int),
        decreases message_ids@.len() - i,
    {
        let ghost before = views(ids@);
        ids.push(message_ids[i].clone());
        assert(views(ids@) =~= before.push(message_ids@[i as int]@));
        assert(views(ids@) =~= views(message_ids@).take(i + 1));
        i = i + 1;
    }
    assert(views(ids@) =~= views(message_ids@));
    HttpPost {
        url: joined(host, "/acknowledgeMessage"),
        body: (AcknowledgeMessageParams { message_ids: ids }).to_json(),
    }
}

/// What an acknowledgement on one host comes to.
pub fn acknowledge_message_on_host(url: &str, reply: Result<HttpReply, String>) -> (r: Result<
    (),
    MessageBoxError,
>)
    ensures
        match accepted_body(url@, result_view(reply)) {
            Ok(_) => r is Ok,
            Err(e) => r is Err && r->Err_0@ == e,
        },
{
    match accept_body(url, reply) {
        Ok(_) => Ok(()),
        Err(e) => Err(e),
    }
}

/// The lists of the hosts that answered, in order.
pub open spec fn answered(rs: Seq<Result<Vec<PeerMessage>, MessageBoxError>>) -> Seq<
    Seq<PeerMessageModel>,
>
    decreases rs.len(),
{
    if rs.len() == 0 {
        Seq::empty()
    } else {
        match rs.last() {
            Ok(ms) => answered(rs.drop_last()).push(views(ms@)),
            Err(_) => answered(rs.drop_last()),
        }
    }
}

/// The message of an operation that failed on every host.
pub open spec fn all_failed(operation: Seq<char>, hosts: nat) -> ErrorModel {
    ErrorModel::Http(0, operation + ": all "@ + decimal_text(hosts) + " hosts failed"@)
}

fn all_failed_error(operation: &str, hosts: usize) -> (r: MessageBoxError)
    ensures
        r@ == all_failed(operation@, hosts as nat),
{
    let mut s = joined(operation, ": all ");
    s.append(decimal(hosts as u64).as_str());
    s.append(" hosts failed");
    MessageBoxError::Http(0, s)
}

/// What a listing over several hosts comes to: the deduplicated messages of the hosts that
/// answered, or an error when none did.
pub open spec fn list_model(rs: Seq<Result<Vec<PeerMessage>, MessageBoxError>>) -> Result<
    Seq<PeerMessageModel>,
    ErrorModel,
> {
    if answered(rs).len() == 0 {
        Err(all_failed("list_messages"@, rs.len()))
    } else {
        Ok(first_of_each(chained(answered(rs))))
    }
}

impl MessageBoxClient {
    /// What a listing over several hosts comes to.
    pub fn list_messages(&self, results: Vec<Result<Vec<PeerMessage>, MessageBoxError>>) -> (r: Result<
        Vec<PeerMessage>,
        MessageBoxError,
    >)
        ensures
            match list_model(results@) {
                Ok(ms) => r is Ok && views(r->Ok_0@) == ms,
                Err(e) => r is Err && r->Err_0@ == e,
            },
    {
        let hosts: usize = results.len();
        let mut successful: Vec<Vec<PeerMessage>> = Vec::new();
        assert(list_views(successful@) =~= answered(results@.take(0)));
        for result in it: results
            invariant
                it.seq() == results@,
                list_views(successful@) == answered(results@.take(it.index() as int)),
        {
            let ghost n = it.index() as int;
            let ghost before = list_views(successful@);
            assert(results@.take(n + 1).drop_last() =~= results@.take(n));
            if let Ok(ms) = result {
                successful.push(ms);
                assert(list_views(successful@) =~= before.push(views(ms@)));
            }
        }
        assert(results@.take(results@.len() as int) =~= results@);
        assert(list_views(successful@).len() == successful@.len());
        if successful.len() == 0 {
            Err(all_failed_error("list_messages", hosts))
        } else {
            Ok(dedup_messages(successful))
        }
    }
}

/// Whether one of the hosts accepted.
pub open spec fn any_ok(rs: Seq<Result<(), MessageBoxError>>) -> bool {
    exists|i: int| 0 <= i < rs.len() && (#[trigger] rs[i]) is Ok
}

impl MessageBoxClient {
    /// What an acknowledgement on several hosts comes to: success when one host accepted.
    pub fn acknowledge_message(&self, results: &Vec<Result<(), MessageBoxError>>) -> (r: Result<
        (),
        MessageBoxError,
    >)
        ensures
            if any_ok(results@) {
                r is Ok
            } else {
                r is Err && r->Err_0@ == all_failed("acknowledge_message"@, results@.len())
            },
    {
        let mut i: usize = 0;
        while i < results.len()
            invariant
                0 <= i <= results@.len(),
                forall|k: int| 0 <= k < i ==> (#[trigger] results@[k]) is Err,
            decreases results@.len() - i,
        {
            if results[i].is_ok() {
                assert(results@[i as int] is Ok);
                return Ok(());
            }
            i = i + 1;
        }
        Err(all_failed_error("acknowledge_message", results.len()))
    }
}

/// A host that answers is enough for a listing, and every message that one lists is in the
/// outcome, by its identifier.
pub proof fn no_answered_message_is_lost(
    rs: Seq<Result<Vec<PeerMessage>, MessageBoxError>>,
    i: int,
    k: int,
)
    requires
        0 <= i < rs.len(),
        rs[i] matches Ok(ms) && 0 <= k < ms@.len(),
    ensures
        list_model(rs) matches Ok(out) && has_id(out, views(rs[i]->Ok_0@)[k].message_id),
{
    let id = views(rs[i]->Ok_0@)[k].message_id;
    lemma_answered_contains(rs, i);
    let j = choose|j: int| 0 <= j < answered(rs).len() && answered(rs)[j] == views(rs[i]->Ok_0@);
    lemma_chained_contains(answered(rs), j, k);
    let all = chained(answered(rs));
    let p = choose|p: int| 0 <= p < all.len() && all[p] == answered(rs)[j][k];
    assert(all[p].message_id == id);
    assert(has_id(all, id));
    lemma_first_of_each(all);
}

proof fn lemma_answered_contains(rs: Seq<Result<Vec<PeerMessage>, MessageBoxError>>, i: int)
    requires
        0 <= i < rs.len(),
        rs[i] is Ok,
    ensures
        exists|j: int| 0 <= j < answered(rs).len() && answered(rs)[j] == views(rs[i]->Ok_0@),
    decreases rs.len(),
{
    let rest = rs.drop_last();
    if i < rest.len() {
        assert(rest[i] == rs[i]);
        lemma_answered_contains(rest, i);
        let j = choose|j: int|
            0 <= j < answered(rest).len() && answered(rest)[j] == views(rest[i]->Ok_0@);
        assert(answered(rs)[j] == views(rs[i]->Ok_0@));
    } else {
        assert(answered(rs)[answered(rest).len() as int] == views(rs[i]->Ok_0@));
    }
}

proof fn lemma_chained_contains(lists: Seq<Seq<PeerMessageModel>>, j: int, k: int)
    requires
        0 <= j < lists.len(),
        0 <= k < lists[j].len(),
    ensures
        exists|p: int| 0 <= p < chained(lists).len() && chained(lists)[p] == lists[j][k],
    decreases lists.len(),
{
    let rest = lists.drop_last();
    if j < rest.len() {
        lemma_chained_contains(rest, j, k);
        let p = choose|p: int| 0 <= p < chained(rest).len() && chained(rest)[p] == rest[j][k];
        assert(chained(lists)[p] == lists[j][k]);
    } else {
        assert(chained(lists)[chained(rest).len() + k] == lists[j][k]);
    }
}

/// Deduplicated messages stand in the order in which each came first.
pub proof fn deduplication_keeps_the_order(ms: Seq<PeerMessageModel>)
    ensures
        forall|j: int, k: int, i: int, l: int|
            0 <= j < k < first_of_each(ms).len() && #[trigger] first_at(
                ms,
                first_of_each(ms)[j],
                i,
            ) && #[trigger] first_at(ms, first_of_each(ms)[k], l) ==> i < l,
    decreases ms.len(),
{
    if ms.len() > 0 {
        let rest = ms.drop_last();
        let kept = first_of_each(rest);
        let out = first_of_each(ms);
        deduplication_keeps_the_order(rest);
        lemma_first_of_each(rest);
        assert forall|j: int, k: int, i: int, l: int|
            0 <= j < k < out.len() && #[trigger] first_at(ms, out[j], i) && #[trigger] first_at(
                ms,
                out[k],
                l,
            ) implies i < l by {
            assert(out[j] == kept[j]);
            first_in_the_rest(ms, out[j], i);
            if k < kept.len() {
                assert(out[k] == kept[k]);
                first_in_the_rest(ms, out[k], l);
                assert(first_at(rest, kept[j], i));
                assert(first_at(rest, kept[k], l));
            } else if l < rest.len() {
                assert(rest[l].message_id == ms.last().message_id);
                assert(has_id(rest, ms.last().message_id));
                assert(has_id(kept, ms.last().message_id));
            }
        }
    }
}

proof fn first_in_the_rest(ms: Seq<PeerMessageModel>, m: PeerMessageModel, i: int)
    requires
        ms.len() > 0,
        is_first(ms.drop_last(), m),
        first_at(ms, m, i),
    ensures
        first_at(ms.drop_last(), m, i),
        i < ms.len() - 1,
{
    let rest = ms.drop_last();
    let at = choose|at: int| first_at(rest, m, at);
    assert(ms[at] == rest[at]);
    if i > at {
        assert(ms[at].message_id != m.message_id);
    }
    assert forall|j: int| 0 <= j < i implies (#[trigger] rest[j]).message_id != m.message_id by {
        assert(ms[j] == rest[j]);
    }
}

proof fn lists_are_chained(lists: Seq<Seq<PeerMessageModel>>)
    ensures
        chained(lists) == lists.flatten_alt(),
    decreases lists.len(),
{
    if lists.len() > 0 {
        lists_are_chained(lists.drop_last());
    }
}

proof fn answered_are_in_order(rs: Seq<Result<Vec<PeerMessage>, MessageBoxError>>)
    ensures
        answered(rs) == rs.filter(
            |r: Result<Vec<PeerMessage>, MessageBoxError>| r is Ok,
        ).map_values(|r: Result<Vec<PeerMessage>, MessageBoxError>| views(r->Ok_0@)),
    decreases rs.len(),
{
    reveal(Seq::filter);
    let answers = |r: Result<Vec<PeerMessage>, MessageBoxError>| r is Ok;
    let listed = |r: Result<Vec<PeerMessage>, MessageBoxError>| views(r->Ok_0@);
    if rs.len() > 0 {
        answered_are_in_order(rs.drop_last());
        let before = rs.drop_last().filter(answers);
        assert(before.push(rs.last()).map_values(listed) =~= before.map_values(listed).push(
            listed(rs.last()),
        ));
    } else {
        assert(rs.filter(answers).map_values(listed) =~= Seq::empty());
    }
}

/// A listing fails exactly when no host answered. Otherwise it gives the messages of the hosts that
/// did, host by host and in the order of each, but for those whose identifier came before.
pub proof fn listings_put_the_answers_together(rs: Seq<Result<Vec<PeerMessage>, MessageBoxError>>)
    ensures
        list_model(rs) is Err <==> forall|i: int| 0 <= i < rs.len() ==> (#[trigger] rs[i]) is Err,
        list_model(rs) matches Err(e) ==> e is Http && e->Http_0 == 0,
        list_model(rs) matches Ok(out) ==> out == first_of_each(
            rs.filter(
                |r: Result<Vec<PeerMessage>, MessageBoxError>| r is Ok,
            ).map_values(
                |r: Result<Vec<PeerMessage>, MessageBoxError>| views(r->Ok_0@),
            ).flatten_alt(),
        ),
{
    answered_are_in_order(rs);
    lists_are_chained(answered(rs));
    some_answer(rs);
}

proof fn some_answer(rs: Seq<Result<Vec<PeerMessage>, MessageBoxError>>)
    ensures
        answered(rs).len() == 0 <==> forall|i: int|
            0 <= i < rs.len() ==> (#[trigger] rs[i]) is Err,
    decreases rs.len(),
{
    if rs.len() > 0 {
        let rest = rs.drop_last();
        some_answer(rest);
        assert(rs[rs.len() - 1] == rs.last());
        if answered(rs).len() == 0 {
            assert forall|i: int| 0 <= i < rs.len() implies (#[trigger] rs[i]) is Err by {
                if i < rest.len() {
                    assert(rest[i] == rs[i]);
                }
            }
        }
        if forall|i: int| 0 <= i < rs.len() ==> (#[trigger] rs[i]) is Err {
            assert forall|i: int| 0 <= i < rest.len() implies (#[trigger] rest[i]) is Err by {
                assert(rest[i] == rs[i]);
            }
        }
    }
}

/// A listing asks a host for the one message box, and an acknowledgement tells a host the
/// identifiers, all of them and no others.
pub proof fn hosts_are_asked_for_what_is_wanted(
    host: Seq<char>,
    message_box: Seq<char>,
    ids: Seq<Seq<char>>,
)
    ensures
        list_request(host, message_box).url == host + "/listMessages"@,
        list_request(host, message_box).body == (ListMessagesParamsModel {
            message_box,
        }).json_text(),
        acknowledge_request(host, ids).url == host + "/acknowledgeMessage"@,
        acknowledge_request(host, ids).body == (AcknowledgeMessageParamsModel {
            message_ids: ids,
        }).json_text(),
{
}

/// The hosts to ask are those that the advertisements name, every one and no other.
pub proof fn advertised_hosts_are_asked(
    ads: Seq<AdvertisementTokenModel>,
    ad: AdvertisementTokenModel,
)
    ensures
        hosts_of(Seq::empty()) == Set::<Seq<char>>::empty(),
        hosts_of(ads.push(ad)) == hosts_of(ads).insert(ad.host),
{
    let more = ads.push(ad);
    assert(hosts_of(Seq::empty()) =~= Set::<Seq<char>>::empty());
    assert forall|h: Seq<char>| #[trigger] hosts_of(more).contains(h) <==> hosts_of(ads).insert(
        ad.host,
    ).contains(h) by {
        if hosts_of(more).contains(h) {
            let i = choose|i: int| 0 <= i < more.len() && (#[trigger] more[i]).host == h;
            if i < ads.len() {
                assert(ads[i].host == h);
            }
        }
        if hosts_of(ads).contains(h) {
            let i = choose|i: int| 0 <= i < ads.len() && (#[trigger] ads[i]).host == h;
            assert(more[i].host == h);
        }
        assert(more[ads.len() as int].host == ad.host);
    }
    assert(hosts_of(more) =~= hosts_of(ads).insert(ad.host));
}

/// One host that accepts is enough for an acknowledgement, and none is not.
pub proof fn one_host_is_enough(rs: Seq<Result<(), MessageBoxError>>, e: MessageBoxError)
    ensures
        !any_ok(Seq::empty()),
        any_ok(rs.push(Ok(()))),
        any_ok(rs.push(Err(e))) == any_ok(rs),
{
    let good = rs.push(Ok(()));
    let bad = rs.push(Err(e));
    assert(good[rs.len() as int] is Ok);
    if any_ok(rs) {
        let i = choose|i: int| 0 <= i < rs.len() && (#[trigger] rs[i]) is Ok;
        assert(bad[i] is Ok);
    }
    if any_ok(bad) {
        let i = choose|i: int| 0 <= i < bad.len() && (#[trigger] bad[i]) is Ok;
        assert(rs[i] is Ok);
    }
}

/// An operation that failed on every host is told as such, by its name and the number of hosts, and
/// as no answer of a server.
pub proof fn failures_on_all_hosts_are_told(hosts: nat)
    ensures
        all_failed("list_messages"@, hosts) == ErrorModel::Http(
            0,
            "list_messages: all "@ + decimal_text(hosts) + " hosts failed"@,
        ),
        all_failed("acknowledge_message"@, hosts) == ErrorModel::Http(
            0,
            "acknowledge_message: all "@ + decimal_text(hosts) + " hosts failed"@,
        ),
{
    reveal_strlit("list_messages");
    reveal_strlit("acknowledge_message");
    reveal_strlit(": all ");
    reveal_strlit("list_messages: all ");
    reveal_strlit("acknowledge_message: all ");
    assert("list_messages"@ + ": all "@ =~= "list_messages: all "@);
    assert("acknowledge_message"@ + ": all "@ =~= "acknowledge_message: all "@);
}

} // verus!
