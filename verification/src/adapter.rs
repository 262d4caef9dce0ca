//! Messages as the remittance layer takes them.

use crate::text::views;
use crate::types::{PeerMessage, PeerMessageModel, ServerPeerMessage, ServerPeerMessageModel};
use vstd::prelude::*;
use vstd::string::*;

verus! {

broadcast use vstd::string::group_string_axioms;

/// A message of the server as the remittance layer takes it. The recipient is the own identity
/// key and the message box is the one that was asked for: the server tells neither.
pub open spec fn adapted(
    m: ServerPeerMessageModel,
    identity_key: Seq<char>,
    message_box: Seq<char>,
) -> PeerMessageModel {
    PeerMessageModel {
        message_id: m.message_id,
        sender: m.sender,
        recipient: identity_key,
        message_box,
        body: m.body,
    }
}

/// The messages of the server as the remittance layer takes them.
pub open spec fn adapted_all(
    messages: Seq<ServerPeerMessageModel>,
    identity_key: Seq<char>,
    message_box: Seq<char>,
) -> Seq<PeerMessageModel> {
    messages.map_values(|m: ServerPeerMessageModel| adapted(m, identity_key, message_box))
}

/// A message of the server as the remittance layer takes it.
pub fn map_server_message(m: ServerPeerMessage, identity_key: &str, message_box: &str) -> (r:
    PeerMessage)
    ensures
        r@ == adapted(m@, identity_key@, message_box@),
{
    PeerMessage {
        message_id: m.message_id,
        sender: m.sender,
        recipient: identity_key.to_owned(),
        message_box: message_box.to_owned(),
        body: m.body,
    }
}

/// The messages of the server as the remittance layer takes them, in their order.
pub fn map_server_messages(
    messages: Vec<ServerPeerMessage>,
    identity_key: &str,
    message_box: &str,
) -> (r: Vec<PeerMessage>)
    ensures
        views(r@) == adapted_all(views(messages@), identity_key@, message_box@),
{
    let ghost all = adapted_all(views(messages@), identity_key@, message_box@);
    let mut r: Vec<PeerMessage> = Vec::new();
    assert(views(r@) =~= all.take(0));
    for m in it: messages
        invariant
            it.seq() == messages@,
            all == adapted_all(views(messages@), identity_key@, message_box@),
            views(r@) == all.take(it.index() as int),
    {
        let ghost n = it.index() as int;
        let ghost before = views(r@);
        let p = map_server_message(m, identity_key, message_box);
        r.push(p);
        assert(all[n] == p@);
        assert(views(r@) =~= before.push(p@));
        assert(all.take(n + 1) =~= before.push(p@));
    }
    assert(all.take(all.len() as int) =~= all);
    r
}

} // verus!
