//! The live connection: rooms, subscriptions, and which acknowledgement belongs to which message.
//!
//! An acknowledgement names a room and no message. The server takes the messages for a room one by
//! one, so the first acknowledgement belongs to the message that waits longest.

use crate::client::room;
use crate::codec::utf8_decode;
use crate::collections::TextSet;
use crate::encryption::{DecryptOutcome, OutcomeModel};
use crate::json::{json_member, json_string, member, string_value, value_text};
use crate::text::{after_prefix, joined, opt_view, part_of, same_text, strip_prefix, views};
use crate::types::{
    AuthenticatedPeerMessage, AuthenticatedPeerMessageModel, ServerPeerMessage,
    ServerPeerMessageModel,
};
use vstd::prelude::*;
use vstd::string::*;
use vstd::utf8::*;

verus! {

broadcast use vstd::string::group_string_axioms;

// ---------------------------------------------------------------------------------------------
// Rooms
// ---------------------------------------------------------------------------------------------

/// How many bytes an identity key takes.
pub const KEY_LENGTH: usize = 66;

/// The owner and the message box of a room. A hyphen behind an identity key parts them, or else the
/// first hyphen; without one the whole is the owner.
pub open spec fn parts_of_room(room: Seq<char>) -> (Seq<char>, Seq<char>) {
    let b = encode_utf8(room);
    if b.len() > KEY_LENGTH && b[KEY_LENGTH as int] == 0x2d {
        (
            decode_utf8(b.subrange(0, KEY_LENGTH as int)),
            decode_utf8(b.subrange(KEY_LENGTH + 1, b.len() as int)),
        )
    } else if room.contains('-') {
        let n = room.index_of_first('-')->0;
        (room.take(n), room.skip(n + 1))
    } else {
        (room, Seq::empty())
    }
}

fn text_of(bytes: Vec<u8>) -> (r: String)
    requires
        valid_utf8(bytes@),
    ensures
        r@ == decode_utf8(bytes@),
{
    match utf8_decode(bytes) {
        Ok(s) => s,
        Err(_) => String::new(),
    }
}

proof fn hyphen_parts_the_bytes(b: Seq<u8>, i: int)
    requires
        valid_utf8(b),
        0 <= i < b.len(),
        b[i] == 0x2d,
    ensures
        valid_utf8(b.subrange(0, i)),
        valid_utf8(b.subrange(i + 1, b.len() as int)),
{
    assert(!is_continuation_byte(0x2du8)) by (bit_vector);
    is_char_boundary_iff_not_is_continuation_byte(b, i);
    valid_utf8_split(b, i);
    let tail = b.subrange(i, b.len() as int);
    assert(tail[0] == 0x2d);
    assert(is_leading_byte_width_1(0x2du8)) by (bit_vector);
    assert(pop_first_scalar(tail) =~= b.subrange(i + 1, b.len() as int));
}

/// The owner and the message box of a room.
pub fn split_room_id(room_id: &str) -> (r: (String, String))
    ensures
        (r.0@, r.1@) == parts_of_room(room_id@),
{
    let bytes = room_id.as_bytes_vec();
    let len: usize = bytes.len();
    if len > KEY_LENGTH && bytes[KEY_LENGTH] == 0x2d {
        proof {
            encode_utf8_valid_utf8(room_id@);
            hyphen_parts_the_bytes(bytes@, KEY_LENGTH as int);
        }
        let owner = text_of(part_of(&bytes, 0, KEY_LENGTH));
        let message_box = text_of(part_of(&bytes, KEY_LENGTH + 1, len));
        return (owner, message_box);
    }
    let n: usize = room_id.unicode_len();
    let mut i: usize = 0;
    while i < n
        invariant
            n == room_id@.len(),
            0 <= i <= n,
            forall|k: int| 0 <= k < i ==> room_id@[k] != '-',
            !(encode_utf8(room_id@).len() > KEY_LENGTH && encode_utf8(room_id@)[KEY_LENGTH as int]
                == 0x2d),
        decreases n - i,
    {
        if room_id.get_char(i) == '-' {
            proof {
                assert(room_id@[i as int] == '-');
                assert(room_id@.contains('-'));
                room_id@.index_of_first_ensures('-');
            }
            let owner = room_id.substring_char(0, i).to_owned();
            let message_box = room_id.substring_char(i + 1, n).to_owned();
            assert(owner@ =~= room_id@.take(i as int));
            assert(message_box@ =~= room_id@.skip(i + 1));
            return (owner, message_box);
        }
        i = i + 1;
    }
    (room_id.to_owned(), String::new())
}

proof fn encoding_joins(a: Seq<char>, b: Seq<char>)
    ensures
        encode_utf8(a + b) == encode_utf8(a) + encode_utf8(b),
    decreases a.len(),
{
    if a.len() == 0 {
        assert(a + b =~= b);
        assert(encode_utf8(a) =~= Seq::empty());
    } else {
        encoding_joins(a.drop_first(), b);
        assert((a + b).drop_first() =~= a.drop_first() + b);
        assert(encode_utf8(a + b) =~= encode_utf8(a) + encode_utf8(b));
    }
}

proof fn hyphen_is_one_byte()
    ensures
        encode_utf8(seq!['-']) == seq![0x2du8],
{
    reveal_with_fuel(encode_utf8, 2);
    assert('-' as u32 == 0x2d);
    assert(leading_byte_width_1(0x2d) == 0x2d) by (bit_vector);
    assert(seq!['-'].drop_first() =~= Seq::empty());
    assert(encode_utf8(seq!['-']) =~= seq![0x2du8]);
}

/// The room of a message box tells its owner and its name again, whenever the owner is an identity
/// key of the usual length. The name may hold hyphens.
pub proof fn rooms_tell_owner_and_message_box(owner: Seq<char>, message_box: Seq<char>)
    requires
        encode_utf8(owner).len() == KEY_LENGTH,
    ensures
        parts_of_room(room(owner, message_box)) == (owner, message_box),
{
    let r = room(owner, message_box);
    let b = encode_utf8(r);
    encoding_joins(owner + seq!['-'], message_box);
    encoding_joins(owner, seq!['-']);
    hyphen_is_one_byte();
    assert(b.subrange(0, KEY_LENGTH as int) =~= encode_utf8(owner));
    assert(b.subrange(KEY_LENGTH + 1, b.len() as int) =~= encode_utf8(message_box));
    encode_utf8_decode_utf8(owner);
    encode_utf8_decode_utf8(message_box);
}

/// The same holds of an owner of any other length, as long as its name holds no hyphen and no
/// hyphen happens to stand where one would follow an identity key.
pub proof fn short_rooms_tell_owner_and_message_box(owner: Seq<char>, message_box: Seq<char>)
    requires
        !owner.contains('-'),
        encode_utf8(room(owner, message_box)).len() <= KEY_LENGTH || encode_utf8(
            room(owner, message_box),
        )[KEY_LENGTH as int] != 0x2d,
    ensures
        parts_of_room(room(owner, message_box)) == (owner, message_box),
{
    let r = room(owner, message_box);
    let n = owner.len() as int;
    assert(r[n] == '-');
    assert(r.contains('-'));
    r.index_of_first_ensures('-');
    let m = r.index_of_first('-')->0;
    if m < n {
        assert(owner[m] == r[m]);
    }
    assert(m == n);
    assert(r.take(n) =~= owner);
    assert(r.skip(n + 1) =~= message_box);
}

// ---------------------------------------------------------------------------------------------
// Events
// ---------------------------------------------------------------------------------------------

/// The event that brings a message to a room.
pub open spec fn delivery_event(room: Seq<char>) -> Seq<char> {
    "sendMessage-"@ + room
}

/// The event that acknowledges a message to a room.
pub open spec fn ack_event(room: Seq<char>) -> Seq<char> {
    "sendMessageAck-"@ + room
}

/// The event that brings a message to a room.
pub fn event_key(room: &str) -> (r: String)
    ensures
        r@ == delivery_event(room@),
{
    joined("sendMessage-", room)
}

/// The event that acknowledges a message to a room.
pub fn ack_key(room: &str) -> (r: String)
    ensures
        r@ == ack_event(room@),
{
    joined("sendMessageAck-", room)
}

/// A message as it is handed to a subscriber of a room.
pub open spec fn live_message_model(
    message: ServerPeerMessageModel,
    room: Seq<char>,
    outcome: OutcomeModel,
) -> AuthenticatedPeerMessageModel {
    AuthenticatedPeerMessageModel {
        message_id: message.message_id,
        sender: message.sender,
        recipient: parts_of_room(room).0,
        message_box: parts_of_room(room).1,
        body: outcome.body(),
        authenticated_decrypt: outcome is Decrypted,
    }
}

/// A message as it is handed to a subscriber of a room, once its body was decrypted. Whether the
/// decryption authenticated the sender is told too.
pub fn live_message(message: ServerPeerMessage, room_id: &str, outcome: DecryptOutcome) -> (r:
    AuthenticatedPeerMessage)
    ensures
        r@ == live_message_model(message@, room_id@, outcome@),
{
    let authenticated_decrypt = outcome.is_authenticated();
    let (recipient, message_box) = split_room_id(room_id);
    AuthenticatedPeerMessage {
        message_id: message.message_id,
        sender: message.sender,
        recipient,
        message_box,
        body: outcome.into_body(),
        authenticated_decrypt,
    }
}

// ---------------------------------------------------------------------------------------------
// The connection
// ---------------------------------------------------------------------------------------------

/// What the client knows of a live connection. A waiter is the number of a message that waits for
/// its acknowledgement.
pub struct MessageBoxWebSocket {
    pending: Vec<(String, u64)>,
    subscriptions: TextSet,
    joined_rooms: TextSet,
}

/// The contents of a `MessageBoxWebSocket`: the waiters with the events that they wait for, the
/// longest waiting first; the events that are subscribed to; and the rooms.
#[verifier::ext_equal]
pub struct SocketModel {
    pub pending: Seq<(Seq<char>, u64)>,
    pub subscriptions: Set<Seq<char>>,
    pub joined_rooms: Set<Seq<char>>,
}

impl View for MessageBoxWebSocket {
    type V = SocketModel;

    closed spec fn view(&self) -> SocketModel {
        SocketModel {
            pending: views(self.pending@),
            subscriptions: self.subscriptions@,
            joined_rooms: self.joined_rooms@,
        }
    }
}

/// Who waits for an event, the longest waiting first.
pub open spec fn queue(pending: Seq<(Seq<char>, u64)>, event: Seq<char>) -> Seq<u64>
    decreases pending.len(),
{
    if pending.len() == 0 {
        Seq::empty()
    } else {
        let before = queue(pending.drop_last(), event);
        if pending.last().0 == event {
            before.push(pending.last().1)
        } else {
            before
        }
    }
}

/// Whether only the queue of one event differs.
pub open spec fn only_queue_changes(
    before: Seq<(Seq<char>, u64)>,
    after: Seq<(Seq<char>, u64)>,
    event: Seq<char>,
) -> bool {
    forall|other: Seq<char>| other != event ==> #[trigger] queue(after, other) == queue(
        before,
        other,
    )
}

/// What an event of the connection comes to.
pub enum Dispatch {
    /// A message for the subscriber of this room.
    Deliver(String),
    /// The message of this number was acknowledged, or refused.
    Resolve(u64, bool),
    /// Nothing.
    Ignore,
}

/// The contents of a `Dispatch`.
#[verifier::ext_equal]
pub enum DispatchModel {
    Deliver(Seq<char>),
    Resolve(u64, bool),
    Ignore,
}

impl View for Dispatch {
    type V = DispatchModel;

    open spec fn view(&self) -> DispatchModel {
        match self {
            Dispatch::Deliver(room) => DispatchModel::Deliver(room@),
            Dispatch::Resolve(w, success) => DispatchModel::Resolve(*w, *success),
            Dispatch::Ignore => DispatchModel::Ignore,
        }
    }
}

/// The status in the data of an event, when there is one.
pub open spec fn status_of(data: Seq<char>) -> Option<Seq<char>> {
    match json_member(data, "status"@) {
        Some(m) => json_string(m),
        None => None,
    }
}

/// The status in the data of an event, when there is one.
pub fn event_status(data: &serde_json::Value) -> (r: Option<&str>)
    ensures
        opt_view(r) == status_of(value_text(*data)),
{
    match member(data, "status") {
        Some(m) => string_value(m),
        None => None,
    }
}

/// What an event comes to, given the status in its data. A message is for the subscriber of its
/// room, if there is one. An acknowledgement is for the message that waits longest.
pub open spec fn dispatched(
    s: SocketModel,
    event: Seq<char>,
    status: Option<Seq<char>>,
) -> DispatchModel {
    if is_delivery(event) && s.subscriptions.contains(event) {
        DispatchModel::Deliver(after_prefix(event, "sendMessage-"@)->0)
    } else if is_ack(event) && queue(s.pending, event).len() > 0 {
        DispatchModel::Resolve(queue(s.pending, event)[0], status == Some("success"@))
    } else {
        DispatchModel::Ignore
    }
}

proof fn queue_splits(a: Seq<(Seq<char>, u64)>, b: Seq<(Seq<char>, u64)>, event: Seq<char>)
    ensures
        queue(a + b, event) == queue(a, event) + queue(b, event),
    decreases b.len(),
{
    if b.len() == 0 {
        assert(a + b =~= a);
        assert(queue(a, event) + queue(b, event) =~= queue(a, event));
    } else {
        queue_splits(a, b.drop_last(), event);
        assert((a + b).drop_last() =~= a + b.drop_last());
        assert(queue(a + b, event) =~= queue(a, event) + queue(b, event));
    }
}

proof fn queue_without(pending: Seq<(Seq<char>, u64)>, i: int, event: Seq<char>)
    requires
        0 <= i < pending.len(),
    ensures
        ({
            let a = queue(pending.take(i), event);
            let b = queue(pending.skip(i + 1), event);
            &&& queue(pending.remove(i), event) == a + b
            &&& pending[i].0 == event ==> queue(pending, event) == a.push(pending[i].1) + b
            &&& pending[i].0 != event ==> queue(pending, event) == a + b
        }),
{
    let a = pending.take(i);
    let b = pending.skip(i + 1);
    let one = seq![pending[i]];
    assert(pending.remove(i) =~= a + b);
    queue_splits(a, b, event);
    assert(pending =~= a + one + b);
    queue_splits(a + one, b, event);
    queue_splits(a, one, event);
    reveal_with_fuel(queue, 2);
    assert(one.drop_last() =~= Seq::empty());
    if pending[i].0 == event {
        assert(queue(one, event) =~= seq![pending[i].1]);
        assert(queue(a, event) + seq![pending[i].1] =~= queue(a, event).push(pending[i].1));
    } else {
        assert(queue(one, event) =~= Seq::empty());
        assert(queue(a, event) + Seq::<u64>::empty() =~= queue(a, event));
    }
}

proof fn queue_of_others_is_empty(pending: Seq<(Seq<char>, u64)>, event: Seq<char>)
    requires
        forall|k: int| 0 <= k < pending.len() ==> (#[trigger] pending[k]).0 != event,
    ensures
        queue(pending, event) == Seq::<u64>::empty(),
    decreases pending.len(),
{
    if pending.len() > 0 {
        queue_of_others_is_empty(pending.drop_last(), event);
    }
}

impl MessageBoxWebSocket {
    /// Whether the subscriptions and the rooms are sets.
    pub closed spec fn wf(&self) -> bool {
        self.subscriptions.wf() && self.joined_rooms.wf()
    }

    /// A fresh connection.
    pub fn new() -> (r: MessageBoxWebSocket)
        ensures
            r.wf(),
            r@.pending == Seq::<(Seq<char>, u64)>::empty(),
            r@.subscriptions == Set::<Seq<char>>::empty(),
            r@.joined_rooms == Set::<Seq<char>>::empty(),
    {
        let r = MessageBoxWebSocket {
            pending: Vec::new(),
            subscriptions: TextSet::new(),
            joined_rooms: TextSet::new(),
        };
        assert(r@.pending =~= Seq::empty());
        r
    }

    /// Whether joining a room takes a request to the server: not when it was joined before.
    pub fn must_join(&self, room_id: &str) -> (r: bool)
        requires
            self.wf(),
        ensures
            r == !self@.joined_rooms.contains(room_id@),
    {
        !self.joined_rooms.contains(room_id)
    }

    /// Joins a room.
    pub fn join_room(&mut self, room_id: &str)
        requires
            old(self).wf(),
        ensures
            final(self).wf(),
            final(self)@ == (SocketModel {
                joined_rooms: old(self)@.joined_rooms.insert(room_id@),
                ..old(self)@
            }),
    {
        let _ = self.joined_rooms.insert(room_id);
    }

    /// Leaves a room and ends its subscription, before the server is told.
    pub fn leave_room(&mut self, room_id: &str)
        requires
            old(self).wf(),
        ensures
            final(self).wf(),
            final(self)@ == (SocketModel {
                joined_rooms: old(self)@.joined_rooms.remove(room_id@),
                subscriptions: old(self)@.subscriptions.remove(delivery_event(room_id@)),
                ..old(self)@
            }),
    {
        self.joined_rooms.remove(room_id);
        let event = event_key(room_id);
        self.subscriptions.remove(event.as_str());
    }

    /// Subscribes to an event.
    pub fn subscribe(&mut self, event_key: &str)
        requires
            old(self).wf(),
        ensures
            final(self).wf(),
            final(self)@ == (SocketModel {
                subscriptions: old(self)@.subscriptions.insert(event_key@),
                ..old(self)@
            }),
    {
        let _ = self.subscriptions.insert(event_key);
    }

    /// Lets a message wait for its acknowledgement, behind those that wait already. That is done
    /// before the message is sent, so that no acknowledgement comes too early.
    pub fn emit_send_message(&mut self, ack_key: &str, waiter: u64)
        requires
            old(self).wf(),
        ensures
            final(self).wf(),
            queue(final(self)@.pending, ack_key@) == queue(old(self)@.pending, ack_key@).push(
                waiter,
            ),
            only_queue_changes(old(self)@.pending, final(self)@.pending, ack_key@),
            final(self)@.subscriptions == old(self)@.subscriptions,
            final(self)@.joined_rooms == old(self)@.joined_rooms,
    {
        let ghost before = self@.pending;
        let entry = (ack_key.to_owned(), waiter);
        self.pending.push(entry);
        proof {
            assert(self@.pending =~= before.push((ack_key@, waiter)));
            assert(self@.pending.drop_last() =~= before);
        }
    }

    fn take_oldest(&mut self, event: &str) -> (r: Option<u64>)
        requires
            old(self).wf(),
        ensures
            final(self).wf(),
            match r {
                Some(w) => queue(old(self)@.pending, event@) == seq![w] + queue(
                    final(self)@.pending,
                    event@,
                ),
                None => queue(old(self)@.pending, event@).len() == 0 && final(self)@.pending
                    == old(self)@.pending,
            },
            only_queue_changes(old(self)@.pending, final(self)@.pending, event@),
            final(self)@.subscriptions == old(self)@.subscriptions,
            final(self)@.joined_rooms == old(self)@.joined_rooms,
    {
        let ghost all = self@.pending;
        let mut i: usize = 0;
        while i < self.pending.len()
            invariant
                0 <= i <= self.pending@.len(),
                *self == *old(self),
                self.wf(),
                all == self@.pending,
                all.len() == self.pending@.len(),
                forall|k: int| 0 <= k < i ==> (#[trigger] all[k]).0 != event@,
            decreases self.pending@.len() - i,
        {
            assert(all[i as int] == self.pending@[i as int]@);
            if same_text(self.pending[i].0.as_str(), event) {
                let (_, w) = self.pending.remove(i);
                proof {
                    assert(self@.pending =~= all.remove(i as int));
                    queue_without(all, i as int, event@);
                    assert forall|k: int| 0 <= k < all.take(i as int).len() implies (
                    #[trigger] all.take(i as int)[k]).0 != event@ by {
                        assert(all.take(i as int)[k] == all[k]);
                    }
                    queue_of_others_is_empty(all.take(i as int), event@);
                    assert(queue(all, event@) =~= seq![w] + queue(self@.pending, event@));
                    assert forall|other: Seq<char>| other != event@ implies #[trigger] queue(
                        self@.pending,
                        other,
                    ) == queue(all, other) by {
                        queue_without(all, i as int, other);
                    }
                }
                return Some(w);
            }
            i = i + 1;
        }
        proof {
            queue_of_others_is_empty(all, event@);
        }
        None
    }

    /// Takes the newest waiter for an event back, after its message could not be sent.
    pub fn emit_failed(&mut self, ack_key: &str) -> (r: Option<u64>)
        requires
            old(self).wf(),
        ensures
            final(self).wf(),
            match r {
                Some(w) => queue(old(self)@.pending, ack_key@) == queue(
                    final(self)@.pending,
                    ack_key@,
                ).push(w),
                None => queue(old(self)@.pending, ack_key@).len() == 0 && final(self)@.pending
                    == old(self)@.pending,
            },
            only_queue_changes(old(self)@.pending, final(self)@.pending, ack_key@),
            final(self)@.subscriptions == old(self)@.subscriptions,
            final(self)@.joined_rooms == old(self)@.joined_rooms,
    {
        let ghost all = self@.pending;
        let mut i: usize = self.pending.len();
        while i > 0
            invariant
                0 <= i <= self.pending@.len(),
                *self == *old(self),
                self.wf(),
                all == self@.pending,
                all.len() == self.pending@.len(),
                forall|k: int| i <= k < all.len() ==> (#[trigger] all[k]).0 != ack_key@,
            decreases i,
        {
            i = i - 1;
            assert(all[i as int] == self.pending@[i as int]@);
            if same_text(self.pending[i].0.as_str(), ack_key) {
                let (_, w) = self.pending.remove(i);
                proof {
                    assert(self@.pending =~= all.remove(i as int));
                    queue_without(all, i as int, ack_key@);
                    let rest = all.skip(i + 1);
                    assert forall|k: int| 0 <= k < rest.len() implies (#[trigger] rest[k]).0
                        != ack_key@ by {
                        assert(rest[k] == all[k + i + 1]);
                    }
                    queue_of_others_is_empty(rest, ack_key@);
                    assert(queue(all, ack_key@) =~= queue(self@.pending, ack_key@).push(w));
                    assert forall|other: Seq<char>| other != ack_key@ implies #[trigger] queue(
                        self@.pending,
                        other,
                    ) == queue(all, other) by {
                        queue_without(all, i as int, other);
                    }
                }
                return Some(w);
            }
        }
        proof {
            queue_of_others_is_empty(all, ack_key@);
        }
        None
    }

    /// Gives up the longest waiting message for an event, after its time ran out.
    pub fn remove_pending_ack(&mut self, key: &str) -> (r: Option<u64>)
        requires
            old(self).wf(),
        ensures
            final(self).wf(),
            match r {
                Some(w) => queue(old(self)@.pending, key@) == seq![w] + queue(
                    final(self)@.pending,
                    key@,
                ),
                None => queue(old(self)@.pending, key@).len() == 0 && final(self)@.pending
                    == old(self)@.pending,
            },
            only_queue_changes(old(self)@.pending, final(self)@.pending, key@),
            final(self)@.subscriptions == old(self)@.subscriptions,
            final(self)@.joined_rooms == old(self)@.joined_rooms,
    {
        self.take_oldest(key)
    }

    /// What an event comes to, given the status in its data. A waiter that is resolved waits no
    /// longer.
    pub fn dispatch(&mut self, event_name: &str, status: Option<&str>) -> (r: Dispatch)
        requires
            old(self).wf(),
        ensures
            final(self).wf(),
            r@ == dispatched(old(self)@, event_name@, opt_view(status)),
            match r {
                Dispatch::Resolve(w, _) => queue(old(self)@.pending, event_name@) == seq![w]
                    + queue(final(self)@.pending, event_name@),
                _ => final(self)@.pending == old(self)@.pending,
            },
            only_queue_changes(old(self)@.pending, final(self)@.pending, event_name@),
            final(self)@.subscriptions == old(self)@.subscriptions,
            final(self)@.joined_rooms == old(self)@.joined_rooms,
    {
        proof {
            ack_events_are_no_deliveries(event_name@);
        }
        if let Some(room) = strip_prefix(event_name, "sendMessage-") {
            if self.subscriptions.contains(event_name) {
                return Dispatch::Deliver(room);
            }
            return Dispatch::Ignore;
        }
        if strip_prefix(event_name, "sendMessageAck-").is_some() {
            let success = match status {
                Some(s) => same_text(s, "success"),
                None => false,
            };
            return match self.take_oldest(event_name) {
                Some(w) => Dispatch::Resolve(w, success),
                None => Dispatch::Ignore,
            };
        }
        Dispatch::Ignore
    }

    /// Ends the connection. Whoever waits is told that it was not acknowledged.
    pub fn disconnect(&mut self) -> (r: Vec<u64>)
        ensures
            final(self).wf(),
            r@ == old(self)@.pending.map_values(|p: (Seq<char>, u64)| p.1),
            final(self)@.pending == Seq::<(Seq<char>, u64)>::empty(),
            final(self)@.subscriptions == Set::<Seq<char>>::empty(),
            final(self)@.joined_rooms == Set::<Seq<char>>::empty(),
    {
        let ghost all = self@.pending;
        let ghost waiters = all.map_values(|p: (Seq<char>, u64)| p.1);
        let mut r: Vec<u64> = Vec::new();
        let mut i: usize = 0;
        while i < self.pending.len()
            invariant
                0 <= i <= self.pending@.len(),
                all == self@.pending,
                waiters == all.map_values(|p: (Seq<char>, u64)| p.1),
                r@ == waiters.take(i as int),
            decreases self.pending@.len() - i,
        {
            assert(all[i as int] == self.pending@[i as int]@);
            r.push(self.pending[i].1);
            assert(r@ =~= waiters.take(i + 1));
            i = i + 1;
        }
        assert(waiters.take(i as int) =~= waiters);
        self.pending = Vec::new();
        self.subscriptions.clear();
        self.joined_rooms.clear();
        assert(self@.pending =~= Seq::empty());
        r
    }
}

/// Whether an event brings a message.
pub open spec fn is_delivery(event: Seq<char>) -> bool {
    after_prefix(event, "sendMessage-"@) is Some
}

/// Whether an event is an acknowledgement.
pub open spec fn is_ack(event: Seq<char>) -> bool {
    after_prefix(event, "sendMessageAck-"@) is Some
}

/// No event is both a message and an acknowledgement.
pub proof fn ack_events_are_no_deliveries(event: Seq<char>)
    ensures
        !(is_delivery(event) && is_ack(event)),
{
    reveal_strlit("sendMessage-");
    reveal_strlit("sendMessageAck-");
    if is_delivery(event) && is_ack(event) {
        assert("sendMessage-"@[11] == '-');
        assert("sendMessageAck-"@[11] == 'A');
        assert(event[11] == '-');
        assert(event[11] == 'A');
    }
}

/// What happens to the queue of an event: a message begins to wait, or is acknowledged.
pub enum QueueEvent {
    Sent(u64),
    Acknowledged(u64),
}

/// Whether something that happens to a queue leads from one to the other: as
/// `emit_send_message` adds a waiter, and as `dispatch` resolves one.
pub open spec fn leads_to(before: Seq<u64>, e: QueueEvent, after: Seq<u64>) -> bool {
    match e {
        QueueEvent::Sent(w) => after == before.push(w),
        QueueEvent::Acknowledged(w) => before == seq![w] + after,
    }
}

/// The messages that begin to wait, in order.
pub open spec fn sent_in(events: Seq<QueueEvent>) -> Seq<u64>
    decreases events.len(),
{
    if events.len() == 0 {
        Seq::empty()
    } else {
        match events.last() {
            QueueEvent::Sent(w) => sent_in(events.drop_last()).push(w),
            QueueEvent::Acknowledged(_) => sent_in(events.drop_last()),
        }
    }
}

/// The messages that are acknowledged, in order.
pub open spec fn acknowledged_in(events: Seq<QueueEvent>) -> Seq<u64>
    decreases events.len(),
{
    if events.len() == 0 {
        Seq::empty()
    } else {
        match events.last() {
            QueueEvent::Sent(_) => acknowledged_in(events.drop_last()),
            QueueEvent::Acknowledged(w) => acknowledged_in(events.drop_last()).push(w),
        }
    }
}

/// Messages to one room are acknowledged in the order in which they were sent: those that were
/// acknowledged, and behind them those that still wait, are those that waited at first, and behind
/// them those that were sent since.
pub proof fn acknowledgements_come_in_the_order_of_the_messages(
    pending: Seq<Seq<(Seq<char>, u64)>>,
    events: Seq<QueueEvent>,
    event: Seq<char>,
)
    requires
        pending.len() == events.len() + 1,
        forall|i: int|
            0 <= i < events.len() ==> leads_to(
                queue(pending[i], event),
                #[trigger] events[i],
                queue(pending[i + 1], event),
            ),
    ensures
        acknowledged_in(events) + queue(pending.last(), event) == queue(pending[0], event)
            + sent_in(events),
    decreases events.len(),
{
    let first = queue(pending[0], event);
    let last = queue(pending.last(), event);
    if events.len() == 0 {
        assert(acknowledged_in(events) + last =~= first + sent_in(events));
    } else {
        let n = events.len() - 1;
        let rest = events.drop_last();
        let before = pending.drop_last();
        assert forall|i: int| 0 <= i < rest.len() implies leads_to(
            queue(before[i], event),
            #[trigger] rest[i],
            queue(before[i + 1], event),
        ) by {
            assert(rest[i] == events[i]);
        }
        acknowledgements_come_in_the_order_of_the_messages(before, rest, event);
        assert(before.last() == pending[n]);
        assert(leads_to(queue(pending[n], event), events[n], queue(pending[n + 1], event)));
        match events.last() {
            QueueEvent::Sent(w) => {
                assert(acknowledged_in(events) + last =~= (acknowledged_in(rest) + queue(
                    before.last(),
                    event,
                )).push(w));
                assert(first + sent_in(events) =~= (first + sent_in(rest)).push(w));
            },
            QueueEvent::Acknowledged(w) => {
                assert(acknowledged_in(events) + last =~= acknowledged_in(rest) + (seq![w] + last));
            },
        }
    }
}

/// The event of a room reaches the subscriber of that room, and only while there is one.
pub proof fn delivery_events_reach_their_room(
    s: SocketModel,
    room: Seq<char>,
    status: Option<Seq<char>>,
)
    ensures
        after_prefix(delivery_event(room), "sendMessage-"@) == Some(room),
        dispatched(s, delivery_event(room), status) == (if s.subscriptions.contains(
            delivery_event(room),
        ) {
            DispatchModel::Deliver(room)
        } else {
            DispatchModel::Ignore
        }),
{
    ack_events_are_no_deliveries(delivery_event(room));
    let prefix = "sendMessage-"@;
    assert(delivery_event(room).subrange(0, prefix.len() as int) =~= prefix);
    assert(delivery_event(room).subrange(prefix.len() as int, delivery_event(room).len() as int)
        =~= room);
}

/// An event of the connection: its name, the status in its data, and the message that its data
/// are, with what decrypting the body came to. Data that are no message hold none.
pub struct SocketEvent {
    pub name: Seq<char>,
    pub status: Option<Seq<char>>,
    pub message: Option<(ServerPeerMessageModel, OutcomeModel)>,
}

/// What a subscriber is called with for an event that came to `d`.
pub open spec fn handed_on(e: SocketEvent, d: DispatchModel) -> Option<
    AuthenticatedPeerMessageModel,
> {
    match (d, e.message) {
        (DispatchModel::Deliver(room), Some((m, outcome))) => Some(
            live_message_model(m, room, outcome),
        ),
        _ => None,
    }
}

/// What subscribers are called with, in order, when the events come to `ds`.
pub open spec fn deliveries(events: Seq<SocketEvent>, ds: Seq<DispatchModel>) -> Seq<
    AuthenticatedPeerMessageModel,
>
    decreases events.len(),
{
    if events.len() == 0 {
        Seq::empty()
    } else {
        let before = deliveries(events.drop_last(), ds.drop_last());
        match handed_on(events.last(), ds.last()) {
            Some(m) => before.push(m),
            None => before,
        }
    }
}

/// The messages that come to a room while it has a subscriber, with the room, in order. The
/// connection is in the state `states[i]` when the event at place `i` comes.
pub open spec fn subscribed_messages(events: Seq<SocketEvent>, states: Seq<SocketModel>) -> Seq<
    (Seq<char>, ServerPeerMessageModel, OutcomeModel),
>
    decreases events.len(),
{
    if events.len() == 0 {
        Seq::empty()
    } else {
        let before = subscribed_messages(events.drop_last(), states.drop_last());
        let e = events.last();
        match e.message {
            Some((m, outcome)) if is_delivery(e.name) && states.last().subscriptions.contains(
                e.name,
            ) => before.push((after_prefix(e.name, "sendMessage-"@)->0, m, outcome)),
            _ => before,
        }
    }
}

/// Over any events, each message to a room with a subscriber is handed on once, in the order of the
/// events, with its name and its sender, the two parts of the room, and what decrypting its body
/// came to. Nothing else is handed on.
pub proof fn messages_are_handed_on_once_and_in_order(
    states: Seq<SocketModel>,
    events: Seq<SocketEvent>,
    ds: Seq<DispatchModel>,
)
    requires
        states.len() == events.len() == ds.len(),
        forall|i: int|
            0 <= i < events.len() ==> #[trigger] ds[i] == dispatched(
                states[i],
                events[i].name,
                events[i].status,
            ),
    ensures
        deliveries(events, ds) == subscribed_messages(events, states).map_values(
            |t: (Seq<char>, ServerPeerMessageModel, OutcomeModel)| live_message_model(t.1, t.0, t.2),
        ),
    decreases events.len(),
{
    let f = |t: (Seq<char>, ServerPeerMessageModel, OutcomeModel)|
        live_message_model(t.1, t.0, t.2);
    let all = subscribed_messages(events, states);
    if events.len() > 0 {
        let n = events.len() - 1;
        assert forall|i: int| 0 <= i < n implies #[trigger] ds.drop_last()[i] == dispatched(
            states.drop_last()[i],
            events.drop_last()[i].name,
            events.drop_last()[i].status,
        ) by {
            assert(ds.drop_last()[i] == ds[i]);
        }
        messages_are_handed_on_once_and_in_order(
            states.drop_last(),
            events.drop_last(),
            ds.drop_last(),
        );
        assert(ds[n] == dispatched(states[n], events[n].name, events[n].status));
    }
    assert(deliveries(events, ds) =~= all.map_values(f));
}

/// An acknowledgement resolves the message that waits longest for it, and no other.
pub proof fn acknowledgements_resolve_the_oldest_waiter(
    s: SocketModel,
    event: Seq<char>,
    status: Option<Seq<char>>,
)
    requires
        is_ack(event),
    ensures
        dispatched(s, event, status) == (if queue(s.pending, event).len() > 0 {
            DispatchModel::Resolve(queue(s.pending, event)[0], status == Some("success"@))
        } else {
            DispatchModel::Ignore
        }),
{
    ack_events_are_no_deliveries(event);
}

/// A message to the room of a message box is handed on as one to the owner of that room, for that
/// message box, from who sent it and under its name, with what decrypting its body came to, and as
/// authenticated exactly when the body was decrypted.
pub proof fn live_messages_tell_their_room(
    message: ServerPeerMessageModel,
    owner: Seq<char>,
    message_box: Seq<char>,
    outcome: OutcomeModel,
)
    requires
        encode_utf8(owner).len() == 66,
    ensures
        ({
            let m = live_message_model(message, room(owner, message_box), outcome);
            &&& m.message_id == message.message_id
            &&& m.sender == message.sender
            &&& m.recipient == owner
            &&& m.message_box == message_box
            &&& outcome matches OutcomeModel::Decrypted(s) ==> m.body == s
                && m.authenticated_decrypt
            &&& outcome matches OutcomeModel::Plaintext(s) ==> m.body == s
                && !m.authenticated_decrypt
        }),
{
    rooms_tell_owner_and_message_box(owner, message_box);
}

/// Who waits for an event are those among all that wait, in the order in which they began to.
pub proof fn queues_keep_the_order(pending: Seq<(Seq<char>, u64)>, event: Seq<char>)
    ensures
        queue(pending, event) == pending.filter(
            |p: (Seq<char>, u64)| p.0 == event,
        ).map_values(|p: (Seq<char>, u64)| p.1),
    decreases pending.len(),
{
    reveal(Seq::filter);
    let waits = |p: (Seq<char>, u64)| p.0 == event;
    let waiter = |p: (Seq<char>, u64)| p.1;
    if pending.len() > 0 {
        queues_keep_the_order(pending.drop_last(), event);
        let before = pending.drop_last().filter(waits);
        assert(before.push(pending.last()).map_values(waiter) =~= before.map_values(waiter).push(
            pending.last().1,
        ));
    } else {
        assert(pending.filter(waits).map_values(waiter) =~= Seq::empty());
    }
}

/// The event that acknowledges messages to a room is an acknowledgement, and tells the room. It
/// resolves who waits for that room longest, as a success exactly when its status says so.
pub proof fn ack_events_tell_their_room(
    s: SocketModel,
    room: Seq<char>,
    status: Option<Seq<char>>,
)
    ensures
        after_prefix(ack_event(room), "sendMessageAck-"@) == Some(room),
        queue(s.pending, ack_event(room)).len() > 0 ==> dispatched(s, ack_event(room), status)
            == DispatchModel::Resolve(
            queue(s.pending, ack_event(room))[0],
            status == Some("success"@),
        ),
        queue(s.pending, ack_event(room)).len() == 0 ==> dispatched(s, ack_event(room), status)
            is Ignore,
{
    let prefix = "sendMessageAck-"@;
    assert(ack_event(room).subrange(0, prefix.len() as int) =~= prefix);
    assert(ack_event(room).subrange(prefix.len() as int, ack_event(room).len() as int) =~= room);
    acknowledgements_resolve_the_oldest_waiter(s, ack_event(room), status);
}

/// The status in the data of an event is the text of its member of that name.
pub proof fn statuses_are_texts(data: Seq<char>)
    ensures
        status_of(data) is Some <==> (json_member(data, "status"@) matches Some(m) && json_string(m)
            is Some),
        status_of(data) matches Some(s) ==> json_string(json_member(data, "status"@)->0) == Some(s),
{
}

} // verus!
