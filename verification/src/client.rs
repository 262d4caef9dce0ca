//! The state of a client, its initialization, and how it takes the answers of a server.

use crate::collections::TextSet;
use crate::encryption::string_member;
use crate::error::{ErrorModel, MessageBoxError};
use crate::json::{json_member, json_string, member, parse_bytes, string_value};
use crate::text::{
    joined3, opt_view, result_view, same_text, trim, trimmed, trimming_twice_is_trimming_once, views,
};
use crate::types::{AdvertisementToken, AdvertisementTokenModel};
use crate::wallet::{identity_key_request, KeyRequest};
use vstd::prelude::*;
use vstd::string::*;
use vstd::utf8::*;

verus! {

broadcast use vstd::string::group_string_axioms;

// ---------------------------------------------------------------------------------------------
// Answers of the server
// ---------------------------------------------------------------------------------------------

/// An answer of the server: its status code and its body.
pub struct HttpReply {
    /// The status code.
    pub status: u16,
    /// The body.
    pub body: Vec<u8>,
}

/// The contents of an `HttpReply`.
#[verifier::ext_equal]
pub struct HttpReplyModel {
    pub status: u16,
    pub body: Seq<u8>,
}

impl View for HttpReply {
    type V = HttpReplyModel;

    open spec fn view(&self) -> HttpReplyModel {
        HttpReplyModel { status: self.status, body: self.body@ }
    }
}

/// A request to the server, with a JSON body.
pub struct HttpPost {
    /// The address.
    pub url: String,
    /// The body.
    pub body: String,
}

/// The contents of an `HttpPost`.
#[verifier::ext_equal]
pub struct HttpPostModel {
    pub url: Seq<char>,
    pub body: Seq<char>,
}

impl View for HttpPost {
    type V = HttpPostModel;

    open spec fn view(&self) -> HttpPostModel {
        HttpPostModel { url: self.url@, body: self.body@ }
    }
}

/// What the status and the description in the body of an answer come to.
pub open spec fn status_model(status: Option<Seq<char>>, description: Option<Seq<char>>) -> Result<
    (),
    ErrorModel,
> {
    if status == Some("error"@) {
        Err(
            ErrorModel::Auth(
                match description {
                    Some(d) => d,
                    None => "unknown error"@,
                },
            ),
        )
    } else {
        Ok(())
    }
}

/// What the status and the description in the body of an answer come to.
pub fn status_outcome(status: Option<&str>, description: Option<&str>) -> (r: Result<
    (),
    MessageBoxError,
>)
    ensures
        result_view(r) == status_model(opt_view(status), opt_view(description)),
{
    match status {
        Some(s) => if same_text(s, "error") {
            match description {
                Some(d) => Err(MessageBoxError::Auth(d.to_owned())),
                None => Err(MessageBoxError::Auth("unknown error".to_owned())),
            }
        } else {
            Ok(())
        },
        None => Ok(()),
    }
}

/// What the body of an answer holds under a key: the string there, if the body is JSON and has
/// one.
pub open spec fn body_string(body: Seq<u8>, key: Seq<char>) -> Option<Seq<char>> {
    if valid_utf8(body) {
        match string_member(decode_utf8(body), key) {
            Ok(o) => o,
            Err(_) => None,
        }
    } else {
        None
    }
}

/// Whether the body of an answer reports an error of the server.
pub open spec fn body_status(body: Seq<u8>) -> Result<(), ErrorModel> {
    status_model(body_string(body, "status"@), body_string(body, "description"@))
}

fn string_at<'a>(v: &'a serde_json::Value, key: &str) -> (r: Option<&'a str>)
    ensures
        opt_view(r) == (match json_member(crate::json::value_text(*v), key@) {
            Some(m) => json_string(m),
            None => None,
        }),
{
    match member(v, key) {
        Some(m) => string_value(m),
        None => None,
    }
}

/// An error when the body of an answer reports one. A body that is not JSON reports none.
pub fn check_status_error(body: &[u8]) -> (r: Result<(), MessageBoxError>)
    ensures
        result_view(r) == body_status(body@),
{
    match parse_bytes(body) {
        Some(v) => status_outcome(string_at(&v, "status"), string_at(&v, "description")),
        None => Ok(()),
    }
}

/// The body of an answer, or what is wrong with the answer: no answer, a status code outside the
/// successful range, or an error reported in the body.
pub open spec fn accepted_body(
    url: Seq<char>,
    reply: Result<HttpReplyModel, Seq<char>>,
) -> Result<Seq<u8>, ErrorModel> {
    match successful_body(url, reply) {
        Err(e) => Err(e),
        Ok(body) => match body_status(body) {
            Err(e) => Err(e),
            Ok(_) => Ok(body),
        },
    }
}

/// The body of an answer, or what is wrong with the answer: no answer, or a status code outside
/// the successful range.
pub open spec fn successful_body(
    url: Seq<char>,
    reply: Result<HttpReplyModel, Seq<char>>,
) -> Result<Seq<u8>, ErrorModel> {
    match reply {
        Err(e) => Err(ErrorModel::Auth(e)),
        Ok(h) => if 200 <= h.status < 300 {
            Ok(h.body)
        } else {
            Err(ErrorModel::Http(h.status, url))
        },
    }
}

/// The body of an answer with a successful status code.
pub fn take_body(url: &str, reply: Result<HttpReply, String>) -> (r: Result<
    Vec<u8>,
    MessageBoxError,
>)
    ensures
        result_view(r) == successful_body(url@, result_view(reply)),
{
    match reply {
        Err(e) => Err(MessageBoxError::Auth(e)),
        Ok(h) => if h.status < 200 || h.status >= 300 {
            Err(MessageBoxError::Http(h.status, url.to_owned()))
        } else {
            Ok(h.body)
        },
    }
}

/// The body of an answer with a successful status code that reports no error.
pub fn accept_body(url: &str, reply: Result<HttpReply, String>) -> (r: Result<
    Vec<u8>,
    MessageBoxError,
>)
    ensures
        result_view(r) == accepted_body(url@, result_view(reply)),
{
    match take_body(url, reply) {
        Err(e) => Err(e),
        Ok(body) => match check_status_error(body.as_slice()) {
            Err(e) => Err(e),
            Ok(_) => Ok(body),
        },
    }
}

// ---------------------------------------------------------------------------------------------
// Rooms
// ---------------------------------------------------------------------------------------------

/// The room of a message box: the identity key of its owner, a hyphen and its name.
pub open spec fn room(identity_key: Seq<char>, message_box: Seq<char>) -> Seq<char> {
    identity_key + seq!['-'] + message_box
}

/// The room of a message box.
pub fn room_id(identity_key: &str, message_box: &str) -> (r: String)
    ensures
        r@ == room(identity_key@, message_box@),
{
    proof {
        reveal_strlit("-");
        assert("-"@ =~= seq!['-']);
    }
    joined3(identity_key, "-", message_box)
}

// ---------------------------------------------------------------------------------------------
// The client
// ---------------------------------------------------------------------------------------------

/// What a client knows: its host, the originator that it names to the wallet, its identity key
/// once the wallet told it, whether it is initialized, and the rooms that it is in.
pub struct MessageBoxClient {
    host: String,
    originator: Option<String>,
    identity_key: Option<String>,
    initialized: bool,
    joined_rooms: TextSet,
}

/// The contents of a `MessageBoxClient`.
#[verifier::ext_equal]
pub struct ClientModel {
    pub host: Seq<char>,
    pub originator: Option<Seq<char>>,
    pub identity_key: Option<Seq<char>>,
    pub initialized: bool,
    pub joined_rooms: Set<Seq<char>>,
}

impl View for MessageBoxClient {
    type V = ClientModel;

    closed spec fn view(&self) -> ClientModel {
        ClientModel {
            host: self.host@,
            originator: opt_view(self.originator),
            identity_key: opt_view(self.identity_key),
            initialized: self.initialized,
            joined_rooms: self.joined_rooms@,
        }
    }
}

/// Whether one of the advertisements names a host, white space at either end aside.
pub open spec fn advertises(ads: Seq<AdvertisementTokenModel>, host: Seq<char>) -> bool {
    exists|i: int| 0 <= i < ads.len() && trimmed((#[trigger] ads[i]).host) == trimmed(host)
}

/// What is next while a client is initialized.
pub enum InitStep {
    /// Nothing: the client is ready.
    Ready,
    /// Look up the advertisements of this identity for this host.
    Query {
        /// The identity key.
        identity_key: String,
        /// The host.
        host: String,
    },
    /// Advertise this host. Whether that succeeds does not matter.
    Anoint {
        /// The host.
        host: String,
    },
}

/// The contents of an `InitStep`.
#[verifier::ext_equal]
pub enum InitStepModel {
    Ready,
    Query(Seq<char>, Seq<char>),
    Anoint(Seq<char>),
}

impl View for InitStep {
    type V = InitStepModel;

    open spec fn view(&self) -> InitStepModel {
        match self {
            InitStep::Ready => InitStepModel::Ready,
            InitStep::Query { identity_key, host } => InitStepModel::Query(identity_key@, host@),
            InitStep::Anoint { host } => InitStepModel::Anoint(host@),
        }
    }
}

impl MessageBoxClient {
    /// The rooms are well formed.
    pub closed spec fn wf(&self) -> bool {
        self.joined_rooms.wf()
    }

    /// A client of a host. White space at either end of the address is dropped.
    pub fn new(host: &str, originator: Option<String>) -> (r: MessageBoxClient)
        ensures
            r.wf(),
            r@ == (ClientModel {
                host: trimmed(host@),
                originator: opt_view(originator),
                identity_key: None,
                initialized: false,
                joined_rooms: Set::empty(),
            }),
    {
        MessageBoxClient {
            host: trim(host),
            originator,
            identity_key: None,
            initialized: false,
            joined_rooms: TextSet::new(),
        }
    }

    /// The address of the server.
    pub fn host(&self) -> (r: &str)
        ensures
            r@ == self@.host,
    {
        self.host.as_str()
    }

    /// The originator that is named to the wallet.
    pub fn originator(&self) -> (r: Option<&str>)
        ensures
            opt_view(r) == self@.originator,
    {
        match &self.originator {
            Some(s) => Some(s.as_str()),
            None => None,
        }
    }

    /// The identity key, once the wallet told it.
    pub fn identity_key(&self) -> (r: Option<String>)
        ensures
            opt_view(r) == self@.identity_key,
    {
        match &self.identity_key {
            Some(s) => Some(s.clone()),
            None => None,
        }
    }

    /// What to ask the wallet for the identity key.
    pub fn identity_key_request(&self) -> (r: KeyRequest)
        ensures
            r@ == identity_key_request(),
    {
        KeyRequest::identity()
    }

    /// The identity key: the one that was told before, or else the one in the answer of the wallet
    /// to the request for it, which is kept.
    pub fn get_identity_key(&mut self, reply: Result<String, String>) -> (r: Result<
        String,
        MessageBoxError,
    >)
        requires
            old(self).wf(),
        ensures
            final(self).wf(),
            match (old(self)@.identity_key, reply) {
                (Some(k), _) => {
                    &&& r is Ok && r->Ok_0@ == k
                    &&& final(self)@ == old(self)@
                },
                (None, Ok(key)) => {
                    &&& r is Ok && r->Ok_0@ == key@
                    &&& final(self)@ == ClientModel { identity_key: Some(key@), ..old(self)@ }
                },
                (None, Err(e)) => {
                    &&& r is Err && r->Err_0@ == ErrorModel::Wallet(e@)
                    &&& final(self)@ == old(self)@
                },
            },
    {
        if let Some(k) = &self.identity_key {
            return Ok(k.clone());
        }
        match reply {
            Err(e) => Err(MessageBoxError::Wallet(e)),
            Ok(key) => {
                self.identity_key = Some(key.clone());
                Ok(key)
            },
        }
    }

    /// Whether the client is initialized.
    pub fn is_initialized(&self) -> (r: bool)
        ensures
            r == self@.initialized,
    {
        self.initialized
    }

    /// The first step of an initialization, once the identity key is known. With a target host,
    /// that host is advertised; without one, the own host is looked up first.
    pub fn init(&self, target_host: Option<&str>, identity_key: &str) -> (r: InitStep)
        ensures
            r@ == (if self@.initialized {
                InitStepModel::Ready
            } else {
                match target_host {
                    Some(h) => InitStepModel::Anoint(h@),
                    None => InitStepModel::Query(identity_key@, self@.host),
                }
            }),
    {
        if self.initialized {
            return InitStep::Ready;
        }
        match target_host {
            Some(h) => InitStep::Anoint { host: h.to_owned() },
            None => InitStep::Query {
                identity_key: identity_key.to_owned(),
                host: self.host.clone(),
            },
        }
    }

    /// The step after the own host was looked up: it is advertised unless it is already.
    pub fn after_query(&self, ads: &Vec<AdvertisementToken>) -> (r: InitStep)
        ensures
            r@ == (if advertises(views(ads@), self@.host) {
                InitStepModel::Ready
            } else {
                InitStepModel::Anoint(self@.host)
            }),
    {
        let own = trim(self.host.as_str());
        let ghost all = views(ads@);
        let mut i: usize = 0;
        while i < ads.len()
            invariant
                0 <= i <= ads@.len(),
                all == views(ads@),
                own@ == trimmed(self@.host),
                forall|k: int| 0 <= k < i ==> trimmed((#[trigger] all[k]).host) != own@,
            decreases ads@.len() - i,
        {
            if same_text(trim(ads[i].host.as_str()).as_str(), own.as_str()) {
                assert(trimmed(all[i as int].host) == own@);
                return InitStep::Ready;
            }
            i = i + 1;
        }
        InitStep::Anoint { host: self.host.clone() }
    }

    /// Marks the client as initialized.
    pub fn finish_init(&mut self)
        requires
            old(self).wf(),
        ensures
            final(self).wf(),
            final(self)@ == (ClientModel { initialized: true, ..old(self)@ }),
    {
        self.initialized = true;
    }

    /// Notes that the client is in a room.
    pub fn join_room(&mut self, room: &str)
        requires
            old(self).wf(),
        ensures
            final(self).wf(),
            final(self)@ == (ClientModel {
                joined_rooms: old(self)@.joined_rooms.insert(room@),
                ..old(self)@
            }),
    {
        let _ = self.joined_rooms.insert(room);
    }

    /// Notes that the client left a room.
    pub fn leave_room(&mut self, room: &str)
        requires
            old(self).wf(),
        ensures
            final(self).wf(),
            final(self)@ == (ClientModel {
                joined_rooms: old(self)@.joined_rooms.remove(room@),
                ..old(self)@
            }),
    {
        self.joined_rooms.remove(room);
    }

    /// Whether the client is in a room.
    pub fn is_in_room(&self, room: &str) -> (r: bool)
        requires
            self.wf(),
        ensures
            r == self@.joined_rooms.contains(room@),
    {
        self.joined_rooms.contains(room)
    }

    /// The rooms that the client is in, each once.
    pub fn get_joined_rooms(&self) -> (r: Vec<String>)
        requires
            self.wf(),
        ensures
            views(r@).no_duplicates(),
            views(r@).to_set() == self@.joined_rooms,
    {
        self.joined_rooms.items()
    }

    /// The host to use: the given one, or the own one.
    pub fn host_or_own(&self, override_host: Option<&str>) -> (r: String)
        ensures
            r@ == host_choice(opt_view(override_host), self@.host),
    {
        match override_host {
            Some(h) => h.to_owned(),
            None => self.host.clone(),
        }
    }
}

/// The given host, or else the own one.
pub open spec fn host_choice(override_host: Option<Seq<char>>, own: Seq<char>) -> Seq<char> {
    match override_host {
        Some(h) => h,
        None => own,
    }
}

/// Joining a room twice is joining it once, and leaving it undoes a join from outside.
pub proof fn joining_is_idempotent(rooms: Set<Seq<char>>, room: Seq<char>)
    ensures
        rooms.insert(room).insert(room) == rooms.insert(room),
        !rooms.contains(room) ==> rooms.insert(room).remove(room) == rooms,
{
    assert(rooms.insert(room).insert(room) =~= rooms.insert(room));
    if !rooms.contains(room) {
        assert(rooms.insert(room).remove(room) =~= rooms);
    }
}

/// An answer is accepted exactly when there is one, its status code is a successful one, and its
/// body reports no error; what is accepted is its body. No answer, another status code and a
/// reported error are each told as such.
pub proof fn answers_are_accepted_when_successful(
    url: Seq<char>,
    reply: Result<HttpReplyModel, Seq<char>>,
)
    ensures
        accepted_body(url, reply) is Ok <==> (reply matches Ok(h) && 200 <= h.status <= 299
            && body_string(h.body, "status"@) != Some("error"@)),
        accepted_body(url, reply) matches Ok(body) ==> body == reply->Ok_0.body,
        successful_body(url, reply) is Ok <==> (reply matches Ok(h) && 200 <= h.status <= 299),
        successful_body(url, reply) matches Ok(body) ==> body == reply->Ok_0.body,
        reply matches Err(e) ==> accepted_body(url, reply)->Err_0 == ErrorModel::Auth(e)
            && successful_body(url, reply)->Err_0 == ErrorModel::Auth(e),
        reply matches Ok(h) ==> !(200 <= h.status <= 299) ==> accepted_body(url, reply)->Err_0
            == ErrorModel::Http(h.status, url) && successful_body(url, reply)->Err_0
            == ErrorModel::Http(h.status, url),
        reply matches Ok(h) ==> 200 <= h.status <= 299 ==> body_string(h.body, "status"@) == Some(
            "error"@,
        ) ==> accepted_body(url, reply)->Err_0 == ErrorModel::Auth(
            match body_string(h.body, "description"@) {
                Some(d) => d,
                None => "unknown error"@,
            },
        ),
{
}

/// A host that is given is taken, and the own one only where none is.
pub proof fn given_hosts_come_first(given: Seq<char>, own: Seq<char>)
    ensures
        host_choice(Some(given), own) == given,
        host_choice(None, own) == own,
{
}

/// A host counts as advertised when an advertisement names it, whatever white space stands round
/// either; and nothing is advertised without advertisements, nor by adding one of another host.
pub proof fn advertised_hosts_are_named(
    ads: Seq<AdvertisementTokenModel>,
    ad: AdvertisementTokenModel,
    host: Seq<char>,
)
    ensures
        !advertises(Seq::empty(), host),
        advertises(ads, host) == advertises(ads, trimmed(host)),
        trimmed(ad.host) == trimmed(host) ==> advertises(ads.push(ad), host),
        trimmed(ad.host) != trimmed(host) ==> advertises(ads.push(ad), host) == advertises(
            ads,
            host,
        ),
{
    trimming_twice_is_trimming_once(host);
    let more = ads.push(ad);
    assert(more[ads.len() as int] == ad);
    if advertises(ads, host) {
        let i = choose|i: int|
            0 <= i < ads.len() && trimmed((#[trigger] ads[i]).host) == trimmed(host);
        assert(trimmed(more[i].host) == trimmed(host));
    }
    if advertises(more, host) && trimmed(ad.host) != trimmed(host) {
        let i = choose|i: int|
            0 <= i < more.len() && trimmed((#[trigger] more[i]).host) == trimmed(host);
        assert(trimmed(ads[i].host) == trimmed(host));
    }
}

} // verus!
