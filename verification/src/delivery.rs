//! How a live message reached its recipient.

use vstd::prelude::*;

verus! {

/// The outcome of a live send: acknowledged over the live connection in time, or stored by the
/// server for the recipient to fetch.
#[derive(Debug, Clone)]
pub enum DeliveryMode {
    /// The server acknowledged the message over the live connection.
    Live {
        /// The identifier of the message.
        message_id: String,
    },
    /// The server stored the message over HTTP. No live push was confirmed.
    Persisted {
        /// The identifier of the message.
        message_id: String,
    },
}

/// The contents of a `DeliveryMode`.
#[verifier::ext_equal]
pub enum DeliveryModel {
    Live(Seq<char>),
    Persisted(Seq<char>),
}

impl View for DeliveryMode {
    type V = DeliveryModel;

    open spec fn view(&self) -> DeliveryModel {
        match self {
            DeliveryMode::Live { message_id } => DeliveryModel::Live(message_id@),
            DeliveryMode::Persisted { message_id } => DeliveryModel::Persisted(message_id@),
        }
    }
}

impl DeliveryModel {
    /// The identifier of the message, either way.
    pub open spec fn id(self) -> Seq<char> {
        match self {
            DeliveryModel::Live(id) => id,
            DeliveryModel::Persisted(id) => id,
        }
    }
}

impl DeliveryMode {
    /// The identifier of the message, either way.
    pub fn message_id(&self) -> (r: &str)
        ensures
            r@ == self@.id(),
    {
        match self {
            DeliveryMode::Live { message_id } => message_id.as_str(),
            DeliveryMode::Persisted { message_id } => message_id.as_str(),
        }
    }

    /// Whether the server acknowledged the message over the live connection.
    pub fn is_live(&self) -> (r: bool)
        ensures
            r == (self@ is Live),
    {
        match self {
            DeliveryMode::Live { .. } => true,
            DeliveryMode::Persisted { .. } => false,
        }
    }
}

} // verus!
