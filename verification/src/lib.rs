//! Message store-and-forward client: the message, payment and routing rules of a MessageBox
//! client, with every rule stated as a contract and proved.
//!
//! The library decides and computes. It asks the wallet, the server and the live connection for
//! nothing itself: an operation that needs one of them is a row of steps, and each step says what
//! to ask next and takes the answer.

pub mod adapter;
pub mod beef;
pub mod chain;
pub mod client;
pub mod codec;
pub mod collections;
pub mod delivery;
pub mod delivery_fee;
pub mod encryption;
pub mod error;
pub mod host_resolution;
pub mod inbox;
pub mod json;
pub mod listing;
pub mod live;
pub mod message_payment;
pub mod payment_requests;
pub mod peer_pay;
pub mod permissions;
pub mod request_review;
pub mod send_list;
pub mod sending;
pub mod socket_transport;
pub mod text;
pub mod types;
pub mod wallet;
pub mod websocket;
pub mod wire;

pub use client::MessageBoxClient;
pub use delivery::DeliveryMode;
pub use error::MessageBoxError;
pub use types::{
    AcknowledgeMessageParams, AdvertisementToken, AuthenticatedPeerMessage, FailedRecipient,
    IncomingPayment, IncomingPaymentRequest, InsertionRemittanceInfo, ListDevicesResponse,
    ListMessagesParams, ListMessagesResponse, MessageBoxMultiQuote, MessageBoxPermission,
    MessageBoxQuote, MessagePayment, MessagePaymentOutput, Payment, PaymentCustomInstructions,
    PaymentOutput, PaymentRemittanceInfo, PaymentRequestLimits, PaymentRequestMessage,
    PaymentRequestResponse, PaymentRequestResult, PaymentToken, PeerMessage, RecipientQuote,
    RegisterDeviceRequest, RegisterDeviceResponse, RegisteredDevice, SendListParams,
    SendListResult, SendListTotals, SendMessageParams, SendMessageRequest, SendMessageResponse,
    SentRecipient, ServerPeerMessage, SetPermissionParams, WsSendMessageData,
    WsSendMessagePayload,
};

use vstd::prelude::*;

verus! {

} // verus!
