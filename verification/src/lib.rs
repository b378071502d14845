//! Signed streaming requests for the iFlytek Spark chat service and the
//! iFlytek text-to-speech service.
//!
//! A request goes through the same stations for both services. It is
//! checked against the bounds of the service and turned into the one
//! request that is sent ([`spark::prepare`], [`tts::prepare`]). The
//! endpoint is signed for the present time with the secret and the key of
//! the request ([`xunfei::authorization`]). A session then judges every
//! frame that comes back and says what is handed to the caller, and when
//! the answer is complete or has failed ([`spark::session`],
//! [`tts::session`]). Chat frames that came out of order are combined by
//! their sequence numbers ([`spark::batch`]).
//!
//! The library opens no connection and reads no clock. Its driver does
//! both, and tells the session what happened.

pub mod audio;
pub mod codec;
pub mod error;
pub mod session;
pub mod spark;
pub mod tts;
pub mod xunfei;
