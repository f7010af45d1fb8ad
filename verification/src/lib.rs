//! Client SDK for the mslm email-verification and OTP web service.
//!
//! The library builds authenticated HTTP requests (base-URL composition,
//! query-parameter and API-key injection, user-agent header, JSON bodies)
//! and parses the JSON responses into typed records.  Sending the request
//! over the network is left to the caller, who hands the response body
//! back to the parsing functions.

mod trusted;

pub mod client;
pub mod email_verify;
pub mod jsontext;
pub mod mslm;
pub mod otp;
pub mod textenc;

pub use client::{BaseClient, HttpMethod, HttpRequest, ReqOpts, RequestError, init_defaults};
pub use mslm::Client;
pub use email_verify::{EmailVerifyClient, SingleVerifyReqOpts, SingleVerifyResp, SingleVerifyRespMx};
pub use otp::{
    OtpClient, OtpSendReq, OtpSendReqOpts, OtpSendResp, OtpTokenVerifyReq, OtpTokenVerifyReqOpts,
    OtpTokenVerifyResp,
};
