//! Obtaining an OAuth2 password-grant access token with HTTP Basic client
//! authentication: the encoding of the client credentials, the request that
//! carries the grant, and the reading of the server's reply.

pub mod basic;
pub mod exchange;
