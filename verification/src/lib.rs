//! A command-line client for the Tistory blog service: the credential file,
//! the OAuth exchange, the request URLs and bodies, and the command line,
//! each stated and proved over plain character sequences.
pub mod text;
pub mod credentials;
pub mod oauth;
pub mod api;
pub mod post;
pub mod command;
