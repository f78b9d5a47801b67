//! A message-queue exercise harness: option parsing, operator command parsing,
//! routing topology, and the producer and consumer state machines that drive a
//! broker connection. Every broker call is made by the caller, which performs
//! the actions these state machines hand out and reports back what happened.

pub mod options;
pub mod command;
pub mod topology;
pub mod ledger;
pub mod producer;
pub mod worker;
