//! Mailbox 0 message formats, checksum rules and the DOT override
//! challenge/response transport, each with a proved contract.
//!
//! The hardware side (MCI mailbox registers and SRAM) is modelled by plain
//! values: a session is a snapshot of what the logic reads, and every
//! decision returns the register writes it asks for.

pub mod wire;
pub mod mailbox_messages;
pub mod mbox0_helpers;
pub mod dot_override;
