//! A redaction pipeline for user-authored remote content.
//!
//! A content item — a post, a comment, or a friend record — is shredded by
//! first overwriting what can be overwritten (the edit step), then deleting
//! it, with a fixed pause between the two remote calls to respect the remote
//! service's rate limit.
//!
//! The crate separates decisions from transport. The [`things`] module
//! defines the redactable capability and the closed set of content variants:
//! each capability call returns a description of the remote request to issue,
//! rather than issuing it. The [`driver`] module sequences one shred —
//! edit, pause, delete — as a state machine that an I/O layer steps, and
//! proves that the sequence cannot be reordered, that a failed edit stops the
//! run before any delete, and that cancelling during the pause prevents the
//! delete entirely.

pub mod driver;
pub mod things;
