//! Address screening at transaction-pool admission.
//!
//! The library collects every address of a transaction that a compliance
//! sidecar should screen (sender, recipient, EIP-7702 authorizations, access
//! list entries and addresses carried in ERC-20/ERC-721/ERC-1155 calldata),
//! configures the sidecar client, and decides what a sidecar reply means
//! under the configured fail mode.

pub mod address;
pub mod args;
pub mod calldata;
pub mod client;

pub use address::Address;
pub use args::ScreeningArgs;
pub use calldata::{
    decode_address_word, extract_addresses, extract_calldata_addresses, ScreenableTransaction,
};
pub use client::{
    ScreeningClient, ScreeningClientBuilder, ScreeningError, ScreeningFailMode, SidecarReply,
};
