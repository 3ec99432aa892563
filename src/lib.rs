//! A TLS-camouflage relay: the protocol engine shared by its client and server.
//!
//! The modules hold the keyed authenticator, the authentication-mode policy,
//! the cover-identity registry, the SNI dispatch table, the relay state
//! machine and the configuration types of the two endpoints.
pub mod auth;
pub mod dispatch;
pub mod helper;
pub mod mode;
pub mod names;
pub mod relay;
pub mod server;
pub mod text;

pub use auth::{kdf, tag, tagged_prefix, verify, window_rest, xor_slice, HMAC_SIZE};
pub use dispatch::{TlsAddrs, WildcardSNI};
pub use helper::{
    support_tls13, ErrGroup, FirstRetGroup, FutureOrOutput, HashedReadStream, HashedWriteStream,
    HmacHandler,
};
pub use mode::{authenticate, route, AuthOutcome, Route, V3Mode};
pub use names::{TlsExtConfig, TlsNames};
pub use relay::{Direction, RelayAction, RelayEvent, RelayState};
pub use server::{ConnectionPlan, ShadowTlsServer};
pub use text::ParseError;
