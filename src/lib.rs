//! An authorization engine for ledger accounts: ordered multi-signature
//! verification, weighted and spend-limit quorum policies, and per-identity
//! nonces that stop a signed message from being replayed.

pub mod bundle;
pub mod counters;
pub mod crypto;
pub mod engine;
pub mod error;
pub mod keyed;
pub mod keys;
pub mod laws;
pub mod nonce;
pub mod payload;
pub mod spend_limit;
pub mod timelock;
pub mod weighted;

pub use bundle::{verify_all, SignedEntry};
pub use counters::{ContractA, IncrementContract};
pub use engine::{AuthorizationEngine, QuorumPolicy};
pub use error::AuthError;
pub use keyed::{check_auth, Authorization, Token};
pub use keys::{ContractId, PublicKey, Signature};
pub use nonce::{Identifier, NonceStore};
pub use payload::{encode_payload, signature_payload, SignablePayload, Val};
pub use spend_limit::{AuthContext, LimitedFunction, SpendLimitPolicy};
pub use timelock::{ClaimError, ClaimableBalance, ClaimableBalanceContract, TimeBound, TimeBoundKind};
pub use weighted::{NativeAccount, SignerWeight};
