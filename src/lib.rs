//! Authentication and authorization core: device-fingerprint risk scoring,
//! a credential store with device-bound session tokens, and role resolution.
pub mod controller;
pub mod laws;
pub mod store;
pub mod types;


pub use controller::{Controller, RegistrationError};
pub use store::{CredentialStore, StoreError, StoreWrite, TokenRecord, UserRecord};
pub use types::{
    AuthRequest, AuthResponse, Config, Fingerprint, RegistrationRequest, Role, SystemInfo,
};
