//! The operations that callers see: the life of a secret from creation to
//! its last read, and the exchange of a secret request.

pub mod auth_service;
pub mod file_service;
pub mod organization_service;
pub mod request_exchange;
pub mod secret_lifecycle;
pub mod secret_request_service;
pub mod secret_service;
