//! Server-side state: sessions, subscriptions, roots, cancellation, sampling.

pub mod pair_index;
pub mod session;
pub mod subscription;
pub mod roots;
pub mod token;
pub mod cancellation;
pub mod sampling;
