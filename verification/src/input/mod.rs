//! Physical input: pure, host-testable decoding and gesture formation.
//!
//! Everything here sits above the input-sampling port, so it is provable without hardware.

/// Gesture formation on top of validated detents: identity and the inactivity boundary.
pub mod gesture;
/// Detent-qualified quadrature decoding.
pub mod quadrature;
