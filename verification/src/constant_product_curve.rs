//! The curve: how many reserve units a number of shares is worth.

pub mod constant_product;
pub mod fairness;
pub mod rounding;

pub use constant_product::ConstantProductCurve;
pub use constant_product::CurveError;
pub use constant_product::XYAmounts;
