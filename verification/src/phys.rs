//! Unit-safe vector algebra over fixed-point coordinates.
//!
//! Only the combinations of units that make sense exist: positions differ by a
//! distance, a velocity over a time span is a distance, an acceleration over a
//! time span is a velocity.
//!
//! A fixed-point number lies between `-LIMIT` and `LIMIT`; such a number is
//! called tame. Every operator gives tame numbers and saturates where the exact
//! result is not one. The one number of the machine below `-LIMIT` stands for
//! nothing: an operator that is handed it takes it for `-LIMIT`.

mod acc;
mod dist;
mod fixed;
mod order;
mod pos;
mod span;
mod uniform;
mod vec2;
mod vel;

pub use self::acc::Acceleration;
pub use self::dist::Distance;
pub use self::fixed::{
    ceil_root, is_root_up, lemma_quotient_bounded, lemma_quotient_magnitude, lemma_root_unique,
    lemma_saturate_odd, lemma_scaled_odd, lemma_square_monotone, is_tame, magnitude, narrow,
    quotient,
    ratio, root_up, saturate, scale, scaled, tame, Fixed, LIMIT, UNIT,
};
pub use self::order::{is_between, lexical};
pub use self::pos::Position;
pub use self::span::{seconds, whole_seconds};
pub use self::uniform::{
    boxed, UniformAcceleration, UniformPosition, UniformVec2, UniformVelocity,
};
pub use self::vec2::Vec2;
pub use self::vel::{lemma_clamp_caps, lemma_clamp_exact, lemma_clamp_reaches, Velocity};
