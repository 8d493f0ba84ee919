//! Deterministic foundation library for 2D/2.5D vector-style arcade games.
//!
//! The crate provides a seedable random number generator, exact integer
//! geometry for collision tests, perspective projection with near-plane
//! clipping, simple projectile kinematics, and the display-list data the
//! games hand to a renderer.
//!
//! All fractional quantities are carried as 64-bit fixed-point numbers
//! with [`fx::FX_ONE`] representing one unit; the geometric predicates
//! are exact over those integer coordinates.

pub mod collision;
pub mod color;
pub mod draw;
pub mod font;
pub mod fx;
pub mod game;
pub mod input;
pub mod linear;
pub mod projectile;
pub mod projection;
pub mod rng;
pub mod transform;

pub use collision::{line_aabb_intersect, line_circle_intersect, Aabb, Circle};
pub use color::Rgba;
pub use draw::{rect_wire, DrawCmd, Line2, Stroke};
pub use font::FontStyleId;
pub use fx::{
    angle_diff, clamp, depth_intensity, inv_lerp, lerp, normalize_angle, remap, wrap_range,
    wrap_signed_unit, COORD_LIMIT, FX_ONE, FX_PI,
};
pub use game::{Assets, AudioOut};
pub use input::{Axis, Button, Key};
pub use linear::{wrap_position, Mat3Fx, Vec2Fx, Vec3Fx};
pub use projectile::{update_projectiles_3d, Projectile2D, Projectile3D};
pub use projection::{project_line_3d, project_persp, rotate_point_y};
pub use rng::{GameRng, GameRngExt, Xorshift64};
pub use transform::{rot2, scale2, scale2_uniform, translate2};
