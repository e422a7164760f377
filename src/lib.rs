pub mod discovery;
pub mod model;
pub mod normalize;
pub mod pattern;
pub mod review;
pub mod text;
