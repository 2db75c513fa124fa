//! A fixed-size worker pool whose scheduling decisions are verified, together
//! with small verified utilities: a string splitter, a line search, a blog
//! post workflow and a quota tracker.

pub mod pool;
pub mod text;
pub mod strsplit;
pub mod grep;
pub mod blog;
pub mod limits;
pub mod guessing;
pub mod stats;
pub mod departments;
pub mod summary;
pub mod closures;
pub mod generics;
pub mod ownership;
pub mod shapes;
pub mod restaurant;
