pub mod progress;

pub use progress::{PackageProgress, ProgressState};
