pub mod api_server;
pub mod challenge;
pub mod errors;
pub mod prediction;
pub mod registry;

pub use challenge::CaptchaChallenge;
pub use prediction::Prediction;
pub use registry::CaptchaRegistry;
pub use registry::ModelDirectory;
