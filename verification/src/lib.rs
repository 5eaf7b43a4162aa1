//! Start-up configuration of a test runner that is hosted as a plugin.
//!
//! The host hands over what it knows as plain values: the defaults that it
//! was built with, whether the run is headless, and the user's argument
//! tokens. [`CliConfig::from_os`] turns the tokens into a record of raw flags
//! or into a [`ConfigError`]; [`RunnerConfig::new`] lays that record over the
//! defaults, and [`RunnerConfig::print_info`] words the summary of the result.
//!
//! Every function carries a contract over sequences of characters, proved by
//! Verus. What holds of all token lists is stated in [`laws`].
//!
//! * [`text`]: prefixes, splitting, joining and centring of text
//! * [`scan`]: finding and taking out the first token of a shape
//! * [`cli`]: the recognised arguments, the raw flags and the rules on them
//! * [`runner`]: the configuration of a run and its summary
//! * [`error`]: the error of a failed configuration step
//! * [`laws`]: what parsing and merging guarantee

pub mod cli;
pub mod error;
pub mod laws;
pub mod runner;
pub mod scan;
pub mod text;

pub use cli::CliConfig;
pub use error::ConfigError;
pub use runner::RunnerConfig;
