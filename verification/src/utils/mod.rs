pub mod config;
pub mod extractor;
pub mod formatter;

pub use config::MetaConfig;
pub use extractor::EventDataExtractor;
pub use formatter::{format_wasm_traceback, WasmTracebackFormatter};
