//! The application's identity, file names, defaults and timings, in one place.
use vstd::prelude::*;

verus! {

/// The program name.
pub const APP_NAME: &'static str = "helios";

/// The program name as displayed.
pub const APP_NAME_DISPLAY: &'static str = "Helios";

/// The program version.
pub const APP_VERSION: &'static str = "1.0.0";

/// The one-line description of the program.
pub const APP_ABOUT: &'static str = "Helios - A blazing-fast terminal API client";

/// The qualifier of the data directory (`directories::ProjectDirs::from`).
pub const APP_QUALIFIER: &'static str = "com";

/// The organization of the data directory.
pub const APP_ORGANIZATION: &'static str = "helios";

/// The application of the data directory.
pub const APP_APPLICATION: &'static str = "helios";

/// The file the application data is stored in.
pub const DATA_FILE_NAME: &'static str = "data.json";

/// Where the binary is installed.
pub const INSTALL_DIR: &'static str = "/usr/local/bin";

/// The name of the installed binary.
pub const BINARY_NAME: &'static str = "helios";

/// The URL a new request starts with.
pub const DEFAULT_URL: &'static str = "https://httpbin.org/get";

/// The user agent requests are sent with.
pub const DEFAULT_USER_AGENT: &'static str = "Helios/1.0";

/// Background colour.
pub const BG_HEX: &'static str = "#14141E";

/// Surface colour.
pub const SURFACE_HEX: &'static str = "#1E1E2D";

/// Accent colour.
pub const ACCENT_HEX: &'static str = "#B48CFF";

/// Border colour.
pub const BORDER_HEX: &'static str = "#8C64FF";

/// Text colour.
pub const TEXT_HEX: &'static str = "#DCDCF0";

/// Dimmed text colour.
pub const TEXT_DIM_HEX: &'static str = "#6C6C8A";

/// Success colour.
pub const SUCCESS_HEX: &'static str = "#50FA7B";

/// Warning colour.
pub const WARN_HEX: &'static str = "#FFB86C";

/// Error colour.
pub const ERROR_HEX: &'static str = "#FF5555";

/// How long the window prefix key stays armed, in ticks (about 50 ms each).
pub const WINDOW_PREFIX_TIMEOUT_TICKS: u64 = 120;

/// How long a status message stays, in ticks.
pub const STATUS_MESSAGE_TIMEOUT_TICKS: u64 = 120;

} // verus!
