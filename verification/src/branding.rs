//! The names under which the application is known.

use vstd::prelude::*;

verus! {

/// The product's name, as shown in windows, the tray and notifications.
pub const APP_NAME: &'static str = "Snipd";

/// The folder that holds the configuration and the index of captures.
pub const DATA_DIR_NAME: &'static str = "Snipd";

/// The folder under the user's pictures that captures go to by default.
pub const DEFAULT_SAVE_SUBDIR: &'static str = "Snipd";

/// The project's page.
pub const GITHUB_URL: &'static str = "https://github.com/snipd-app/snipd";

} // verus!
