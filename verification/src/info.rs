//! The application's identity as reported over the command surface.

use vstd::prelude::*;

verus! {

/// What the frontend learns about the running application. The host
/// layer fills in the platform fields it alone can see.
pub struct AppInfo {
    pub name: String,
    pub version: String,
    pub tauri_version: String,
    pub platform: String,
}

/// The greeting used to probe the command channel.
pub fn greet(name: &str) -> (r: String)
    ensures
        r@ == "Hello, "@ + name@ + "! Welcome to PlumAi."@,
{
    let mut s = String::from_str("Hello, ");
    s.append(name);
    s.append("! Welcome to PlumAi.");
    s
}

/// The application's identity; the host layer overwrites the platform
/// fields with what it observes.
pub fn get_app_info() -> (r: AppInfo)
    ensures
        r.name@ == "PlumAi"@,
        r.version@ == "0.1.0"@,
{
    AppInfo {
        name: String::from_str("PlumAi"),
        version: String::from_str("0.1.0"),
        tauri_version: String::new(),
        platform: String::new(),
    }
}

} // verus!
