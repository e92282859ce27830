//! Shared user-interface resources for browser and desktop delivery.
//!
//! The frontends render the same interface views and do not own business state,
//! approval policy, or execution permissions.
use crate::text::same;
use vstd::prelude::*;

verus! {

pub const JAVASCRIPT: &'static str = "text/javascript; charset=utf-8";

pub open spec fn is_script(name: Seq<char>) -> bool {
    ||| name == "app.js"@ || name == "api.js"@ || name == "dom.js"@ || name == "history.js"@ || name == "monitoring.js"@
    ||| name == "plugin-monitoring.js"@ || name == "project-logs.js"@ || name == "refresh.js"@ || name == "data.js"@
    ||| name == "shell.js"@
}

/// The media type of a resource, if there is one of this name.
pub open spec fn media_type(name: Seq<char>) -> Option<Seq<char>> {
    if name == "index.html"@ {
        Some("text/html; charset=utf-8"@)
    } else if name == "styles.css"@ {
        Some("text/css; charset=utf-8"@)
    } else if is_script(name) {
        Some(JAVASCRIPT@)
    } else if name == "favicon.svg"@ {
        Some("image/svg+xml"@)
    } else if name == "favicon.ico"@ {
        Some("image/x-icon"@)
    } else {
        None
    }
}

/// The sole catalog of resources: nothing else is ever served.
pub fn asset(name: &str) -> (r: Option<&'static str>)
    ensures
        match r {
            Some(t) => media_type(name@) == Some(t@),
            None => media_type(name@) is None,
        },
{
    if same(name, "index.html") {
        Some("text/html; charset=utf-8")
    } else if same(name, "styles.css") {
        Some("text/css; charset=utf-8")
    } else if same(name, "app.js") || same(name, "api.js") || same(name, "dom.js") || same(name, "history.js") || same(
        name,
        "monitoring.js",
    ) || same(name, "plugin-monitoring.js") || same(name, "project-logs.js") || same(name, "refresh.js") || same(name, "data.js")
        || same(name, "shell.js") {
        Some(JAVASCRIPT)
    } else if same(name, "favicon.svg") {
        Some("image/svg+xml")
    } else if same(name, "favicon.ico") {
        Some("image/x-icon")
    } else {
        None
    }
}

} // verus!
