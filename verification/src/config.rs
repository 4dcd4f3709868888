//! The plugin's configuration: the distribution URL template, with the
//! public archive as its default.

use vstd::prelude::*;

verus! {

/// Configuration of the distribution source. The template carries the four
/// placeholders `{channel}`, `{version}`, `{platform}` and `{arch}`.
#[derive(Debug)]
pub struct DartPluginConfig {
    pub dist_url: String,
}

/// The default template, pointing at the public archive.
pub open spec fn default_dist_url_chars() -> Seq<char> {
    "https://storage.googleapis.com/dart-archive/channels/{channel}/release/{version}/sdk/dartsdk-{platform}-{arch}-release.zip"@
}

impl Default for DartPluginConfig {
    /// The configuration with the default template.
    fn default() -> (r: Self)
        ensures
            r.dist_url@ == default_dist_url_chars(),
    {
        DartPluginConfig {
            dist_url: String::from_str(
                "https://storage.googleapis.com/dart-archive/channels/{channel}/release/{version}/sdk/dartsdk-{platform}-{arch}-release.zip",
            ),
        }
    }
}

} // verus!
