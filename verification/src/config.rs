//! The settings of a scan.

use vstd::prelude::*;

verus! {

/// What a scan is told: where to look, which files to take, how to rewrite
/// their paths for display, and where the table is kept.
#[derive(Clone, Debug, PartialEq, Eq)]
pub struct Config {
    /// Directory under which files are looked for.
    pub source_root: String,
    /// Where the table of images is kept.
    pub dest_location: String,
    /// What stands in a display path in place of the source root.
    pub http_prefix: String,
    /// Extension that a file must have, without the dot.
    pub extension_filter: String,
}

/// A [`Config`] as a mathematical value.
pub struct ConfigView {
    pub source_root: Seq<char>,
    pub dest_location: Seq<char>,
    pub http_prefix: Seq<char>,
    pub extension_filter: Seq<char>,
}

impl View for Config {
    type V = ConfigView;

    open spec fn view(&self) -> ConfigView {
        ConfigView {
            source_root: self.source_root@,
            dest_location: self.dest_location@,
            http_prefix: self.http_prefix@,
            extension_filter: self.extension_filter@,
        }
    }
}

impl Config {
    /// The settings of the slideshow installation: JPEG files under the
    /// pictures directory, served under `/static/`.
    pub fn standard() -> (config: Config)
        ensures
            config@.source_root == "/home/pi/Pictures/test2/"@,
            config@.dest_location == "/home/pi/go/slideshowgodocker/DB/imagesDB"@,
            config@.http_prefix == "/static/"@,
            config@.extension_filter == "jpg"@,
    {
        Config {
            source_root: String::from_str("/home/pi/Pictures/test2/"),
            dest_location: String::from_str("/home/pi/go/slideshowgodocker/DB/imagesDB"),
            http_prefix: String::from_str("/static/"),
            extension_filter: String::from_str("jpg"),
        }
    }
}

} // verus!
