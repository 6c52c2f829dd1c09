//! The path under which a file is shown.

use vstd::prelude::*;

use crate::config::Config;
use crate::text::{chars_of, starts_with};

verus! {

/// The display path of `path`: where `path` begins with `source_root`, that
/// prefix is replaced by `http_prefix`; any other path stays as it is.
pub open spec fn display_path(
    path: Seq<char>,
    source_root: Seq<char>,
    http_prefix: Seq<char>,
) -> Seq<char> {
    if source_root.is_prefix_of(path) {
        http_prefix + path.skip(source_root.len() as int)
    } else {
        path
    }
}

/// Rewrites a file path into the path under which the file is served.
pub fn create_http_path(fpath: &str, config: &Config) -> (http: String)
    ensures
        http@ == display_path(fpath@, config@.source_root, config@.http_prefix),
{
    let path = chars_of(fpath);
    let root = chars_of(config.source_root.as_str());
    if starts_with(&path, &root) {
        let rest = fpath.substring_char(root.len(), path.len());
        assert(rest@ =~= fpath@.skip(root.len() as int));
        String::from_str(config.http_prefix.as_str()).concat(rest)
    } else {
        String::from_str(fpath)
    }
}

/// A path under the source root is shown under the prefix, with what follows
/// the root unchanged; a path elsewhere is shown as it is.
pub proof fn lemma_display_path(rest: Seq<char>, source_root: Seq<char>, http_prefix: Seq<char>)
    ensures
        display_path(source_root + rest, source_root, http_prefix) == http_prefix + rest,
        forall|path: Seq<char>|
            !source_root.is_prefix_of(path) ==> #[trigger] display_path(
                path,
                source_root,
                http_prefix,
            ) == path,
{
    let path = source_root + rest;
    assert(path.subrange(0, source_root.len() as int) =~= source_root);
    assert(path.skip(source_root.len() as int) =~= rest);
}

} // verus!
