//! When the palettes have to be read again.

use crate::text;
use vstd::prelude::*;

verus! {

/// What happened to a file.
#[derive(Debug, Clone, Copy, PartialEq, Eq, Structural)]
pub enum ChangeKind {
    /// Something, and it is not known what.
    Any,
    Access,
    Create,
    Modify,
    Remove,
    Other,
}

/// Whether a file with that extension is a palette or a theme.
pub open spec fn is_theme_file(extension: Option<String>) -> bool {
    extension matches Some(e) && (e@ == "json"@ || e@ == "css"@)
}

/// Whether what happened may have changed a palette or a theme, by the
/// extensions of the files that it happened to. Files that only exist while
/// another is being written have other extensions.
pub fn is_palette_change(kind: ChangeKind, extensions: &Vec<Option<String>>) -> (r: bool)
    ensures
        r == ((kind == ChangeKind::Any || kind == ChangeKind::Create || kind == ChangeKind::Modify
            || kind == ChangeKind::Remove) && exists|i: int|
            0 <= i < extensions@.len() && is_theme_file(#[trigger] extensions@[i])),
{
    match kind {
        ChangeKind::Access | ChangeKind::Other => {
            return false;
        },
        ChangeKind::Any | ChangeKind::Create | ChangeKind::Modify | ChangeKind::Remove => {},
    }
    for i in 0..extensions.len()
        invariant
            kind == ChangeKind::Any || kind == ChangeKind::Create || kind == ChangeKind::Modify
                || kind == ChangeKind::Remove,
            forall|j: int| 0 <= j < i ==> !is_theme_file(#[trigger] extensions@[j]),
    {
        match &extensions[i] {
            Some(e) => {
                if text::same(e.as_str(), "json") || text::same(e.as_str(), "css") {
                    assert(is_theme_file(extensions@[i as int]));
                    return true;
                }
            },
            None => {},
        }
    }
    false
}

/// Palettes and themes are the files whose extension is `json` or `css`.
pub proof fn law_theme_files_are_known_by_extension(extension: Option<String>)
    ensures
        extension is None ==> !is_theme_file(extension),
        extension matches Some(e) ==> is_theme_file(extension) == (e@ == "json"@ || e@ == "css"@),
{
}

} // verus!
