use vstd::prelude::*;

verus! {

/// The property that tells whether the document changed since it was opened.
pub const PROP_DOC_IS_MODIFIED: &'static str = "doc-is-modified";

/// The property that holds the document's file name.
pub const PROP_DOC_FILENAME: &'static str = "doc-filename";

/// The property that holds the cursor's position in the document.
pub const PROP_DOCVIEW_CURSOR_POS: &'static str = "docview-cursor-pos";

/// The property that holds the view's status text.
pub const PROP_DOCVIEW_STATUS: &'static str = "docview-status";

/// The property that tells whether the editor should quit.
pub const PROP_EDITOR_SHOULD_QUIT: &'static str = "editor-should-quit";

} // verus!
