//! The one call into the font engine.

use vstd::prelude::*;

verus! {

/// Asks the font engine for its loaded faces and gives, for each face in the
/// engine's order, the first of its family names, or `None` for a face that
/// has no family name. The answer is `None` when the engine's lock is
/// poisoned.
///
/// This calls `iced_graphics::text::font_system`, takes the write lock and
/// walks `faces()` of the engine's font database. Nothing is claimed of the
/// answer: it depends on the fonts of the machine and on what the process has
/// loaded so far. The call waits for the lock, so the calling thread must not
/// hold it.
#[verifier::external_body]
pub(crate) fn loaded_faces() -> (faces: Option<Vec<Option<String>>>) {
    match iced_graphics::text::font_system().write() {
        Ok(mut system) => Some(
            system
                .raw()
                .db()
                .faces()
                .map(|face| face.families.first().map(|family| family.0.clone()))
                .collect(),
        ),
        Err(_) => None,
    }
}

} // verus!
