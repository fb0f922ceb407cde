//! The clipboard capability module: set text, get text, and get an image.
//! Every operation independently acquires the system clipboard and releases
//! it before returning — no handle is retained across calls, so no state
//! leaks from one call, or one session, to the next.
use vstd::prelude::*;

verus! {

#[verifier::external_type_specification]
#[verifier::external_body]
pub struct ExClipboard(arboard::Clipboard);

/// An image taken from the clipboard: its dimensions and its raw RGBA
/// bytes.
pub struct ClipboardImage {
    pub width: usize,
    pub height: usize,
    pub bytes: Vec<u8>,
}

/// Relies on arboard::Clipboard::new: acquires the system clipboard; the
/// outcome depends on the platform.
#[verifier::external_body]
fn open_clipboard() -> (r: Result<arboard::Clipboard, String>) {
    arboard::Clipboard::new().map_err(|e| e.to_string())
}

/// Relies on arboard::Clipboard::set_text.
#[verifier::external_body]
fn set_text_raw(clipboard: &mut arboard::Clipboard, text: String) -> (r: Result<(), String>) {
    clipboard.set_text(text).map_err(|e| e.to_string())
}

/// Relies on arboard::Clipboard::get_text.
#[verifier::external_body]
fn get_text_raw(clipboard: &mut arboard::Clipboard) -> (r: Result<String, String>) {
    clipboard.get_text().map_err(|e| e.to_string())
}

/// Relies on arboard::Clipboard::get_image: the image is converted to its
/// owned RGBA bytes and dimensions.
#[verifier::external_body]
fn get_image_raw(clipboard: &mut arboard::Clipboard) -> (r: Result<ClipboardImage, String>) {
    match clipboard.get_image() {
        Ok(image) => Ok(
            ClipboardImage {
                width: image.width,
                height: image.height,
                bytes: image.bytes.into_owned(),
            },
        ),
        Err(e) => Err(e.to_string()),
    }
}

/// Place `text` on the system clipboard.  The clipboard is acquired and
/// released within this one call.
pub fn set_text(text: String) -> (r: Result<(), String>) {
    match open_clipboard() {
        Ok(mut clipboard) => set_text_raw(&mut clipboard, text),
        Err(m) => Err(m),
    }
}

/// Read the system clipboard's text.  The clipboard is acquired and
/// released within this one call.
pub fn get_text() -> (r: Result<String, String>) {
    match open_clipboard() {
        Ok(mut clipboard) => get_text_raw(&mut clipboard),
        Err(m) => Err(m),
    }
}

/// Read the system clipboard's image.  The clipboard is acquired and
/// released within this one call.
pub fn get_image() -> (r: Result<ClipboardImage, String>) {
    match open_clipboard() {
        Ok(mut clipboard) => get_image_raw(&mut clipboard),
        Err(m) => Err(m),
    }
}

} // verus!
