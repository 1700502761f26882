//! Options and delivery decisions of the `encode` command.

use vstd::prelude::*;

use crate::commands::capture::PreviewPosition;
use crate::notifications::{truncate_for_toast, truncated_for_toast, NativeNotification};

verus! {

/// Minimum encoded QR image size in pixels per side.
pub const MIN_QR_PIXEL_SIZE: u32 = 512;

/// Where the text to encode comes from.
#[derive(Debug, Clone, Copy, PartialEq, Eq, Structural)]
pub enum EncodeSource {
    Clipboard,
    Stdin,
    Text,
    File,
}

impl Default for EncodeSource {
    fn default() -> (r: Self)
        ensures
            r == EncodeSource::Clipboard,
    {
        EncodeSource::Clipboard
    }
}

/// QR error-correction level.
#[derive(Debug, Clone, Copy, PartialEq, Eq, Structural)]
pub enum EncodeEcc {
    M,
    L,
    Q,
    H,
}

impl Default for EncodeEcc {
    fn default() -> (r: Self)
        ensures
            r == EncodeEcc::M,
    {
        EncodeEcc::M
    }
}

/// How the encoded QR code is delivered.
#[derive(Debug, Clone, Copy, PartialEq, Eq, Structural)]
pub enum EncodeDeliver {
    /// Show square preview window only (default).
    Preview,
    /// Show preview and copy QR image to clipboard.
    PreviewCopy,
    /// Copy QR image to clipboard without preview.
    Copy,
    /// Render compact Unicode QR in terminal stdout.
    Terminal,
}

impl Default for EncodeDeliver {
    fn default() -> (r: Self)
        ensures
            r == EncodeDeliver::Preview,
    {
        EncodeDeliver::Preview
    }
}

impl EncodeDeliver {
    /// The QR code is shown in a preview window.
    pub fn shows_preview(self) -> (r: bool)
        ensures
            r == (self == EncodeDeliver::Preview || self == EncodeDeliver::PreviewCopy),
    {
        match self {
            EncodeDeliver::Preview | EncodeDeliver::PreviewCopy => true,
            _ => false,
        }
    }

    /// The QR image is copied to the clipboard.
    pub fn copies_image(self) -> (r: bool)
        ensures
            r == (self == EncodeDeliver::PreviewCopy || self == EncodeDeliver::Copy),
    {
        match self {
            EncodeDeliver::PreviewCopy | EncodeDeliver::Copy => true,
            _ => false,
        }
    }

    /// The QR code is printed on the terminal.
    pub fn is_terminal(self) -> (r: bool)
        ensures
            r == (self == EncodeDeliver::Terminal),
    {
        match self {
            EncodeDeliver::Terminal => true,
            _ => false,
        }
    }
}

/// Options of the `encode` command (paths as text).
#[derive(Debug, Clone)]
pub struct EncodeArgs {
    pub source: EncodeSource,
    pub preview_position: PreviewPosition,
    pub ecc: EncodeEcc,
    pub deliver: EncodeDeliver,
    pub notify: bool,
    pub verbose: bool,
    pub output: Option<String>,
    pub input_text: Option<String>,
    pub text: Option<String>,
    pub file: Option<String>,
}

/// Error when `--source text` has no text.
pub const NO_TEXT_TO_ENCODE: &'static str = "no text provided for encoding";

/// Error when `--source file` has no file.
pub const NO_FILE_TO_ENCODE: &'static str = "no file provided for encoding";

/// The text encoded for `--source text`: `--text`, else the positional input.
pub fn text_source_payload(text: Option<String>, input_text: Option<String>) -> (r: Result<
    String,
    String,
>)
    ensures
        match (text, input_text) {
            (Some(t), _) => r == Ok::<String, String>(t),
            (None, Some(i)) => r == Ok::<String, String>(i),
            (None, None) => r matches Err(m) && m@ == NO_TEXT_TO_ENCODE@,
        },
{
    match text {
        Some(t) => Ok(t),
        None => match input_text {
            Some(i) => Ok(i),
            None => Err(NO_TEXT_TO_ENCODE.to_owned()),
        },
    }
}

/// The file read for `--source file`.
pub fn file_source_path(file: Option<String>) -> (r: Result<String, String>)
    ensures
        match file {
            Some(f) => r == Ok::<String, String>(f),
            None => r matches Err(m) && m@ == NO_FILE_TO_ENCODE@,
        },
{
    match file {
        Some(f) => Ok(f),
        None => Err(NO_FILE_TO_ENCODE.to_owned()),
    }
}

/// Spec: number of trailing `\r` / `\n` characters of `s`.
pub open spec fn trailing_newlines(s: Seq<char>) -> nat
    decreases s.len(),
{
    if s.len() > 0 && (s.last() == '\r' || s.last() == '\n') {
        1 + trailing_newlines(s.drop_last())
    } else {
        0
    }
}

/// Text read from stdin with its trailing line breaks (`\r`, `\n`) removed.
pub fn trim_stdin_payload(input: &str) -> (r: String)
    ensures
        r@ == input@.take(input@.len() - trailing_newlines(input@)),
{
    let cs = crate::text::chars_of(input);
    let mut end = cs.len();
    proof {
        assert(cs@.take(cs@.len() as int) =~= cs@);
    }
    while end > 0 && (cs[end - 1] == '\r' || cs[end - 1] == '\n')
        invariant
            end <= cs@.len(),
            cs@ == input@,
            trailing_newlines(input@) == (cs@.len() - end) + trailing_newlines(
                cs@.take(end as int),
            ),
        decreases end,
    {
        proof {
            assert(cs@.take(end as int).drop_last() =~= cs@.take(end - 1));
        }
        end -= 1;
    }
    proof {
        assert(cs@.take(cs@.len() as int) =~= cs@);
    }
    crate::text::string_from_range(&cs, 0, end)
}

/// What `encode` does after the QR image was made.
#[derive(Debug, Clone, Copy, PartialEq, Eq, Structural)]
pub struct EncodePlan {
    pub save_image: bool,
    pub copy_image: bool,
    pub notify: bool,
    pub show_preview: bool,
    pub print_terminal: bool,
}

/// Decide the delivery steps of `encode`: save when an output path is given,
/// copy and notify for the copying modes, then either preview or print.
pub fn encode_delivery_plan(deliver: EncodeDeliver, notify: bool, has_output: bool) -> (r:
    EncodePlan)
    ensures
        r.save_image == has_output,
        r.copy_image == (deliver == EncodeDeliver::PreviewCopy || deliver == EncodeDeliver::Copy),
        r.notify == (notify && r.copy_image),
        r.show_preview == (deliver == EncodeDeliver::Preview || deliver
            == EncodeDeliver::PreviewCopy),
        r.print_terminal == (deliver == EncodeDeliver::Terminal),
{
    let copy_image = deliver.copies_image();
    let show_preview = deliver.shows_preview();
    EncodePlan {
        save_image: has_output,
        copy_image,
        notify: notify && copy_image,
        show_preview,
        print_terminal: !show_preview && deliver.is_terminal(),
    }
}

/// Title of the toast confirming an encode.
pub const ENCODE_TOAST_TITLE: &'static str = "VisioFlow QR";

/// The toast confirming that the QR image of `payload` was copied.
pub fn encode_success_notification(payload: &str) -> (note: NativeNotification)
    ensures
        note.title@ == ENCODE_TOAST_TITLE@,
        note.body@ == "QR copied — "@ + truncated_for_toast(payload@, 256),
        note.copy_payload is None,
        note.already_copied,
{
    let body = truncate_for_toast(payload, 256);
    let mut text = "QR copied — ".to_owned();
    text.append(body.as_str());
    NativeNotification {
        title: ENCODE_TOAST_TITLE.to_owned(),
        body: text,
        copy_payload: None,
        already_copied: true,
    }
}

} // verus!
