//! How finished text reaches the app the user is in: typed out, or pasted
//! through the clipboard with the user's own clipboard put back afterwards.
use vstd::prelude::*;
use crate::text::{chars_of, char_to_uppercase, same_chars, string_of, upper_of};

verus! {

/// How text is delivered.
#[derive(PartialEq, Eq, Structural)]
pub enum PasteMethod {
    /// Keystroke by keystroke (for remote desktops).
    Type,
    /// Put on the clipboard and pasted with the paste shortcut.
    Clipboard,
}

/// The output mode "type" types the text; any other mode pastes it.
pub fn paste_method(mode: &str) -> (r: PasteMethod)
    ensures
        mode@ == "type"@ ==> r == PasteMethod::Type,
        mode@ != "type"@ ==> r == PasteMethod::Clipboard,
{
    if same_chars(mode, "type") {
        PasteMethod::Type
    } else {
        PasteMethod::Clipboard
    }
}

/// How long the pasted text stays on the clipboard before the user's own
/// contents go back, in ms.
pub const CLIPBOARD_RESTORE_DELAY_MS: u64 = 150;

/// The user's clipboard goes back only if the clipboard still holds what was
/// pasted; someone who copied something meanwhile keeps it.
pub fn should_restore_clipboard(current: Option<&str>, pasted: &str) -> (r: bool)
    ensures
        r == (current matches Some(c) && c@ == pasted@),
{
    match current {
        Some(c) => same_chars(c, pasted),
        None => false,
    }
}

/// An executable's file stem as an app name: its first character uppercased.
pub open spec fn display_name_of(stem: Seq<char>) -> Seq<char> {
    if stem.len() == 0 {
        stem
    } else {
        upper_of(stem[0]) + stem.drop_first()
    }
}

/// The app name shown for an executable whose file stem is `stem`.
pub fn display_name(stem: &str) -> (r: String)
    ensures
        r@ == display_name_of(stem@),
{
    let v = chars_of(stem);
    if v.len() == 0 {
        return stem.to_owned();
    }
    let mut out = chars_of(char_to_uppercase(v[0]).as_str());
    let ghost head = out@;
    let mut i: usize = 1;
    while i < v.len()
        invariant
            1 <= i <= v.len(),
            out@ == head + v@.subrange(1, i as int),
        decreases v.len() - i,
    {
        out.push(v[i]);
        i = i + 1;
        assert(out@ =~= head + v@.subrange(1, i as int));
    }
    assert(v@.subrange(1, v.len() as int) =~= v@.drop_first());
    string_of(&out)
}

} // verus!
