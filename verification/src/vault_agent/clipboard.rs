//! Clipboards.
use vstd::prelude::*;
use vstd::string::*;
use crate::vault_ipc::proto::{Error, ErrorView};

verus! {

/// A call of a clipboard, with what it was given or gave.
pub enum ClipboardCall {
    /// A text was set, or was not for an error.
    Wrote(Seq<char>, Result<(), ErrorView>),
    /// The contents were read, where they could be.
    Read(Option<Seq<char>>),
    /// The contents were cleared.
    Cleared,
}

/// What setting a text came to.
pub open spec fn write_result(r: Result<(), Error>) -> Result<(), ErrorView> {
    match r {
        Ok(()) => Ok(()),
        Err(e) => Err(e.deep_view()),
    }
}

/// A clipboard that the agent can write to. The contents are not the agent's
/// alone, so nothing is known of them but what each call gives.
pub trait Backend: Send {
    /// The calls made so far, for proofs alone. A verified implementation must
    /// define it: the default is always empty, and with it none of the contracts
    /// below can be met. Code that is compiled without being verified may leave
    /// it out.
    closed spec fn calls(&self) -> Seq<ClipboardCall> {
        Seq::empty()
    }

    /// The short name, for proofs.
    closed spec fn label(&self) -> Seq<char> {
        Seq::empty()
    }

    /// The short name.
    fn name(&self) -> (r: &'static str)
        ensures
            r@ == self.label(),
    ;

    /// Puts a text on the clipboard.
    fn set_text(&mut self, value: &str) -> (r: Result<(), Error>)
        ensures
            final(self).calls() == old(self).calls().push(
                ClipboardCall::Wrote(value@, write_result(r)),
            ),
            final(self).label() == old(self).label(),
    ;

    /// The text on the clipboard, where it can be read.
    fn get_text(&mut self) -> (r: Option<String>)
        ensures
            final(self).calls() == old(self).calls().push(ClipboardCall::Read(r.deep_view())),
            final(self).label() == old(self).label(),
    ;

    /// Clears the clipboard as far as it can.
    fn clear(&mut self)
        ensures
            final(self).calls() == old(self).calls().push(ClipboardCall::Cleared),
            final(self).label() == old(self).label(),
    ;
}

/// Which clipboard the agent is to use.
#[derive(Clone, Copy, Debug, PartialEq, Eq, Structural)]
pub enum BackendChoice {
    /// The native one where there is one.
    Auto,
    /// The native one.
    Arboard,
    /// None: the client copies through its terminal.
    Osc52,
}

impl Default for BackendChoice {
    fn default() -> (r: Self)
        ensures
            r == BackendChoice::Auto,
    {
        BackendChoice::Auto
    }
}

/// The name of a choice.
pub open spec fn choice_name(c: BackendChoice) -> Seq<char> {
    match c {
        BackendChoice::Auto => "auto"@,
        BackendChoice::Arboard => "arboard"@,
        BackendChoice::Osc52 => "osc52"@,
    }
}

impl BackendChoice {
    /// The name of the choice.
    pub fn as_str(self) -> (r: &'static str)
        ensures
            r@ == choice_name(self),
    {
        match self {
            BackendChoice::Auto => "auto",
            BackendChoice::Arboard => "arboard",
            BackendChoice::Osc52 => "osc52",
        }
    }

    /// Whether the native clipboard is to be looked for.
    pub fn wants_native(self) -> (b: bool)
        ensures
            b == (self != BackendChoice::Osc52),
    {
        match self {
            BackendChoice::Osc52 => false,
            _ => true,
        }
    }
}

/// The clipboard for a choice: the native one that was found, unless the
/// client copies through its terminal.
pub fn select(choice: BackendChoice, native: Option<Box<dyn Backend>>) -> (r: Option<
    Box<dyn Backend>,
>)
    ensures
        choice == BackendChoice::Osc52 ==> r is None,
        choice != BackendChoice::Osc52 ==> r == native,
{
    if choice.wants_native() {
        native
    } else {
        None
    }
}

/// Whether the clipboard is to be cleared of `written`: it still holds it, or
/// cannot be read.
pub open spec fn clear_due(current: Option<Seq<char>>, written: Seq<char>) -> bool {
    match current {
        None => true,
        Some(c) => c == written,
    }
}

/// Whether the clipboard is to be cleared of `written`: it still holds it, or
/// cannot be read.
pub fn should_clear_clipboard(current: Option<&str>, written: &str) -> (b: bool)
    ensures
        b == clear_due(
            match current {
                Some(c) => Some(c@),
                None => None,
            },
            written@,
        ),
{
    match current {
        None => true,
        Some(c) => crate::text::same_text(c, written),
    }
}

/// The clipboard is cleared of a value where it still holds it or does not
/// tell what it holds, and left alone where it holds something else.
pub proof fn only_what_was_copied_is_cleared(written: Seq<char>, other: Seq<char>)
    ensures
        clear_due(Some(written), written),
        clear_due(None, written),
        other != written ==> !clear_due(Some(other), written),
{
}

/// No two choices have the same name.
pub proof fn choices_are_told_apart(a: BackendChoice, b: BackendChoice)
    ensures
        choice_name(a) == choice_name(b) ==> a == b,
        choice_name(BackendChoice::Auto) == "auto"@,
        choice_name(BackendChoice::Arboard) == "arboard"@,
        choice_name(BackendChoice::Osc52) == "osc52"@,
{
    reveal_strlit("auto");
    reveal_strlit("arboard");
    reveal_strlit("osc52");
    assert("auto"@.len() == 4 && "arboard"@.len() == 7 && "osc52"@.len() == 5);
}

} // verus!
