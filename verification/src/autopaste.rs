//! Pasting into the frontmost application by a synthesized key press.
use vstd::prelude::*;

verus! {

/// Virtual key code of the letter V.
pub const KEYCODE_V: u16 = 0x09;

/// Why nothing was pasted.
#[derive(Debug, Clone, Copy, PartialEq, Eq, Structural)]
pub enum AutoPasteError {
    NotTrusted,
    EventCreate,
}

impl AutoPasteError {
    /// The error in words.
    pub open spec fn text(self) -> Seq<char> {
        match self {
            AutoPasteError::NotTrusted =>
                "Accessibility permission required (System Settings → Privacy → Accessibility)"@,
            AutoPasteError::EventCreate => "failed to create keyboard event"@,
        }
    }

    /// The error in words.
    pub fn message(self) -> (r: String)
        ensures
            r@ == self.text(),
    {
        match self {
            AutoPasteError::NotTrusted =>
                "Accessibility permission required (System Settings → Privacy → Accessibility)".to_owned(),
            AutoPasteError::EventCreate => "failed to create keyboard event".to_owned(),
        }
    }
}

/// Whether the key press can be posted: the process must be trusted, and the
/// event source and both key events must exist. Events are made only where
/// the process is trusted.
pub fn paste_cmd_v(
    trusted: bool,
    source_made: bool,
    key_down_made: bool,
    key_up_made: bool,
) -> (r: Result<(), AutoPasteError>)
    ensures
        r == (if !trusted {
            Err::<(), AutoPasteError>(AutoPasteError::NotTrusted)
        } else if source_made && key_down_made && key_up_made {
            Ok(())
        } else {
            Err(AutoPasteError::EventCreate)
        }),
{
    if !trusted {
        return Err(AutoPasteError::NotTrusted);
    }
    if source_made && key_down_made && key_up_made {
        Ok(())
    } else {
        Err(AutoPasteError::EventCreate)
    }
}

/// How far a paste is, with what its last step came to.
#[derive(Debug, Clone, Copy, PartialEq, Eq)]
pub enum PasteState {
    /// The first attempt was made.
    Tried(Result<(), AutoPasteError>),
    /// The user was asked for the permission; whether it is there now.
    Asked(bool),
    /// The second attempt was made.
    TriedAgain(Result<(), AutoPasteError>),
}

/// What comes next in a paste.
#[derive(Debug, Clone, Copy, PartialEq, Eq)]
pub enum PasteNext {
    /// Ask for the permission and see whether it is there.
    Ask,
    /// Try once more.
    TryAgain,
    /// The paste is over.
    Finished(Result<(), AutoPasteError>),
}

/// How a paste goes on.
pub open spec fn paste_next(state: PasteState) -> PasteNext {
    match state {
        PasteState::Tried(r) => if r == Err::<(), AutoPasteError>(AutoPasteError::NotTrusted) {
            PasteNext::Ask
        } else {
            PasteNext::Finished(r)
        },
        PasteState::Asked(trusted) => if trusted {
            PasteNext::TryAgain
        } else {
            PasteNext::Finished(Err(AutoPasteError::NotTrusted))
        },
        PasteState::TriedAgain(r) => PasteNext::Finished(r),
    }
}

/// Goes on with a paste: where the permission is missing, the user is asked
/// for it once, and the paste is tried once more where it was granted.
pub fn paste_cmd_v_or_prompt(state: PasteState) -> (r: PasteNext)
    ensures
        r == paste_next(state),
{
    match state {
        PasteState::Tried(r) => match r {
            Err(e) => {
                if e == AutoPasteError::NotTrusted {
                    PasteNext::Ask
                } else {
                    PasteNext::Finished(r)
                }
            },
            Ok(_) => PasteNext::Finished(r),
        },
        PasteState::Asked(trusted) => {
            if trusted {
                PasteNext::TryAgain
            } else {
                PasteNext::Finished(Err(AutoPasteError::NotTrusted))
            }
        },
        PasteState::TriedAgain(r) => PasteNext::Finished(r),
    }
}

/// The user is asked at most once, and no more than two attempts are made.
pub proof fn law_asked_once(state: PasteState)
    ensures
        paste_next(state) == PasteNext::Ask ==> state is Tried,
        paste_next(state) == PasteNext::TryAgain ==> state is Asked,
        state is TriedAgain ==> paste_next(state) is Finished,
{
}

/// A paste that succeeded is over, and so is one that failed for another
/// reason than a missing permission. A missing permission is asked for after
/// the first attempt and only then, and what the second attempt came to is what
/// the paste came to.
pub proof fn law_paste_outcome(r: Result<(), AutoPasteError>, granted: bool)
    ensures
        r is Ok ==> paste_next(PasteState::Tried(r)) == PasteNext::Finished(r),
        r is Err ==> (paste_next(PasteState::Tried(r)) == PasteNext::Ask <==> r->Err_0
            == AutoPasteError::NotTrusted),
        r == Err::<(), AutoPasteError>(AutoPasteError::EventCreate) ==> paste_next(
            PasteState::Tried(r),
        ) == PasteNext::Finished(r),
        granted ==> paste_next(PasteState::Asked(granted)) == PasteNext::TryAgain,
        !granted ==> paste_next(PasteState::Asked(granted)) == PasteNext::Finished(
            Err(AutoPasteError::NotTrusted),
        ),
        paste_next(PasteState::TriedAgain(r)) == PasteNext::Finished(r),
{
}

/// What the user is told: which permission is missing, or that no key event
/// could be made.
pub proof fn law_error_texts(e: AutoPasteError)
    ensures
        e == AutoPasteError::NotTrusted ==> e.text()
            == "Accessibility permission required (System Settings → Privacy → Accessibility)"@,
        e == AutoPasteError::EventCreate ==> e.text() == "failed to create keyboard event"@,
{
}

} // verus!
