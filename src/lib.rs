//! Runtime core of an on-screen shell: the registry of floating windows,
//! the system-mode state machine and its event handling, translation
//! lookups, and the hit-testing of the radial and directional widgets.
use vstd::prelude::*;

pub mod intl;
pub mod login;
pub mod navarrows;
pub mod piemenu;
pub mod registry;
pub mod session;
pub mod text;

pub use intl::{Dictionary, IntlError, TranslationCache, TranslationEntry, TranslationFile};
pub use login::{LoginDestination, LoginDialogInput, LoginParams};
pub use navarrows::{NavAction, PadOverlay};
pub use piemenu::{ClickAction, PieMenuState};
pub use registry::{DuplicateIdError, IdCounter, NewWindows, WindowId, WindowPainter, WindowRegistry};
pub use session::{
    Action, AppState, BusEvent, GridSelectParamsData, GuiCommonEvent, GuiEvent, MenuKind, MenuNone,
    Session, SystemMode,
};
pub use text::first_n_chars;

verus! {

} // verus!
