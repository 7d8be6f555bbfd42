//! Key codes and process creation flags of the Windows API.
//!
//! The values are read from `windows_sys`; the contracts say what they are.
use vstd::prelude::*;
use windows_sys::Win32::System::Threading::{
    CREATE_BREAKAWAY_FROM_JOB, CREATE_NEW_PROCESS_GROUP, CREATE_NO_WINDOW, DETACHED_PROCESS,
};
use windows_sys::Win32::UI::Input::KeyboardAndMouse::{
    VK_BACK, VK_DELETE, VK_DOWN, VK_END, VK_ESCAPE, VK_F15, VK_HOME, VK_INSERT, VK_LCONTROL,
    VK_LEFT, VK_LMENU, VK_LSHIFT, VK_LWIN, VK_NEXT, VK_OEM_1, VK_OEM_2, VK_OEM_3, VK_OEM_4,
    VK_OEM_5, VK_OEM_6, VK_OEM_7, VK_OEM_COMMA, VK_OEM_MINUS, VK_OEM_PERIOD, VK_OEM_PLUS, VK_PRIOR,
    VK_RETURN, VK_RIGHT, VK_SPACE, VK_TAB, VK_UP,
};

verus! {

/// The left-hand modifier keys.
#[derive(Debug, PartialEq, Eq)]
pub struct ModifierKeys {
    pub control: u16,
    pub shift: u16,
    pub alt: u16,
    pub win: u16,
}

/// The codes of the modifier keys.
pub open spec fn modifier_codes() -> ModifierKeys {
    ModifierKeys { control: 0xA2, shift: 0xA0, alt: 0xA4, win: 0x5B }
}

/// The constants `VK_LCONTROL`, `VK_LSHIFT`, `VK_LMENU` and `VK_LWIN` of
/// `windows_sys` have the values that `modifier_codes` gives them.
#[verifier::external_body]
pub(crate) fn modifier_keys() -> (keys: ModifierKeys)
    ensures
        keys == modifier_codes(),
{
    ModifierKeys { control: VK_LCONTROL, shift: VK_LSHIFT, alt: VK_LMENU, win: VK_LWIN }
}

/// The keys that carry a punctuation mark, by the mark of a US layout.
#[derive(Debug, PartialEq, Eq)]
pub struct PunctuationKeys {
    pub slash: u16,
    pub semicolon: u16,
    pub quote: u16,
    pub open_bracket: u16,
    pub close_bracket: u16,
    pub backslash: u16,
    pub comma: u16,
    pub period: u16,
    pub minus: u16,
    pub equals: u16,
    pub backtick: u16,
}

/// The codes of the punctuation keys.
pub open spec fn punctuation_codes() -> PunctuationKeys {
    PunctuationKeys {
        slash: 0xBF,
        semicolon: 0xBA,
        quote: 0xDE,
        open_bracket: 0xDB,
        close_bracket: 0xDD,
        backslash: 0xDC,
        comma: 0xBC,
        period: 0xBE,
        minus: 0xBD,
        equals: 0xBB,
        backtick: 0xC0,
    }
}

/// The constants `VK_OEM_1` to `VK_OEM_7`, `VK_OEM_COMMA`, `VK_OEM_PERIOD`,
/// `VK_OEM_MINUS` and `VK_OEM_PLUS` of `windows_sys` have the values that
/// `punctuation_codes` gives them.
#[verifier::external_body]
pub(crate) fn punctuation_keys() -> (keys: PunctuationKeys)
    ensures
        keys == punctuation_codes(),
{
    PunctuationKeys {
        slash: VK_OEM_2,
        semicolon: VK_OEM_1,
        quote: VK_OEM_7,
        open_bracket: VK_OEM_4,
        close_bracket: VK_OEM_6,
        backslash: VK_OEM_5,
        comma: VK_OEM_COMMA,
        period: VK_OEM_PERIOD,
        minus: VK_OEM_MINUS,
        equals: VK_OEM_PLUS,
        backtick: VK_OEM_3,
    }
}

/// The keys that write or erase text, and the phantom key `f15`.
#[derive(Debug, PartialEq, Eq)]
pub struct EditKeys {
    pub enter: u16,
    pub escape: u16,
    pub tab: u16,
    pub space: u16,
    pub backspace: u16,
    pub delete: u16,
    pub insert: u16,
    pub f15: u16,
}

/// The codes of the editing keys.
pub open spec fn edit_codes() -> EditKeys {
    EditKeys {
        enter: 0x0D,
        escape: 0x1B,
        tab: 0x09,
        space: 0x20,
        backspace: 0x08,
        delete: 0x2E,
        insert: 0x2D,
        f15: 0x7E,
    }
}

/// The constants `VK_RETURN`, `VK_ESCAPE`, `VK_TAB`, `VK_SPACE`, `VK_BACK`,
/// `VK_DELETE`, `VK_INSERT` and `VK_F15` of `windows_sys` have the values that
/// `edit_codes` gives them.
#[verifier::external_body]
pub(crate) fn edit_keys() -> (keys: EditKeys)
    ensures
        keys == edit_codes(),
{
    EditKeys {
        enter: VK_RETURN,
        escape: VK_ESCAPE,
        tab: VK_TAB,
        space: VK_SPACE,
        backspace: VK_BACK,
        delete: VK_DELETE,
        insert: VK_INSERT,
        f15: VK_F15,
    }
}

/// The keys that move the cursor.
#[derive(Debug, PartialEq, Eq)]
pub struct CursorKeys {
    pub home: u16,
    pub end: u16,
    pub page_up: u16,
    pub page_down: u16,
    pub up: u16,
    pub down: u16,
    pub left: u16,
    pub right: u16,
}

/// The codes of the cursor keys.
pub open spec fn cursor_codes() -> CursorKeys {
    CursorKeys {
        home: 0x24,
        end: 0x23,
        page_up: 0x21,
        page_down: 0x22,
        up: 0x26,
        down: 0x28,
        left: 0x25,
        right: 0x27,
    }
}

/// The constants `VK_HOME`, `VK_END`, `VK_PRIOR`, `VK_NEXT`, `VK_UP`,
/// `VK_DOWN`, `VK_LEFT` and `VK_RIGHT` of `windows_sys` have the values that
/// `cursor_codes` gives them.
#[verifier::external_body]
pub(crate) fn cursor_keys() -> (keys: CursorKeys)
    ensures
        keys == cursor_codes(),
{
    CursorKeys {
        home: VK_HOME,
        end: VK_END,
        page_up: VK_PRIOR,
        page_down: VK_NEXT,
        up: VK_UP,
        down: VK_DOWN,
        left: VK_LEFT,
        right: VK_RIGHT,
    }
}

/// Flags that say how a process is created.
#[derive(Debug, PartialEq, Eq)]
pub struct CreationFlags {
    pub detached: u32,
    pub no_window: u32,
    pub new_group: u32,
    pub breakaway: u32,
}

/// The values of the creation flags.
pub open spec fn creation_values() -> CreationFlags {
    CreationFlags { detached: 0x8, no_window: 0x800_0000, new_group: 0x200, breakaway: 0x100_0000 }
}

/// The constants `DETACHED_PROCESS`, `CREATE_NO_WINDOW`,
/// `CREATE_NEW_PROCESS_GROUP` and `CREATE_BREAKAWAY_FROM_JOB` of `windows_sys`
/// have the values that `creation_values` gives them.
#[verifier::external_body]
pub(crate) fn creation_flags() -> (flags: CreationFlags)
    ensures
        flags == creation_values(),
{
    CreationFlags {
        detached: DETACHED_PROCESS,
        no_window: CREATE_NO_WINDOW,
        new_group: CREATE_NEW_PROCESS_GROUP,
        breakaway: CREATE_BREAKAWAY_FROM_JOB,
    }
}

} // verus!
