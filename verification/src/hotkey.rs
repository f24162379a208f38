use vstd::prelude::*;

verus! {

/// The set of hotkeys the user can pick from.
#[derive(Debug, Clone, Copy, PartialEq, Eq, Structural)]
pub enum HotkeyOption {
    F1,
    F2,
    F3,
    F4,
    F5,
    F6,
    F7,
    F8,
    F9,
    F10,
    F11,
    F12,
}

impl HotkeyOption {
    /// The text shown for the option in the hotkey selector.
    pub open spec fn spec_label(self) -> Seq<char> {
        match self {
            HotkeyOption::F1 => "F1"@,
            HotkeyOption::F2 => "F2"@,
            HotkeyOption::F3 => "F3"@,
            HotkeyOption::F4 => "F4"@,
            HotkeyOption::F5 => "F5"@,
            HotkeyOption::F6 => "F6"@,
            HotkeyOption::F7 => "F7"@,
            HotkeyOption::F8 => "F8"@,
            HotkeyOption::F9 => "F9"@,
            HotkeyOption::F10 => "F10"@,
            HotkeyOption::F11 => "F11"@,
            HotkeyOption::F12 => "F12"@,
        }
    }

    /// Returns the label of the key, such as `"F7"`.
    pub fn label(self) -> (s: &'static str)
        ensures
            s@ == self.spec_label(),
    {
        match self {
            HotkeyOption::F1 => "F1",
            HotkeyOption::F2 => "F2",
            HotkeyOption::F3 => "F3",
            HotkeyOption::F4 => "F4",
            HotkeyOption::F5 => "F5",
            HotkeyOption::F6 => "F6",
            HotkeyOption::F7 => "F7",
            HotkeyOption::F8 => "F8",
            HotkeyOption::F9 => "F9",
            HotkeyOption::F10 => "F10",
            HotkeyOption::F11 => "F11",
            HotkeyOption::F12 => "F12",
        }
    }
    /// Every option, in the order of the selector.
    pub fn all() -> (options: [HotkeyOption; 12])
        ensures
            options@ == seq![
                HotkeyOption::F1,
                HotkeyOption::F2,
                HotkeyOption::F3,
                HotkeyOption::F4,
                HotkeyOption::F5,
                HotkeyOption::F6,
                HotkeyOption::F7,
                HotkeyOption::F8,
                HotkeyOption::F9,
                HotkeyOption::F10,
                HotkeyOption::F11,
                HotkeyOption::F12,
            ],
    {
        let options = [
            HotkeyOption::F1,
            HotkeyOption::F2,
            HotkeyOption::F3,
            HotkeyOption::F4,
            HotkeyOption::F5,
            HotkeyOption::F6,
            HotkeyOption::F7,
            HotkeyOption::F8,
            HotkeyOption::F9,
            HotkeyOption::F10,
            HotkeyOption::F11,
            HotkeyOption::F12,
        ];
        assert(options@ =~= seq![
            HotkeyOption::F1,
            HotkeyOption::F2,
            HotkeyOption::F3,
            HotkeyOption::F4,
            HotkeyOption::F5,
            HotkeyOption::F6,
            HotkeyOption::F7,
            HotkeyOption::F8,
            HotkeyOption::F9,
            HotkeyOption::F10,
            HotkeyOption::F11,
            HotkeyOption::F12,
        ]);
        options
    }

    /// The hotkey that the window listens for when it starts.
    pub fn default_option() -> (option: HotkeyOption)
        ensures
            option == HotkeyOption::F2,
    {
        HotkeyOption::F2
    }
}

} // verus!
