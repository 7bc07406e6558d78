use vstd::prelude::*;

verus! {

/// The modifier keys held during a key event.
#[derive(Clone, Copy, PartialEq, Eq, Structural, Debug)]
pub struct Mods {
    pub ctrl: bool,
    pub alt: bool,
    pub shift: bool,
    pub cmd: bool,
}

impl Mods {
    /// No modifier held.
    pub fn none() -> (r: Mods)
        ensures
            r == no_mods(),
    {
        Mods { ctrl: false, alt: false, shift: false, cmd: false }
    }

    /// Shift alone held.
    pub fn shift_only() -> (r: Mods)
        ensures
            r == only_shift(),
    {
        Mods { ctrl: false, alt: false, shift: true, cmd: false }
    }
}

/// No modifier held.
pub open spec fn no_mods() -> Mods {
    Mods { ctrl: false, alt: false, shift: false, cmd: false }
}

/// Shift alone held.
pub open spec fn only_shift() -> Mods {
    Mods { ctrl: false, alt: false, shift: true, cmd: false }
}

/// Keys the recorder never captures: a pure modifier press, or the
/// designated non-capturable function-key block.
pub open spec fn uncapturable(key: Seq<char>) -> bool {
    ||| key == "Shift"@
    ||| key == "Ctrl"@
    ||| key == "Alt"@
    ||| key == "Cmd"@
    ||| key == "F1"@
    ||| key == "F2"@
    ||| key == "F3"@
    ||| key == "F4"@
    ||| key == "F5"@
    ||| key == "F6"@
    ||| key == "F7"@
    ||| key == "F8"@
    ||| key == "F9"@
    ||| key == "F10"@
    ||| key == "F11"@
    ||| key == "F12"@
    ||| key == "F13"@
    ||| key == "F14"@
    ||| key == "F15"@
    ||| key == "F16"@
    ||| key == "F17"@
    ||| key == "F18"@
    ||| key == "F19"@
    ||| key == "F20"@
}

/// Decides whether the recorder must ignore the key.
pub fn is_uncapturable(key: &String) -> (r: bool)
    ensures
        r == uncapturable(key@),
{
    if *key == "Shift".to_owned() || *key == "Ctrl".to_owned() || *key == "Alt".to_owned() || *key
        == "Cmd".to_owned() {
        return true;
    }
    if *key == "F1".to_owned() || *key == "F2".to_owned() || *key == "F3".to_owned() || *key
        == "F4".to_owned() || *key == "F5".to_owned() {
        return true;
    }
    if *key == "F6".to_owned() || *key == "F7".to_owned() || *key == "F8".to_owned() || *key
        == "F9".to_owned() || *key == "F10".to_owned() {
        return true;
    }
    if *key == "F11".to_owned() || *key == "F12".to_owned() || *key == "F13".to_owned() || *key
        == "F14".to_owned() || *key == "F15".to_owned() {
        return true;
    }
    if *key == "F16".to_owned() || *key == "F17".to_owned() || *key == "F18".to_owned() || *key
        == "F19".to_owned() || *key == "F20".to_owned() {
        return true;
    }
    false
}

/// The canonical chord label: the held modifiers in the fixed order Ctrl,
/// Alt, Shift, Cmd, then the base key name, joined with `+`.
pub open spec fn chord_label(key: Seq<char>, mods: Mods) -> Seq<char> {
    (if mods.ctrl {
        "Ctrl+"@
    } else {
        Seq::<char>::empty()
    }) + (if mods.alt {
        "Alt+"@
    } else {
        Seq::<char>::empty()
    }) + (if mods.shift {
        "Shift+"@
    } else {
        Seq::<char>::empty()
    }) + (if mods.cmd {
        "Cmd+"@
    } else {
        Seq::<char>::empty()
    }) + key
}

/// Builds the canonical chord label for a captured key press.
pub fn build_chord_label(key: &String, mods: Mods) -> (r: String)
    ensures
        r@ == chord_label(key@, mods),
{
    let mut r = String::new();
    if mods.ctrl {
        r.append("Ctrl+");
    }
    if mods.alt {
        r.append("Alt+");
    }
    if mods.shift {
        r.append("Shift+");
    }
    if mods.cmd {
        r.append("Cmd+");
    }
    r.append(key.as_str());
    proof {
        assert(r@ =~= chord_label(key@, mods));
    }
    r
}

} // verus!
