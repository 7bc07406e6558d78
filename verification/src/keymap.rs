use vstd::prelude::*;

verus! {

/// What str::to_uppercase returns, as a sequence of characters: named here
/// because the Unicode uppercase mapping is far too large to restate, and it
/// depends on the characters alone.
pub uninterp spec fn upper_of(s: Seq<char>) -> Seq<char>;

/// Relies on str::to_uppercase: the result depends on the characters alone.
#[verifier::external_body]
pub(crate) fn to_uppercase(s: &str) -> (r: String)
    ensures
        r@ == upper_of(s@),
{
    s.to_uppercase()
}

/// The canonical key name that a configured key string denotes, or nothing
/// where the string names no known key. Letters and function keys keep
/// their (upper-cased) spelling; the named keys get their canonical label.
pub open spec fn canonical_key_spec(s: Seq<char>) -> Option<Seq<char>> {
    let u = upper_of(s);
    if u == "DOWN"@ {
        Option::Some("ArrowDown"@)
    } else if u == "LEFT"@ {
        Option::Some("ArrowLeft"@)
    } else if u == "RIGHT"@ {
        Option::Some("ArrowRight"@)
    } else if u == "UP"@ {
        Option::Some("ArrowUp"@)
    } else if u == "ESCAPE"@ {
        Option::Some("Escape"@)
    } else if u == "TAB"@ {
        Option::Some("Tab"@)
    } else if u == "BACKSPACE"@ {
        Option::Some("Backspace"@)
    } else if u == "ENTER"@ {
        Option::Some("Enter"@)
    } else if u == "SPACE"@ {
        Option::Some("Space"@)
    } else if u == "INSERT"@ {
        Option::Some("Insert"@)
    } else if u == "DELETE"@ {
        Option::Some("Delete"@)
    } else if u == "HOME"@ {
        Option::Some("Home"@)
    } else if u == "END"@ {
        Option::Some("End"@)
    } else if u == "PAGEDOWN"@ {
        Option::Some("PageDown"@)
    } else if u == "PAGEUP"@ {
        Option::Some("PageUp"@)
    } else if u == "SLASH"@ {
        Option::Some("Slash"@)
    } else if u == "COLON"@ {
        Option::Some("Colon"@)
    } else if u == "SEMICOLON"@ {
        Option::Some("Semicolon"@)
    } else if u.len() == 1 && 'A' <= u[0] && u[0] <= 'Z' {
        Option::Some(u)
    } else if u == "F1"@ || u == "F2"@ || u == "F3"@ || u == "F4"@ || u == "F5"@ || u == "F6"@
        || u == "F7"@ || u == "F8"@ || u == "F9"@ || u == "F10"@ || u == "F11"@ || u == "F12"@ {
        Option::Some(u)
    } else {
        Option::None
    }
}

/// Maps a configured key string to the canonical key name it denotes.
pub fn canonical_key(s: &str) -> (r: Option<String>)
    ensures
        (r is Some) == (canonical_key_spec(s@) is Some),
        r is Some ==> r->Some_0@ == canonical_key_spec(s@)->Some_0,
{
    let u = to_uppercase(s);
    if u == "DOWN".to_owned() {
        return Option::Some("ArrowDown".to_owned());
    }
    if u == "LEFT".to_owned() {
        return Option::Some("ArrowLeft".to_owned());
    }
    if u == "RIGHT".to_owned() {
        return Option::Some("ArrowRight".to_owned());
    }
    if u == "UP".to_owned() {
        return Option::Some("ArrowUp".to_owned());
    }
    if u == "ESCAPE".to_owned() {
        return Option::Some("Escape".to_owned());
    }
    if u == "TAB".to_owned() {
        return Option::Some("Tab".to_owned());
    }
    if u == "BACKSPACE".to_owned() {
        return Option::Some("Backspace".to_owned());
    }
    if u == "ENTER".to_owned() {
        return Option::Some("Enter".to_owned());
    }
    if u == "SPACE".to_owned() {
        return Option::Some("Space".to_owned());
    }
    if u == "INSERT".to_owned() {
        return Option::Some("Insert".to_owned());
    }
    if u == "DELETE".to_owned() {
        return Option::Some("Delete".to_owned());
    }
    if u == "HOME".to_owned() {
        return Option::Some("Home".to_owned());
    }
    if u == "END".to_owned() {
        return Option::Some("End".to_owned());
    }
    if u == "PAGEDOWN".to_owned() {
        return Option::Some("PageDown".to_owned());
    }
    if u == "PAGEUP".to_owned() {
        return Option::Some("PageUp".to_owned());
    }
    if u == "SLASH".to_owned() {
        return Option::Some("Slash".to_owned());
    }
    if u == "COLON".to_owned() {
        return Option::Some("Colon".to_owned());
    }
    if u == "SEMICOLON".to_owned() {
        return Option::Some("Semicolon".to_owned());
    }
    let un: usize = u.as_str().unicode_len();
    if un == 1 {
        let c = u.as_str().get_char(0);
        if 'A' <= c && c <= 'Z' {
            return Option::Some(u);
        }
    }
    if u == "F1".to_owned() || u == "F2".to_owned() || u == "F3".to_owned() || u == "F4".to_owned()
        || u == "F5".to_owned() || u == "F6".to_owned() {
        return Option::Some(u);
    }
    if u == "F7".to_owned() || u == "F8".to_owned() || u == "F9".to_owned() || u == "F10".to_owned()
        || u == "F11".to_owned() || u == "F12".to_owned() {
        return Option::Some(u);
    }
    Option::None
}

/// The key name a binding resolves to: the configured string's canonical
/// key, or the built-in fallback where the string names no known key.
pub open spec fn eff_key(config: Seq<char>, fallback: Seq<char>) -> Seq<char> {
    match canonical_key_spec(config) {
        Option::Some(k) => k,
        Option::None => fallback,
    }
}

/// Resolves a binding to the key name it listens for.
pub fn effective_key(config: &String, fallback: &str) -> (r: String)
    ensures
        r@ == eff_key(config@, fallback@),
{
    match canonical_key(config.as_str()) {
        Option::Some(k) => k,
        Option::None => fallback.to_owned(),
    }
}

/// Whether the key matches any binding in the list, each resolved with the
/// same fallback.
pub open spec fn matches_any_spec(list: Seq<Seq<char>>, fallback: Seq<char>, key: Seq<char>) -> bool {
    exists|t: int| 0 <= t < list.len() && eff_key(list[t], fallback) == key
}

/// Decides whether the key matches any binding in the list.
pub fn matches_any(list: &Vec<String>, fallback: &str, key: &String) -> (r: bool)
    ensures
        r == matches_any_spec(list.deep_view(), fallback@, key@),
{
    let mut t: usize = 0;
    while t < list.len()
        invariant
            t <= list@.len(),
            forall|k: int| 0 <= k < t ==> eff_key(list.deep_view()[k], fallback@) != key@,
        decreases list@.len() - t,
    {
        let e = effective_key(&list[t], fallback);
        assert(list.deep_view()[t as int] == list@[t as int]@);
        if e == *key {
            return true;
        }
        t = t + 1;
    }
    false
}

/// Ghost model of the key-to-action mapping.
#[verifier::ext_equal]
pub struct KeymapV {
    pub up: Seq<char>,
    pub down: Seq<char>,
    pub left: Seq<Seq<char>>,
    pub right: Seq<Seq<char>>,
    pub goto_top: Seq<char>,
    pub goto_bottom: Seq<char>,
    pub insert_mode: Seq<char>,
    pub normal_mode: Seq<char>,
    pub normal_mode_alt: Seq<char>,
    pub search_mode: Seq<char>,
    pub command_mode: Seq<char>,
    pub undo: Seq<char>,
    pub delete_line: Seq<char>,
    pub delete_leader: Seq<char>,
    pub new_line_below: Seq<char>,
    pub new_line_above: Seq<char>,
    pub app_filter: Seq<char>,
    pub export_menu: Seq<char>,
    pub import_menu: Seq<char>,
    pub leader: Seq<char>,
}

/// The key-to-action mapping, as the config collaborator resolves it: each
/// logical action names the key (or keys) that trigger it.
pub struct Keymap {
    pub up: String,
    pub down: String,
    pub left: Vec<String>,
    pub right: Vec<String>,
    pub goto_top: String,
    pub goto_bottom: String,
    pub insert_mode: String,
    pub normal_mode: String,
    pub normal_mode_alt: String,
    pub search_mode: String,
    pub command_mode: String,
    pub undo: String,
    pub delete_line: String,
    pub delete_leader: String,
    pub new_line_below: String,
    pub new_line_above: String,
    pub app_filter: String,
    pub export_menu: String,
    pub import_menu: String,
    pub leader: String,
}

impl View for Keymap {
    type V = KeymapV;

    open spec fn view(&self) -> KeymapV {
        KeymapV {
            up: self.up@,
            down: self.down@,
            left: self.left.deep_view(),
            right: self.right.deep_view(),
            goto_top: self.goto_top@,
            goto_bottom: self.goto_bottom@,
            insert_mode: self.insert_mode@,
            normal_mode: self.normal_mode@,
            normal_mode_alt: self.normal_mode_alt@,
            search_mode: self.search_mode@,
            command_mode: self.command_mode@,
            undo: self.undo@,
            delete_line: self.delete_line@,
            delete_leader: self.delete_leader@,
            new_line_below: self.new_line_below@,
            new_line_above: self.new_line_above@,
            app_filter: self.app_filter@,
            export_menu: self.export_menu@,
            import_menu: self.import_menu@,
            leader: self.leader@,
        }
    }
}

/// The built-in mapping: vim-style movement, `G`-pair jumps, `I` for
/// Insert, `/` and `:` prompts, `U` for undo, `D` sequences for deletion,
/// `O` pair for new rows, and Space as the leader.
pub open spec fn default_keymap_spec() -> KeymapV {
    KeymapV {
        up: "K"@,
        down: "J"@,
        left: seq!["H"@, "B"@],
        right: seq!["L"@, "W"@, "E"@],
        goto_top: "G"@,
        goto_bottom: "G"@,
        insert_mode: "I"@,
        normal_mode: "Escape"@,
        normal_mode_alt: "Control+OpenBracket"@,
        search_mode: "Slash"@,
        command_mode: "Colon"@,
        undo: "U"@,
        delete_line: "D"@,
        delete_leader: "D"@,
        new_line_below: "O"@,
        new_line_above: "O"@,
        app_filter: "F"@,
        export_menu: "E"@,
        import_menu: "I"@,
        leader: "Space"@,
    }
}

impl Default for Keymap {
    /// The built-in mapping, used where the config collaborator supplies
    /// nothing.
    fn default() -> (r: Keymap)
        ensures
            r@ == default_keymap_spec(),
    {
        let mut left: Vec<String> = Vec::new();
        left.push("H".to_owned());
        left.push("B".to_owned());
        let mut right: Vec<String> = Vec::new();
        right.push("L".to_owned());
        right.push("W".to_owned());
        right.push("E".to_owned());
        let r = Keymap {
            up: "K".to_owned(),
            down: "J".to_owned(),
            left,
            right,
            goto_top: "G".to_owned(),
            goto_bottom: "G".to_owned(),
            insert_mode: "I".to_owned(),
            normal_mode: "Escape".to_owned(),
            normal_mode_alt: "Control+OpenBracket".to_owned(),
            search_mode: "Slash".to_owned(),
            command_mode: "Colon".to_owned(),
            undo: "U".to_owned(),
            delete_line: "D".to_owned(),
            delete_leader: "D".to_owned(),
            new_line_below: "O".to_owned(),
            new_line_above: "O".to_owned(),
            app_filter: "F".to_owned(),
            export_menu: "E".to_owned(),
            import_menu: "I".to_owned(),
            leader: "Space".to_owned(),
        };
        proof {
            assert(r@.left =~= default_keymap_spec().left);
            assert(r@.right =~= default_keymap_spec().right);
            assert(r@ =~~= default_keymap_spec());
        }
        r
    }
}

} // verus!
