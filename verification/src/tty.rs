//! Session control keys on a tty: quitting the compositor and switching virtual terminals.
use vstd::prelude::*;

use crate::input::bindings::{modifier_set_of, ModifierSet};
use crate::text::{ascii_lower, chars_of, copy_str, eq_ignore_ascii_case, strings_view};

verus! {

/// How outputs are arranged on a tty.
#[derive(Debug, Clone, Copy, PartialEq, Eq, Structural)]
pub enum TtyOutputLayout {
    Horizontal,
    Vertical,
}

/// Keys that control the session on a tty.
#[derive(Debug, Clone, PartialEq)]
pub struct TtyConfig {
    pub quit_mods: Vec<String>,
    pub quit_key: String,
    pub vt_switch_modifiers: Vec<String>,
    pub output_layout: TtyOutputLayout,
}

impl Default for TtyConfig {
    /// Ctrl+Alt+Backspace quits; Ctrl+Alt+F1..F12 switch terminals; outputs side by side.
    fn default() -> (c: Self)
        ensures
            strings_view(c.quit_mods@) == seq!["Ctrl"@, "Alt"@],
            c.quit_key@ == "Backspace"@,
            strings_view(c.vt_switch_modifiers@) == seq!["Ctrl"@, "Alt"@],
            c.output_layout == TtyOutputLayout::Horizontal,
    {
        let mut quit_mods: Vec<String> = Vec::new();
        quit_mods.push(copy_str("Ctrl"));
        quit_mods.push(copy_str("Alt"));
        let mut vt_switch_modifiers: Vec<String> = Vec::new();
        vt_switch_modifiers.push(copy_str("Ctrl"));
        vt_switch_modifiers.push(copy_str("Alt"));
        assert(strings_view(quit_mods@) =~= seq!["Ctrl"@, "Alt"@]);
        assert(strings_view(vt_switch_modifiers@) =~= seq!["Ctrl"@, "Alt"@]);
        TtyConfig {
            quit_mods,
            quit_key: copy_str("Backspace"),
            vt_switch_modifiers,
            output_layout: TtyOutputLayout::Horizontal,
        }
    }
}

/// What a session control key asks for.
#[derive(Debug, Clone, Copy, PartialEq, Eq, Structural)]
pub enum TtyControlAction {
    Quit,
    SwitchVt(i32),
}

pub open spec fn is_digit(c: char) -> bool {
    '0' <= c && c <= '9'
}

/// The value of a run of decimal digits.
pub open spec fn digits_value(s: Seq<char>) -> int
    decreases s.len(),
{
    if s.len() == 0 {
        0
    } else {
        digits_value(s.drop_last()) * 10 + (s.last() as int - '0' as int)
    }
}

proof fn lemma_digits_value_nonneg(s: Seq<char>)
    requires
        forall|i: int| 0 <= i < s.len() ==> is_digit(#[trigger] s[i]),
    ensures
        digits_value(s) >= 0,
    decreases s.len(),
{
    if s.len() > 0 {
        assert(is_digit(s[s.len() - 1]));
        lemma_digits_value_nonneg(s.drop_last());
    }
}

/// Whether `s` is a non-empty run of decimal digits.
pub open spec fn all_digits(s: Seq<char>) -> bool {
    s.len() > 0 && forall|i: int| 0 <= i < s.len() ==> is_digit(#[trigger] s[i])
}

/// The integer that `s` spells: an optional `+` or `-` followed by decimal digits.
/// (Parsing into an `i32` also fails on values outside its range; all such values lie
/// outside the terminal numbers this module looks for.)
pub open spec fn decimal_number(s: Seq<char>) -> Option<int> {
    if s.len() > 0 && s[0] == '+' && all_digits(s.skip(1)) {
        Some(digits_value(s.skip(1)))
    } else if s.len() > 0 && s[0] == '-' && all_digits(s.skip(1)) {
        Some(-digits_value(s.skip(1)))
    } else if all_digits(s) {
        Some(digits_value(s))
    } else {
        None
    }
}

/// The terminal that a key such as `F2` names: a key of `F` or `f` followed by a number
/// from 1 to 12.
pub open spec fn vt_of_key(key: Seq<char>) -> Option<int> {
    if key.len() > 0 && (key[0] == 'F' || key[0] == 'f') {
        match decimal_number(key.skip(1)) {
            Some(n) => if 1 <= n <= 12 { Some(n) } else { None },
            None => None,
        }
    } else {
        None
    }
}

/// The control action for a key pressed with `modifiers`: quitting when the quit
/// modifiers and key match (letters compared without regard to case), else switching
/// terminals when the switch modifiers match and the key names a terminal.
pub open spec fn tty_action_spec(key: Seq<char>, modifiers: ModifierSet, quit_mods: Seq<Seq<char>>, quit_key: Seq<char>, vt_mods: Seq<Seq<char>>) -> Option<TtyControlAction> {
    if modifiers == modifier_set_of(quit_mods) && ascii_lower(key) == ascii_lower(quit_key) {
        Some(TtyControlAction::Quit)
    } else if modifiers != modifier_set_of(vt_mods) {
        None
    } else {
        match vt_of_key(key) {
            Some(n) => Some(TtyControlAction::SwitchVt(n as i32)),
            None => None,
        }
    }
}

/// The value of the digits `s[from..]`, capped at 1000, or `None` if they are not a
/// non-empty run of digits.
fn capped_digits(s: &[char], from: usize) -> (r: Option<i32>)
    requires
        from <= s@.len(),
    ensures
        r is Some <==> all_digits(s@.skip(from as int)),
        r matches Some(v) ==> (v == if digits_value(s@.skip(from as int)) < 1000 { digits_value(s@.skip(from as int)) } else { 1000 }),
{
    let ghost t = s@.skip(from as int);
    if from == s.len() {
        return None;
    }
    let mut acc: i32 = 0;
    let mut i: usize = from;
    while i < s.len()
        invariant
            from < s@.len(),
            t == s@.skip(from as int),
            from <= i <= s@.len(),
            forall|k: int| 0 <= k < i - from ==> is_digit(#[trigger] t[k]),
            acc == if digits_value(t.take(i - from)) < 1000 { digits_value(t.take(i - from)) } else { 1000 },
        decreases s@.len() - i,
    {
        let c = s[i];
        if !('0' <= c && c <= '9') {
            assert(!is_digit(t[i - from]));
            return None;
        }
        let d = (c as u32 - '0' as u32) as i32;
        let ghost prefix = t.take(i - from);
        let ghost next = t.take(i - from + 1);
        proof {
            assert(next.drop_last() =~= prefix);
            assert(next.last() == c);
            lemma_digits_value_nonneg(prefix);
        }
        acc = if acc >= 1000 { 1000 } else if acc * 10 + d >= 1000 { 1000 } else { acc * 10 + d };
        i += 1;
    }
    assert(t.take(t.len() as int) =~= t);
    Some(acc)
}

/// The control action for `key` pressed with `modifiers` under `tty_config` (see
/// `tty_action_spec`).
pub fn tty_control_action_for(key: &str, modifiers: ModifierSet, tty_config: &TtyConfig) -> (r: Option<TtyControlAction>)
    ensures
        r == tty_action_spec(key@, modifiers, strings_view(tty_config.quit_mods@), tty_config.quit_key@, strings_view(tty_config.vt_switch_modifiers@)),
{
    let quit_modifiers = ModifierSet::from_names(tty_config.quit_mods.as_slice());
    if modifiers == quit_modifiers && eq_ignore_ascii_case(key, tty_config.quit_key.as_str()) {
        return Some(TtyControlAction::Quit);
    }
    let vt_switch_modifiers = ModifierSet::from_names(tty_config.vt_switch_modifiers.as_slice());
    if modifiers != vt_switch_modifiers {
        return None;
    }
    let v = chars_of(key);
    if v.len() == 0 || !(v[0] == 'F' || v[0] == 'f') {
        return None;
    }
    let ghost suffix = v@.skip(1);
    let n = v.len();
    // The number after the prefix: an optional sign, then digits.
    if n > 1 && v[1] == '+' {
        proof {
            assert(v@.skip(2) =~= suffix.skip(1));
        }
        match capped_digits(v.as_slice(), 2) {
            Some(value) if 1 <= value && value <= 12 => Some(TtyControlAction::SwitchVt(value)),
            _ => None,
        }
    } else if n > 1 && v[1] == '-' {
        proof {
            assert(v@.skip(2) =~= suffix.skip(1));
            if all_digits(suffix.skip(1)) {
                lemma_digits_value_nonneg(suffix.skip(1));
            }
        }
        None
    } else {
        proof {
            if suffix.len() > 0 {
                assert(suffix[0] == v@[1]);
            }
        }
        match capped_digits(v.as_slice(), 1) {
            Some(value) if 1 <= value && value <= 12 => Some(TtyControlAction::SwitchVt(value)),
            _ => None,
        }
    }
}

} // verus!
