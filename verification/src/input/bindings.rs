//! Key specifications ("Super+H"), key names and modifier sets.
use vstd::prelude::*;

use crate::config::BindingConfig;
use crate::input::actions::{action_named, Action, ActionView};
use crate::number::Double;
use crate::text::{ascii_lower_char, ascii_upper_char, lemma_case_change_keeps_white_space, lemma_trim_fixed, lemma_trim_shape, lemma_trim_case_commute, lemma_trim_idempotent,
    ascii_lower, ascii_upper, ascii_lower_chars, ascii_upper_chars, chars_equal_str, chars_of,
    concat_str, copy_str, is_white_space, string_from_chars, strings_view, trim, trim_chars,
};

verus! {

/// The modifier keys held during a key press or required by a binding.
#[derive(Debug, Clone, Copy, PartialEq, Eq, Structural)]
pub struct ModifierSet {
    pub ctrl: bool,
    pub alt: bool,
    pub shift: bool,
    pub logo: bool,
}

/// The canonical spelling of a modifier name, or `None` for a name that is not a modifier.
pub open spec fn canonical_modifier(name: Seq<char>) -> Option<Seq<char>> {
    if name == "Ctrl"@ || name == "Control"@ {
        Some("Ctrl"@)
    } else if name == "Alt"@ {
        Some("Alt"@)
    } else if name == "Shift"@ {
        Some("Shift"@)
    } else if name == "Super"@ || name == "Logo"@ || name == "Meta"@ {
        Some("Super"@)
    } else {
        None
    }
}

/// Whether some name in `names` sets the modifier whose canonical spelling is `canon`.
pub open spec fn names_set(names: Seq<Seq<char>>, canon: Seq<char>) -> bool {
    exists|i: int| 0 <= i < names.len() && canonical_modifier(#[trigger] names[i]) == Some(canon)
}

/// The modifier set that a list of names describes; names that are not modifiers are ignored.
pub open spec fn modifier_set_of(names: Seq<Seq<char>>) -> ModifierSet {
    ModifierSet {
        ctrl: names_set(names, "Ctrl"@),
        alt: names_set(names, "Alt"@),
        shift: names_set(names, "Shift"@),
        logo: names_set(names, "Super"@),
    }
}

/// The symbolic key name for an already lower-cased key, if it has one.
pub open spec fn symbolic_key(lower: Seq<char>) -> Option<Seq<char>> {
    if lower == "-"@ || lower == "minus"@ {
        Some("Minus"@)
    } else if lower == "="@ || lower == "equal"@ {
        Some("Equal"@)
    } else if lower == "space"@ {
        Some("Space"@)
    } else if lower == "return"@ || lower == "enter"@ {
        Some("Return"@)
    } else if lower == "escape"@ || lower == "esc"@ {
        Some("Escape"@)
    } else if lower == "tab"@ {
        Some("Tab"@)
    } else if lower == "backspace"@ {
        Some("Backspace"@)
    } else if lower == "left"@ {
        Some("Left"@)
    } else if lower == "right"@ {
        Some("Right"@)
    } else if lower == "up"@ {
        Some("Up"@)
    } else if lower == "down"@ {
        Some("Down"@)
    } else if lower == "home"@ {
        Some("Home"@)
    } else if lower == "pageup"@ {
        Some("PageUp"@)
    } else if lower == "pagedown"@ {
        Some("PageDown"@)
    } else {
        None
    }
}

/// The normal form of a key name: trimmed, symbolic names spelled one way, a single
/// character in upper case, and any other name in lower case.
pub open spec fn normalized_key(key: Seq<char>) -> Seq<char> {
    let k = trim(key);
    let lower = ascii_lower(k);
    match symbolic_key(lower) {
        Some(name) => name,
        None => if k.len() == 1 {
            ascii_upper(k)
        } else {
            lower
        },
    }
}

/// The fields of `s` separated by `+`, as `str::split('+')` yields them.
pub open spec fn split_plus(s: Seq<char>) -> Seq<Seq<char>>
    decreases s.len(),
{
    if s.len() == 0 {
        seq![Seq::<char>::empty()]
    } else {
        let prev = split_plus(s.drop_last());
        if s.last() == '+' {
            prev.push(Seq::<char>::empty())
        } else {
            prev.update(prev.len() - 1, prev.last().push(s.last()))
        }
    }
}

/// The trimmed fields that are not empty, in order.
pub open spec fn nonempty_trimmed(fields: Seq<Seq<char>>) -> Seq<Seq<char>>
    decreases fields.len(),
{
    if fields.len() == 0 {
        Seq::<Seq<char>>::empty()
    } else {
        let rest = nonempty_trimmed(fields.drop_last());
        let t = trim(fields.last());
        if t.len() == 0 {
            rest
        } else {
            rest.push(t)
        }
    }
}

/// The parts of a key specification: its `+`-separated fields, trimmed, empty ones dropped.
pub open spec fn keyspec_parts(spec: Seq<char>) -> Seq<Seq<char>> {
    nonempty_trimmed(split_plus(spec))
}

/// The canonical names of `mods`, or the first of them that is not a modifier.
pub open spec fn canonical_modifiers(mods: Seq<Seq<char>>) -> Result<Seq<Seq<char>>, Seq<char>>
    decreases mods.len(),
{
    if mods.len() == 0 {
        Ok(Seq::<Seq<char>>::empty())
    } else {
        match canonical_modifiers(mods.drop_last()) {
            Err(e) => Err(e),
            Ok(prev) => match canonical_modifier(mods.last()) {
                None => Err(mods.last()),
                Some(c) => Ok(prev.push(c)),
            },
        }
    }
}

/// What `parse_keyspec` yields for a key specification: the canonical modifier names and
/// the normalized key, or the error message.
pub open spec fn parsed_keyspec(spec: Seq<char>) -> Result<(Seq<Seq<char>>, Seq<char>), Seq<char>> {
    let parts = keyspec_parts(spec);
    if parts.len() == 0 {
        Err("binding keyspec must not be empty"@)
    } else {
        match canonical_modifiers(parts.drop_last()) {
            Err(bad) => Err("unsupported modifier in keyspec: "@ + bad),
            Ok(mods) => Ok((mods, normalized_key(parts.last()))),
        }
    }
}

/// The key specification that names a key with a modifier set, in the order
/// Super, Ctrl, Alt, Shift, then the key, joined by `+`.
pub open spec fn keyspec_text(key: Seq<char>, m: ModifierSet) -> Seq<char> {
    (if m.logo { "Super+"@ } else { Seq::<char>::empty() }) + (if m.ctrl { "Ctrl+"@ } else { Seq::<char>::empty() }) + (if m.alt { "Alt+"@ } else { Seq::<char>::empty() }) + (if m.shift { "Shift+"@ } else { Seq::<char>::empty() }) + key
}

/// The names of the held modifiers, in the order Ctrl, Alt, Shift, Super.
pub open spec fn modifier_name_list(m: ModifierSet) -> Seq<Seq<char>> {
    (if m.ctrl { seq!["Ctrl"@] } else { Seq::<Seq<char>>::empty() }) + (if m.alt { seq!["Alt"@] } else { Seq::<Seq<char>>::empty() }) + (if m.shift { seq!["Shift"@] } else { Seq::<Seq<char>>::empty() }) + (if m.logo { seq!["Super"@] } else { Seq::<Seq<char>>::empty() })
}

impl ModifierSet {
    /// The set with no modifier held.
    pub fn none() -> (m: ModifierSet)
        ensures
            !m.ctrl && !m.alt && !m.shift && !m.logo,
    {
        ModifierSet { ctrl: false, alt: false, shift: false, logo: false }
    }

    /// The modifiers that `names` list; unknown names are ignored.
    pub fn from_names(names: &[String]) -> (set: ModifierSet)
        ensures
            set == modifier_set_of(strings_view(names@)),
    {
        let ghost view = strings_view(names@);
        let mut set = ModifierSet::none();
        let mut i: usize = 0;
        while i < names.len()
            invariant
                i <= names@.len(),
                view == strings_view(names@),
                set == modifier_set_of(view.take(i as int)),
            decreases names@.len() - i,
        {
            let c = canonical_modifier_name(names[i].as_str());
            let ghost prev = view.take(i as int);
            let ghost next = view.take(i + 1);
            proof {
                assert(next[i as int] == names@[i as int]@);
                assert forall|k: int| 0 <= k < i implies #[trigger] next[k] == prev[k] by {}
            }
            match c {
                Some(name) => {
                    let is_ctrl = chars_equal_str(chars_of(name).as_slice(), "Ctrl");
                    let is_alt = chars_equal_str(chars_of(name).as_slice(), "Alt");
                    let is_shift = chars_equal_str(chars_of(name).as_slice(), "Shift");
                    if is_ctrl {
                        set.ctrl = true;
                    } else if is_alt {
                        set.alt = true;
                    } else if is_shift {
                        set.shift = true;
                    } else {
                        set.logo = true;
                    }
                },
                None => {},
            }
            proof {
                lemma_names_set_step(view, i as int, "Ctrl"@);
                lemma_names_set_step(view, i as int, "Alt"@);
                lemma_names_set_step(view, i as int, "Shift"@);
                lemma_names_set_step(view, i as int, "Super"@);
                lemma_canonical_names_distinct();
            }
            i += 1;
        }
        assert(view.take(names@.len() as int) =~= view);
        set
    }
}

proof fn lemma_canonical_names_distinct()
    ensures
        "Ctrl"@ != "Alt"@,
        "Ctrl"@ != "Shift"@,
        "Ctrl"@ != "Super"@,
        "Alt"@ != "Shift"@,
        "Alt"@ != "Super"@,
        "Shift"@ != "Super"@,
{
    reveal_strlit("Ctrl");
    reveal_strlit("Alt");
    reveal_strlit("Shift");
    reveal_strlit("Super");
    assert("Ctrl"@[0] != "Alt"@[0]);
    assert("Ctrl"@[0] != "Shift"@[0]);
    assert("Ctrl"@[0] != "Super"@[0]);
    assert("Alt"@[0] != "Shift"@[0]);
    assert("Alt"@[0] != "Super"@[0]);
    assert("Shift"@[1] != "Super"@[1]);
}

proof fn lemma_names_set_step(view: Seq<Seq<char>>, i: int, canon: Seq<char>)
    requires
        0 <= i < view.len(),
    ensures
        names_set(view.take(i + 1), canon) == (names_set(view.take(i), canon) || canonical_modifier(view[i]) == Some(canon)),
{
    let prev = view.take(i);
    let next = view.take(i + 1);
    if names_set(prev, canon) {
        let k = choose|k: int| 0 <= k < prev.len() && canonical_modifier(#[trigger] prev[k]) == Some(canon);
        assert(next[k] == prev[k]);
    }
    if canonical_modifier(view[i]) == Some(canon) {
        assert(next[i] == view[i]);
    }
    if names_set(next, canon) {
        let k = choose|k: int| 0 <= k < next.len() && canonical_modifier(#[trigger] next[k]) == Some(canon);
        if k < i {
            assert(prev[k] == next[k]);
        }
    }
}

/// The canonical spelling of a modifier name: `Ctrl`, `Alt`, `Shift` or `Super`.
pub fn canonical_modifier_name(name: &str) -> (r: Option<&'static str>)
    ensures
        r is None <==> canonical_modifier(name@) is None,
        r matches Some(c) ==> canonical_modifier(name@) == Some(c@),
{
    if crate::text::str_equal(name, "Ctrl") || crate::text::str_equal(name, "Control") {
        Some("Ctrl")
    } else if crate::text::str_equal(name, "Alt") {
        Some("Alt")
    } else if crate::text::str_equal(name, "Shift") {
        Some("Shift")
    } else if crate::text::str_equal(name, "Super") || crate::text::str_equal(name, "Logo")
        || crate::text::str_equal(name, "Meta") {
        Some("Super")
    } else {
        None
    }
}

fn symbolic_key_name(lower: &[char]) -> (r: Option<&'static str>)
    ensures
        r is None <==> symbolic_key(lower@) is None,
        r matches Some(c) ==> symbolic_key(lower@) == Some(c@),
{
    if chars_equal_str(lower, "-") || chars_equal_str(lower, "minus") {
        Some("Minus")
    } else if chars_equal_str(lower, "=") || chars_equal_str(lower, "equal") {
        Some("Equal")
    } else if chars_equal_str(lower, "space") {
        Some("Space")
    } else if chars_equal_str(lower, "return") || chars_equal_str(lower, "enter") {
        Some("Return")
    } else if chars_equal_str(lower, "escape") || chars_equal_str(lower, "esc") {
        Some("Escape")
    } else if chars_equal_str(lower, "tab") {
        Some("Tab")
    } else if chars_equal_str(lower, "backspace") {
        Some("Backspace")
    } else if chars_equal_str(lower, "left") {
        Some("Left")
    } else if chars_equal_str(lower, "right") {
        Some("Right")
    } else if chars_equal_str(lower, "up") {
        Some("Up")
    } else if chars_equal_str(lower, "down") {
        Some("Down")
    } else if chars_equal_str(lower, "home") {
        Some("Home")
    } else if chars_equal_str(lower, "pageup") {
        Some("PageUp")
    } else if chars_equal_str(lower, "pagedown") {
        Some("PageDown")
    } else {
        None
    }
}

fn normalize_key_chars(key: &[char]) -> (r: String)
    ensures
        r@ == normalized_key(key@),
{
    let k = trim_chars(key);
    let lower = ascii_lower_chars(k.as_slice());
    match symbolic_key_name(lower.as_slice()) {
        Some(name) => copy_str(name),
        None => {
            if k.len() == 1 {
                let upper = ascii_upper_chars(k.as_slice());
                string_from_chars(upper.as_slice())
            } else {
                string_from_chars(lower.as_slice())
            }
        },
    }
}

/// The normal form of a key name (see `normalized_key`).
pub fn normalize_key(key: &str) -> (r: String)
    ensures
        r@ == normalized_key(key@),
{
    let v = chars_of(key);
    normalize_key_chars(v.as_slice())
}

proof fn lemma_split_plus_nonempty(s: Seq<char>)
    ensures
        split_plus(s).len() >= 1,
    decreases s.len(),
{
    if s.len() > 0 {
        lemma_split_plus_nonempty(s.drop_last());
    }
}

/// Splits the characters `v` at each `+`.
fn split_plus_chars(v: &[char]) -> (fields: Vec<Vec<char>>)
    ensures
        fields@.len() == split_plus(v@).len(),
        forall|i: int| 0 <= i < fields@.len() ==> #[trigger] fields@[i]@ == split_plus(v@)[i],
{
    let mut fields: Vec<Vec<char>> = Vec::new();
    let mut current: Vec<char> = Vec::new();
    let mut i: usize = 0;
    while i < v.len()
        invariant
            i <= v@.len(),
            fields@.len() + 1 == split_plus(v@.take(i as int)).len(),
            forall|k: int| 0 <= k < fields@.len() ==> #[trigger] fields@[k]@ == split_plus(v@.take(i as int))[k],
            current@ == split_plus(v@.take(i as int)).last(),
        decreases v@.len() - i,
    {
        let ghost prev = v@.take(i as int);
        let ghost next = v@.take(i + 1);
        proof {
            assert(next.drop_last() =~= prev);
            assert(next.last() == v@[i as int]);
            lemma_split_plus_nonempty(prev);
        }
        if v[i] == '+' {
            let done = current;
            fields.push(done);
            current = Vec::new();
            proof {
                assert forall|k: int| 0 <= k < fields@.len() implies #[trigger] fields@[k]@ == split_plus(next)[k] by {}
                assert(current@ =~= split_plus(next).last());
            }
        } else {
            current.push(v[i]);
            proof {
                assert forall|k: int| 0 <= k < fields@.len() implies #[trigger] fields@[k]@ == split_plus(next)[k] by {}
            }
        }
        i += 1;
    }
    let ghost all = v@.take(v@.len() as int);
    assert(all =~= v@);
    fields.push(current);
    proof {
        lemma_split_plus_nonempty(v@);
        assert forall|k: int| 0 <= k < fields@.len() implies #[trigger] fields@[k]@ == split_plus(v@)[k] by {}
    }
    fields
}

/// Parses a key specification such as `Super+H` into canonical modifier names and a
/// normalized key.
pub fn parse_keyspec(spec: &str) -> (r: Result<(Vec<String>, String), String>)
    ensures
        match (r, parsed_keyspec(spec@)) {
            (Ok((mods, key)), Ok((smods, skey))) => strings_view(mods@) == smods && key@ == skey,
            (Err(e), Err(se)) => e@ == se,
            _ => false,
        },
{
    let v = chars_of(spec);
    let fields = split_plus_chars(v.as_slice());
    let ghost sfields = split_plus(v@);
    // Keep the trimmed fields that are not empty.
    let mut parts: Vec<Vec<char>> = Vec::new();
    let mut i: usize = 0;
    while i < fields.len()
        invariant
            i <= fields@.len(),
            fields@.len() == sfields.len(),
            forall|k: int| 0 <= k < fields@.len() ==> #[trigger] fields@[k]@ == sfields[k],
            parts@.len() == nonempty_trimmed(sfields.take(i as int)).len(),
            forall|k: int| 0 <= k < parts@.len() ==> #[trigger] parts@[k]@ == nonempty_trimmed(sfields.take(i as int))[k],
        decreases fields@.len() - i,
    {
        let t = trim_chars(fields[i].as_slice());
        let ghost prev = sfields.take(i as int);
        let ghost next = sfields.take(i + 1);
        proof {
            assert(next.drop_last() =~= prev);
            assert(next.last() == sfields[i as int]);
        }
        if t.len() > 0 {
            parts.push(t);
            proof {
                assert forall|k: int| 0 <= k < parts@.len() implies #[trigger] parts@[k]@ == nonempty_trimmed(next)[k] by {}
            }
        }
        i += 1;
    }
    let ghost sparts = nonempty_trimmed(sfields);
    assert(sfields.take(fields@.len() as int) =~= sfields);
    assert(sparts == keyspec_parts(spec@));
    let n = parts.len();
    if n == 0 {
        return Err(copy_str("binding keyspec must not be empty"));
    }
    let ghost smods = sparts.drop_last();
    let mut mods: Vec<String> = Vec::new();
    let mut j: usize = 0;
    assert(smods.take(0) =~= Seq::<Seq<char>>::empty());
    assert(strings_view(mods@) =~= Seq::<Seq<char>>::empty());
    while j < n - 1
        invariant
            n == parts@.len(),
            n >= 1,
            j <= n - 1,
            parts@.len() == sparts.len(),
            forall|k: int| 0 <= k < parts@.len() ==> #[trigger] parts@[k]@ == sparts[k],
            smods == sparts.drop_last(),
            sparts == keyspec_parts(spec@),
            canonical_modifiers(smods.take(j as int)) == Ok::<Seq<Seq<char>>, Seq<char>>(strings_view(mods@)),
        decreases n - 1 - j,
    {
        let ghost prev = smods.take(j as int);
        let ghost next = smods.take(j + 1);
        proof {
            assert(next.drop_last() =~= prev);
            assert(next.last() == parts@[j as int]@);
        }
        let name = string_from_chars(parts[j].as_slice());
        let ghost old_view = strings_view(mods@);
        match canonical_modifier_name(name.as_str()) {
            None => {
                proof {
                    assert(canonical_modifiers(next) == Err::<Seq<Seq<char>>, Seq<char>>(name@));
                    lemma_canonical_modifiers_prefix_err(smods, (j + 1) as int);
                }
                return Err(concat_str("unsupported modifier in keyspec: ", name.as_str()));
            },
            Some(c) => {
                mods.push(copy_str(c));
                proof {
                    assert(strings_view(mods@) =~= old_view.push(c@));
                    assert(canonical_modifiers(next) == Ok::<Seq<Seq<char>>, Seq<char>>(old_view.push(c@)));
                }
            },
        }
        j += 1;
    }
    assert(smods.take((n - 1) as int) =~= smods);
    let key = normalize_key_chars(parts[n - 1].as_slice());
    Ok((mods, key))
}

pub proof fn lemma_canonical_modifiers_prefix_err(mods: Seq<Seq<char>>, j: int)
    requires
        0 <= j <= mods.len(),
        canonical_modifiers(mods.take(j)) is Err,
    ensures
        canonical_modifiers(mods) == canonical_modifiers(mods.take(j)),
    decreases mods.len() - j,
{
    if j < mods.len() {
        let next = mods.take(j + 1);
        assert(next.drop_last() =~= mods.take(j));
        lemma_canonical_modifiers_prefix_err(mods, j + 1);
    } else {
        assert(mods.take(j) =~= mods);
    }
}

/// The key specification for a key pressed with `modifiers` (see `keyspec_text`).
pub fn format_keyspec(key: &str, modifiers: ModifierSet) -> (r: String)
    ensures
        r@ == keyspec_text(key@, modifiers),
{
    let mut r = String::new();
    let ghost e = Seq::<char>::empty();
    if modifiers.logo {
        r = concat_str(r.as_str(), "Super+");
    }
    if modifiers.ctrl {
        r = concat_str(r.as_str(), "Ctrl+");
    }
    if modifiers.alt {
        r = concat_str(r.as_str(), "Alt+");
    }
    if modifiers.shift {
        r = concat_str(r.as_str(), "Shift+");
    }
    r = concat_str(r.as_str(), key);
    proof {
        assert(e + e =~= e);
        assert(forall|s: Seq<char>| #![trigger e + s] e + s =~= s);
        assert(forall|s: Seq<char>| #![trigger s + e] s + e =~= s);
    }
    r
}

/// The names of the held modifiers, in the order Ctrl, Alt, Shift, Super.
pub fn modifier_names(modifiers: ModifierSet) -> (names: Vec<&'static str>)
    ensures
        names@.len() == modifier_name_list(modifiers).len(),
        forall|i: int| 0 <= i < names@.len() ==> #[trigger] names@[i]@ == modifier_name_list(modifiers)[i],
{
    let mut names: Vec<&'static str> = Vec::new();
    let ghost e = Seq::<Seq<char>>::empty();
    let ghost mut expect = e;
    if modifiers.ctrl {
        names.push("Ctrl");
        proof { expect = expect + seq!["Ctrl"@]; }
    } else {
        proof { expect = expect + e; }
    }
    if modifiers.alt {
        names.push("Alt");
        proof { expect = expect + seq!["Alt"@]; }
    } else {
        proof { expect = expect + e; }
    }
    if modifiers.shift {
        names.push("Shift");
        proof { expect = expect + seq!["Shift"@]; }
    } else {
        proof { expect = expect + e; }
    }
    if modifiers.logo {
        names.push("Super");
        proof { expect = expect + seq!["Super"@]; }
    } else {
        proof { expect = expect + e; }
    }
    assert(expect == modifier_name_list(modifiers));
    assert(names@.len() == expect.len()) by {
        assert(forall|s: Seq<Seq<char>>| #![trigger s + e] s + e =~= s);
    }
    assert forall|i: int| 0 <= i < names@.len() implies #[trigger] names@[i]@ == expect[i] by {
        assert(forall|s: Seq<Seq<char>>| #![trigger s + e] s + e =~= s);
    }
    names
}

} // verus!

verus! {

/// A key with modifiers bound to an action.
#[derive(Debug, Clone, PartialEq)]
pub struct ActionBinding {
    pub modifiers: ModifierSet,
    pub key: String,
    pub action: Action,
}

/// A binding as plain values: modifiers, key and action.
pub open spec fn entry_view(b: ActionBinding) -> (ModifierSet, Seq<char>, ActionView) {
    (b.modifiers, b.key@, b.action@)
}

/// Whether an entry applies to `key` pressed with `m`: the keys are equal without regard
/// to ASCII case and the modifiers are the same.
pub open spec fn entry_matches(e: (ModifierSet, Seq<char>, ActionView), key: Seq<char>, m: ModifierSet) -> bool {
    ascii_lower(e.1) == ascii_lower(key) && e.0 == m
}

/// The action of the first entry that applies to `key` with `m`.
pub open spec fn first_match(entries: Seq<(ModifierSet, Seq<char>, ActionView)>, key: Seq<char>, m: ModifierSet) -> Option<ActionView>
    decreases entries.len(),
{
    if entries.len() == 0 {
        None
    } else if entry_matches(entries[0], key, m) {
        Some(entries[0].2)
    } else {
        first_match(entries.drop_first(), key, m)
    }
}

/// The entries that config bindings yield: those whose action is known, with their
/// modifiers as a set and their key normalized.
pub open spec fn entries_from_config(cfgs: Seq<BindingConfig>, pan: Double, zoom: Double, zoom_out: Double) -> Seq<(ModifierSet, Seq<char>, ActionView)>
    decreases cfgs.len(),
{
    if cfgs.len() == 0 {
        Seq::empty()
    } else {
        let rest = entries_from_config(cfgs.drop_last(), pan, zoom, zoom_out);
        let c = cfgs.last();
        match action_named(c.action@, c.amount, pan, zoom, zoom_out, match c.command { Some(s) => Some(s@), None => None }) {
            Some(a) => rest.push((modifier_set_of(strings_view(c.mods@)), normalized_key(c.key@), a)),
            None => rest,
        }
    }
}

impl ActionBinding {
    /// Whether this binding applies to `key` pressed with `modifiers` (see `entry_matches`).
    pub fn matches(&self, key: &str, modifiers: ModifierSet) -> (r: bool)
        ensures
            r == entry_matches(entry_view(*self), key@, modifiers),
    {
        crate::text::eq_ignore_ascii_case(self.key.as_str(), key) && self.modifiers == modifiers
    }
}

/// The key bindings, in the order the config lists them.
#[derive(Debug, Clone, PartialEq)]
pub struct BindingMap {
    bindings: Vec<ActionBinding>,
}

impl BindingMap {
    /// The bindings as plain values, in order.
    pub closed spec fn entries(&self) -> Seq<(ModifierSet, Seq<char>, ActionView)> {
        Seq::new(self.bindings@.len(), |i: int| entry_view(self.bindings@[i]))
    }

    /// A map without bindings.
    pub fn new() -> (m: BindingMap)
        ensures
            m.entries() == Seq::<(ModifierSet, Seq<char>, ActionView)>::empty(),
    {
        let m = BindingMap { bindings: Vec::new() };
        assert(m.entries() =~= Seq::<(ModifierSet, Seq<char>, ActionView)>::empty());
        m
    }

    /// The bindings that the config lists, skipping those whose action is unknown
    /// (see `entries_from_config`). `default_zoom_out` is the reciprocal of `default_zoom`.
    pub fn from_config(bindings: &[BindingConfig], default_pan: Double, default_zoom: Double, default_zoom_out: Double) -> (m: BindingMap)
        ensures
            m.entries() == entries_from_config(bindings@, default_pan, default_zoom, default_zoom_out),
    {
        let mut out: Vec<ActionBinding> = Vec::new();
        let mut i: usize = 0;
        while i < bindings.len()
            invariant
                i <= bindings@.len(),
                Seq::new(out@.len(), |k: int| entry_view(out@[k])) == entries_from_config(bindings@.take(i as int), default_pan, default_zoom, default_zoom_out),
            decreases bindings@.len() - i,
        {
            let binding = &bindings[i];
            let ghost prev = Seq::new(out@.len(), |k: int| entry_view(out@[k]));
            let ghost next = bindings@.take(i + 1);
            proof {
                assert(next.drop_last() =~= bindings@.take(i as int));
                assert(next.last() == bindings@[i as int]);
            }
            let command = match &binding.command {
                Some(c) => Some(c.as_str()),
                None => None,
            };
            match Action::from_name(binding.action.as_str(), binding.amount, default_pan, default_zoom, default_zoom_out, command) {
                Some(action) => {
                    let modifiers = ModifierSet::from_names(binding.mods.as_slice());
                    let key = normalize_key(binding.key.as_str());
                    out.push(ActionBinding { modifiers, key, action });
                    assert(Seq::new(out@.len(), |k: int| entry_view(out@[k])) =~= prev.push(entry_view(out@[out@.len() - 1])));
                },
                None => {},
            }
            i += 1;
        }
        assert(bindings@.take(bindings@.len() as int) =~= bindings@);
        BindingMap { bindings: out }
    }

    /// The action bound to `key` (normalized first) with `modifiers`: that of the first
    /// binding that applies.
    pub fn resolve(&self, key: &str, modifiers: ModifierSet) -> (r: Option<Action>)
        ensures
            match r {
                Some(a) => first_match(self.entries(), normalized_key(key@), modifiers) == Some(a@),
                None => first_match(self.entries(), normalized_key(key@), modifiers) is None,
            },
    {
        let nkey = normalize_key(key);
        let ghost entries = self.entries();
        assert(entries.skip(0) =~= entries);
        let mut i: usize = 0;
        while i < self.bindings.len()
            invariant
                i <= self.bindings@.len(),
                nkey@ == normalized_key(key@),
                entries == self.entries(),
                entries.len() == self.bindings@.len(),
                first_match(entries, nkey@, modifiers) == first_match(entries.skip(i as int), nkey@, modifiers),
            decreases self.bindings@.len() - i,
        {
            let ghost rest = entries.skip(i as int);
            proof {
                assert(rest[0] == entry_view(self.bindings@[i as int]));
                assert(rest.drop_first() =~= entries.skip(i + 1));
            }
            if self.bindings[i].matches(nkey.as_str(), modifiers) {
                let a = self.bindings[i].action.clone();
                assert(first_match(rest, nkey@, modifiers) == Some(a@));
                return Some(a);
            }
            i += 1;
        }
        assert(entries.skip(i as int).len() == 0);
        None
    }

    /// The number of bindings.
    pub fn len(&self) -> (n: usize)
        ensures
            n == self.entries().len(),
    {
        self.bindings.len()
    }

    /// Whether there are no bindings.
    pub fn is_empty(&self) -> (r: bool)
        ensures
            r == (self.entries().len() == 0),
    {
        self.bindings.len() == 0
    }
}

impl Default for BindingMap {
    fn default() -> (m: Self)
        ensures
            m.entries() == Seq::<(ModifierSet, Seq<char>, ActionView)>::empty(),
    {
        BindingMap::new()
    }
}

} // verus!

verus! {

proof fn lemma_symbolic_names_normal(lower: Seq<char>)
    requires
        symbolic_key(lower) is Some,
    ensures
        trim(symbolic_key(lower).unwrap()) == symbolic_key(lower).unwrap(),
        symbolic_key(ascii_lower(symbolic_key(lower).unwrap())) == symbolic_key(lower),
{
    reveal_strlit("-");
    reveal_strlit("=");
    reveal_strlit("Backspace");
    reveal_strlit("Down");
    reveal_strlit("Equal");
    reveal_strlit("Escape");
    reveal_strlit("Home");
    reveal_strlit("Left");
    reveal_strlit("Minus");
    reveal_strlit("PageDown");
    reveal_strlit("PageUp");
    reveal_strlit("Return");
    reveal_strlit("Right");
    reveal_strlit("Space");
    reveal_strlit("Tab");
    reveal_strlit("Up");
    reveal_strlit("backspace");
    reveal_strlit("down");
    reveal_strlit("enter");
    reveal_strlit("equal");
    reveal_strlit("esc");
    reveal_strlit("escape");
    reveal_strlit("home");
    reveal_strlit("left");
    reveal_strlit("minus");
    reveal_strlit("pagedown");
    reveal_strlit("pageup");
    reveal_strlit("return");
    reveal_strlit("right");
    reveal_strlit("space");
    reveal_strlit("tab");
    reveal_strlit("up");
    let name = symbolic_key(lower).unwrap();
    lemma_trim_fixed(name);
    if name == "Minus"@ {
        assert(ascii_lower(name) =~= "minus"@);
        assert("-"@.len() != "minus"@.len());
        assert(symbolic_key("minus"@) == Some("Minus"@));
    } else if name == "Equal"@ {
        assert(ascii_lower(name) =~= "equal"@);
        assert("-"@.len() != "equal"@.len());
        assert("minus"@[0] != "equal"@[0]);
        assert("="@.len() != "equal"@.len());
        assert(symbolic_key("equal"@) == Some("Equal"@));
    } else if name == "Space"@ {
        assert(ascii_lower(name) =~= "space"@);
        assert("-"@.len() != "space"@.len());
        assert("minus"@[0] != "space"@[0]);
        assert("="@.len() != "space"@.len());
        assert("equal"@[0] != "space"@[0]);
        assert(symbolic_key("space"@) == Some("Space"@));
    } else if name == "Return"@ {
        assert(ascii_lower(name) =~= "return"@);
        assert("-"@.len() != "return"@.len());
        assert("minus"@.len() != "return"@.len());
        assert("="@.len() != "return"@.len());
        assert("equal"@.len() != "return"@.len());
        assert("space"@.len() != "return"@.len());
        assert(symbolic_key("return"@) == Some("Return"@));
    } else if name == "Escape"@ {
        assert(ascii_lower(name) =~= "escape"@);
        assert("-"@.len() != "escape"@.len());
        assert("minus"@.len() != "escape"@.len());
        assert("="@.len() != "escape"@.len());
        assert("equal"@.len() != "escape"@.len());
        assert("space"@.len() != "escape"@.len());
        assert("return"@[0] != "escape"@[0]);
        assert("enter"@.len() != "escape"@.len());
        assert(symbolic_key("escape"@) == Some("Escape"@));
    } else if name == "Tab"@ {
        assert(ascii_lower(name) =~= "tab"@);
        assert("-"@.len() != "tab"@.len());
        assert("minus"@.len() != "tab"@.len());
        assert("="@.len() != "tab"@.len());
        assert("equal"@.len() != "tab"@.len());
        assert("space"@.len() != "tab"@.len());
        assert("return"@.len() != "tab"@.len());
        assert("enter"@.len() != "tab"@.len());
        assert("escape"@.len() != "tab"@.len());
        assert("esc"@[0] != "tab"@[0]);
        assert(symbolic_key("tab"@) == Some("Tab"@));
    } else if name == "Backspace"@ {
        assert(ascii_lower(name) =~= "backspace"@);
        assert("-"@.len() != "backspace"@.len());
        assert("minus"@.len() != "backspace"@.len());
        assert("="@.len() != "backspace"@.len());
        assert("equal"@.len() != "backspace"@.len());
        assert("space"@.len() != "backspace"@.len());
        assert("return"@.len() != "backspace"@.len());
        assert("enter"@.len() != "backspace"@.len());
        assert("escape"@.len() != "backspace"@.len());
        assert("esc"@.len() != "backspace"@.len());
        assert("tab"@.len() != "backspace"@.len());
        assert(symbolic_key("backspace"@) == Some("Backspace"@));
    } else if name == "Left"@ {
        assert(ascii_lower(name) =~= "left"@);
        assert("-"@.len() != "left"@.len());
        assert("minus"@.len() != "left"@.len());
        assert("="@.len() != "left"@.len());
        assert("equal"@.len() != "left"@.len());
        assert("space"@.len() != "left"@.len());
        assert("return"@.len() != "left"@.len());
        assert("enter"@.len() != "left"@.len());
        assert("escape"@.len() != "left"@.len());
        assert("esc"@.len() != "left"@.len());
        assert("tab"@.len() != "left"@.len());
        assert("backspace"@.len() != "left"@.len());
        assert(symbolic_key("left"@) == Some("Left"@));
    } else if name == "Right"@ {
        assert(ascii_lower(name) =~= "right"@);
        assert("-"@.len() != "right"@.len());
        assert("minus"@[0] != "right"@[0]);
        assert("="@.len() != "right"@.len());
        assert("equal"@[0] != "right"@[0]);
        assert("space"@[0] != "right"@[0]);
        assert("return"@.len() != "right"@.len());
        assert("enter"@[0] != "right"@[0]);
        assert("escape"@.len() != "right"@.len());
        assert("esc"@.len() != "right"@.len());
        assert("tab"@.len() != "right"@.len());
        assert("backspace"@.len() != "right"@.len());
        assert("left"@.len() != "right"@.len());
        assert(symbolic_key("right"@) == Some("Right"@));
    } else if name == "Up"@ {
        assert(ascii_lower(name) =~= "up"@);
        assert("-"@.len() != "up"@.len());
        assert("minus"@.len() != "up"@.len());
        assert("="@.len() != "up"@.len());
        assert("equal"@.len() != "up"@.len());
        assert("space"@.len() != "up"@.len());
        assert("return"@.len() != "up"@.len());
        assert("enter"@.len() != "up"@.len());
        assert("escape"@.len() != "up"@.len());
        assert("esc"@.len() != "up"@.len());
        assert("tab"@.len() != "up"@.len());
        assert("backspace"@.len() != "up"@.len());
        assert("left"@.len() != "up"@.len());
        assert("right"@.len() != "up"@.len());
        assert(symbolic_key("up"@) == Some("Up"@));
    } else if name == "Down"@ {
        assert(ascii_lower(name) =~= "down"@);
        assert("-"@.len() != "down"@.len());
        assert("minus"@.len() != "down"@.len());
        assert("="@.len() != "down"@.len());
        assert("equal"@.len() != "down"@.len());
        assert("space"@.len() != "down"@.len());
        assert("return"@.len() != "down"@.len());
        assert("enter"@.len() != "down"@.len());
        assert("escape"@.len() != "down"@.len());
        assert("esc"@.len() != "down"@.len());
        assert("tab"@.len() != "down"@.len());
        assert("backspace"@.len() != "down"@.len());
        assert("left"@[0] != "down"@[0]);
        assert("right"@.len() != "down"@.len());
        assert("up"@.len() != "down"@.len());
        assert(symbolic_key("down"@) == Some("Down"@));
    } else if name == "Home"@ {
        assert(ascii_lower(name) =~= "home"@);
        assert("-"@.len() != "home"@.len());
        assert("minus"@.len() != "home"@.len());
        assert("="@.len() != "home"@.len());
        assert("equal"@.len() != "home"@.len());
        assert("space"@.len() != "home"@.len());
        assert("return"@.len() != "home"@.len());
        assert("enter"@.len() != "home"@.len());
        assert("escape"@.len() != "home"@.len());
        assert("esc"@.len() != "home"@.len());
        assert("tab"@.len() != "home"@.len());
        assert("backspace"@.len() != "home"@.len());
        assert("left"@[0] != "home"@[0]);
        assert("right"@.len() != "home"@.len());
        assert("up"@.len() != "home"@.len());
        assert("down"@[0] != "home"@[0]);
        assert(symbolic_key("home"@) == Some("Home"@));
    } else if name == "PageUp"@ {
        assert(ascii_lower(name) =~= "pageup"@);
        assert("-"@.len() != "pageup"@.len());
        assert("minus"@.len() != "pageup"@.len());
        assert("="@.len() != "pageup"@.len());
        assert("equal"@.len() != "pageup"@.len());
        assert("space"@.len() != "pageup"@.len());
        assert("return"@[0] != "pageup"@[0]);
        assert("enter"@.len() != "pageup"@.len());
        assert("escape"@[0] != "pageup"@[0]);
        assert("esc"@.len() != "pageup"@.len());
        assert("tab"@.len() != "pageup"@.len());
        assert("backspace"@.len() != "pageup"@.len());
        assert("left"@.len() != "pageup"@.len());
        assert("right"@.len() != "pageup"@.len());
        assert("up"@.len() != "pageup"@.len());
        assert("down"@.len() != "pageup"@.len());
        assert("home"@.len() != "pageup"@.len());
        assert(symbolic_key("pageup"@) == Some("PageUp"@));
    } else if name == "PageDown"@ {
        assert(ascii_lower(name) =~= "pagedown"@);
        assert("-"@.len() != "pagedown"@.len());
        assert("minus"@.len() != "pagedown"@.len());
        assert("="@.len() != "pagedown"@.len());
        assert("equal"@.len() != "pagedown"@.len());
        assert("space"@.len() != "pagedown"@.len());
        assert("return"@.len() != "pagedown"@.len());
        assert("enter"@.len() != "pagedown"@.len());
        assert("escape"@.len() != "pagedown"@.len());
        assert("esc"@.len() != "pagedown"@.len());
        assert("tab"@.len() != "pagedown"@.len());
        assert("backspace"@.len() != "pagedown"@.len());
        assert("left"@.len() != "pagedown"@.len());
        assert("right"@.len() != "pagedown"@.len());
        assert("up"@.len() != "pagedown"@.len());
        assert("down"@.len() != "pagedown"@.len());
        assert("home"@.len() != "pagedown"@.len());
        assert("pageup"@.len() != "pagedown"@.len());
        assert(symbolic_key("pagedown"@) == Some("PageDown"@));
    }
}

/// Normalizing a key name twice gives the same name as normalizing it once, so a key
/// stored in normal form matches itself when looked up again.
pub proof fn law_normalize_key_idempotent(key: Seq<char>)
    ensures
        normalized_key(normalized_key(key)) == normalized_key(key),
{
    let k = trim(key);
    let lower = ascii_lower(k);
    lemma_trim_shape(key);
    let r = normalized_key(key);
    match symbolic_key(lower) {
        Some(name) => {
            lemma_symbolic_names_normal(lower);
        },
        None => {
            if k.len() == 1 {
                let c = k[0];
                lemma_case_change_keeps_white_space(c);
                assert(r =~= seq![ascii_upper_char(c)]);
                lemma_trim_fixed(r);
                assert(ascii_lower(r) =~= lower);
                assert(ascii_upper(r) =~= r);
            } else {
                assert forall|i: int| 0 <= i < k.len() implies is_white_space(#[trigger] lower[i]) == is_white_space(k[i]) by {
                    lemma_case_change_keeps_white_space(k[i]);
                }
                if k.len() > 0 {
                    assert(lower[0] == ascii_lower_char(k[0]));
                    assert(lower.last() == ascii_lower_char(k.last()));
                }
                lemma_trim_fixed(lower);
                assert forall|i: int| 0 <= i < lower.len() implies #[trigger] ascii_lower(lower)[i] == lower[i] by {
                    lemma_case_change_keeps_white_space(k[i]);
                }
                assert(ascii_lower(lower) =~= lower);
            }
        },
    }
}

/// Normalizing ignores the case of ASCII letters and leading and trailing white space:
/// a key name, its lower-case and upper-case spellings and its trimmed form all
/// normalize alike.
pub proof fn law_normalize_key_ignores_case_and_padding(key: Seq<char>)
    ensures
        normalized_key(ascii_lower(key)) == normalized_key(key),
        normalized_key(ascii_upper(key)) == normalized_key(key),
        normalized_key(trim(key)) == normalized_key(key),
{
    let k = trim(key);
    lemma_trim_idempotent(key);
    lemma_trim_case_commute(key);
    let kl = ascii_lower(k);
    let ku = ascii_upper(k);
    assert forall|i: int| 0 <= i < k.len() implies #[trigger] ascii_lower(kl)[i] == ascii_lower(k)[i] && ascii_upper(kl)[i] == ascii_upper(k)[i]
        && ascii_lower(ku)[i] == ascii_lower(k)[i] && ascii_upper(ku)[i] == ascii_upper(k)[i] by {
        lemma_case_change_keeps_white_space(k[i]);
    }
    assert(ascii_lower(kl) =~= ascii_lower(k));
    assert(ascii_upper(kl) =~= ascii_upper(k));
    assert(ascii_lower(ku) =~= ascii_lower(k));
    assert(ascii_upper(ku) =~= ascii_upper(k));
}

} // verus!

verus! {

/// The modifier names a key specification spells for `m`, in the order Super, Ctrl,
/// Alt, Shift.
pub open spec fn held_names(m: ModifierSet) -> Seq<Seq<char>> {
    (if m.logo { seq!["Super"@] } else { Seq::<Seq<char>>::empty() }) + (if m.ctrl { seq!["Ctrl"@] } else { Seq::<Seq<char>>::empty() }) + (if m.alt { seq!["Alt"@] } else { Seq::<Seq<char>>::empty() }) + (if m.shift { seq!["Shift"@] } else { Seq::<Seq<char>>::empty() })
}

proof fn lemma_split_plus_append_field(s: Seq<char>, t: Seq<char>)
    requires
        forall|i: int| 0 <= i < t.len() ==> t[i] != '+',
    ensures
        split_plus(s).len() >= 1,
        split_plus(s + t) == split_plus(s).update(split_plus(s).len() - 1, split_plus(s).last() + t),
    decreases t.len(),
{
    lemma_split_plus_nonempty(s);
    let p = split_plus(s);
    if t.len() == 0 {
        assert(s + t =~= s);
        assert(p.last() + t =~= p.last());
        assert(p.update(p.len() - 1, p.last() + t) =~= p);
    } else {
        let t0 = t.drop_last();
        lemma_split_plus_append_field(s, t0);
        assert((s + t).drop_last() =~= s + t0);
        assert((s + t).last() == t.last());
        let prev = split_plus(s + t0);
        assert(prev.last() == p.last() + t0);
        assert(prev.last().push(t.last()) =~= p.last() + t);
        assert(prev.update(prev.len() - 1, prev.last().push(t.last())) =~= p.update(p.len() - 1, p.last() + t));
    }
}

proof fn lemma_split_plus_append_separator(s: Seq<char>)
    ensures
        split_plus(s + "+"@) == split_plus(s).push(Seq::<char>::empty()),
{
    reveal_strlit("+");
    assert((s + "+"@).drop_last() =~= s);
    assert((s + "+"@).last() == '+');
}

proof fn lemma_split_plus_modifier(s: Seq<char>, names: Seq<Seq<char>>, name: Seq<char>, piece: Seq<char>)
    requires
        split_plus(s) == names.push(Seq::<char>::empty()),
        piece == name + "+"@,
        forall|i: int| 0 <= i < name.len() ==> name[i] != '+',
    ensures
        split_plus(s + piece) == names.push(name).push(Seq::<char>::empty()),
{
    lemma_split_plus_append_field(s, name);
    lemma_split_plus_append_separator(s + name);
    assert(s + piece =~= (s + name) + "+"@);
    let p = names.push(Seq::<char>::empty());
    assert(Seq::<char>::empty() + name =~= name);
    assert(p.update(p.len() - 1, p.last() + name) =~= names.push(name));
}

proof fn lemma_nonempty_trimmed_fixed(fields: Seq<Seq<char>>)
    requires
        forall|i: int| 0 <= i < fields.len() ==> (#[trigger] fields[i]).len() > 0 && trim(fields[i]) == fields[i],
    ensures
        nonempty_trimmed(fields) == fields,
    decreases fields.len(),
{
    if fields.len() > 0 {
        let front = fields.drop_last();
        assert forall|i: int| 0 <= i < front.len() implies (#[trigger] front[i]).len() > 0 && trim(front[i]) == front[i] by {
            assert(front[i] == fields[i]);
        }
        lemma_nonempty_trimmed_fixed(front);
        assert(fields.last() == fields[fields.len() - 1]);
        assert(front.push(fields.last()) =~= fields);
    }
}

proof fn lemma_canonical_modifiers_fixed(names: Seq<Seq<char>>)
    requires
        forall|i: int| 0 <= i < names.len() ==> canonical_modifier(#[trigger] names[i]) == Some(names[i]),
    ensures
        canonical_modifiers(names) == Ok::<Seq<Seq<char>>, Seq<char>>(names),
    decreases names.len(),
{
    if names.len() > 0 {
        let front = names.drop_last();
        assert forall|i: int| 0 <= i < front.len() implies canonical_modifier(#[trigger] front[i]) == Some(front[i]) by {
            assert(front[i] == names[i]);
        }
        lemma_canonical_modifiers_fixed(front);
        assert(names.last() == names[names.len() - 1]);
        assert(canonical_modifier(names[names.len() - 1]) == Some(names[names.len() - 1]));
        assert(front.push(names.last()) =~= names);
    } else {
        assert(names =~= Seq::<Seq<char>>::empty());
    }
}

proof fn lemma_normalized_key_trimmed(key: Seq<char>)
    ensures
        trim(normalized_key(key)) == normalized_key(key),
{
    let k = trim(key);
    let lower = ascii_lower(k);
    lemma_trim_shape(key);
    let r = normalized_key(key);
    reveal_strlit("Minus");
    reveal_strlit("Equal");
    reveal_strlit("Space");
    reveal_strlit("Return");
    reveal_strlit("Escape");
    reveal_strlit("Tab");
    reveal_strlit("Backspace");
    reveal_strlit("Left");
    reveal_strlit("Right");
    reveal_strlit("Up");
    reveal_strlit("Down");
    reveal_strlit("Home");
    reveal_strlit("PageUp");
    reveal_strlit("PageDown");
    if r.len() > 0 {
        if symbolic_key(lower) is None {
            lemma_case_change_keeps_white_space(k[0]);
            lemma_case_change_keeps_white_space(k.last());
            assert(r[0] == ascii_lower_char(k[0]) || r[0] == ascii_upper_char(k[0]));
            assert(r.last() == ascii_lower_char(k.last()) || r.last() == ascii_upper_char(k.last()));
        }
    }
    lemma_trim_fixed(r);
}

/// A key name formatted with a modifier set parses back to the normalized key, with
/// modifier names that give the same set, provided the name is not empty, has no
/// leading or trailing white space and holds no `+` (the separator of key
/// specifications).
pub proof fn law_keyspec_round_trip_raw(key: Seq<char>, m: ModifierSet)
    requires
        key.len() > 0,
        trim(key) == key,
        forall|i: int| 0 <= i < key.len() ==> key[i] != '+',
    ensures
        parsed_keyspec(keyspec_text(key, m)) == Ok::<(Seq<Seq<char>>, Seq<char>), Seq<char>>((held_names(m), normalized_key(key))),
        modifier_set_of(held_names(m)) == m,
{
    let k = key;
    reveal_strlit("Super+");
    reveal_strlit("Ctrl+");
    reveal_strlit("Alt+");
    reveal_strlit("Shift+");
    reveal_strlit("Super");
    reveal_strlit("Ctrl");
    reveal_strlit("Control");
    reveal_strlit("Alt");
    reveal_strlit("Shift");
    reveal_strlit("Logo");
    reveal_strlit("Meta");
    reveal_strlit("+");
    let e = Seq::<char>::empty();
    let en = Seq::<Seq<char>>::empty();
    let a = if m.logo { "Super+"@ } else { e };
    let b = if m.ctrl { "Ctrl+"@ } else { e };
    let c = if m.alt { "Alt+"@ } else { e };
    let d = if m.shift { "Shift+"@ } else { e };
    let na = if m.logo { seq!["Super"@] } else { en };
    let nb = na + if m.ctrl { seq!["Ctrl"@] } else { en };
    let nc = nb + if m.alt { seq!["Alt"@] } else { en };
    let nd = nc + if m.shift { seq!["Shift"@] } else { en };
    assert(nd =~= held_names(m));
    // The specification splits into the held names and the key.
    assert(split_plus(e) == en.push(e));
    assert(e + a =~= a);
    if m.logo {
        assert("Super+"@ =~= "Super"@ + "+"@);
        lemma_split_plus_modifier(e, en, "Super"@, "Super+"@);
        assert(en.push("Super"@) =~= na);
    } else {
        assert(en =~= na);
    }
    assert(split_plus(a) == na.push(e));
    if m.ctrl {
        assert("Ctrl+"@ =~= "Ctrl"@ + "+"@);
        lemma_split_plus_modifier(a, na, "Ctrl"@, "Ctrl+"@);
        assert(na.push("Ctrl"@) =~= nb);
    } else {
        assert(a + b =~= a);
        assert(na =~= nb);
    }
    assert(split_plus(a + b) == nb.push(e));
    if m.alt {
        assert("Alt+"@ =~= "Alt"@ + "+"@);
        lemma_split_plus_modifier(a + b, nb, "Alt"@, "Alt+"@);
        assert(nb.push("Alt"@) =~= nc);
    } else {
        assert(a + b + c =~= a + b);
        assert(nb =~= nc);
    }
    assert(split_plus(a + b + c) == nc.push(e));
    if m.shift {
        assert("Shift+"@ =~= "Shift"@ + "+"@);
        lemma_split_plus_modifier(a + b + c, nc, "Shift"@, "Shift+"@);
        assert(nc.push("Shift"@) =~= nd);
    } else {
        assert(a + b + c + d =~= a + b + c);
        assert(nc =~= nd);
    }
    assert(split_plus(a + b + c + d) == nd.push(e));
    lemma_split_plus_append_field(a + b + c + d, k);
    let text = keyspec_text(k, m);
    assert(text =~= a + b + c + d + k);
    let p = nd.push(e);
    assert(e + k =~= k);
    assert(p.update(p.len() - 1, p.last() + k) =~= nd.push(k));
    let parts = nd.push(k);
    assert(split_plus(text) == parts);
    // Every part is already trimmed and not empty.
    lemma_trim_fixed("Super"@);
    lemma_trim_fixed("Ctrl"@);
    lemma_trim_fixed("Alt"@);
    lemma_trim_fixed("Shift"@);
    assert forall|i: int| 0 <= i < parts.len() implies (#[trigger] parts[i]).len() > 0 && trim(parts[i]) == parts[i] by {
        if i < nd.len() {
            assert(parts[i] == nd[i]);
        }
    }
    lemma_nonempty_trimmed_fixed(parts);
    assert(keyspec_parts(text) == parts);
    assert(parts.drop_last() =~= nd);
    assert forall|i: int| 0 <= i < nd.len() implies canonical_modifier(#[trigger] nd[i]) == Some(nd[i]) by {
    }
    lemma_canonical_modifiers_fixed(nd);
    // The names give back the set.
    let hm = held_names(m);
    if m.logo {
        assert(canonical_modifier(hm[0]) == Some("Super"@));
    }
    if m.ctrl {
        let i = if m.logo { 1int } else { 0int };
        assert(hm[i] == "Ctrl"@);
        assert(canonical_modifier(hm[i]) == Some("Ctrl"@));
    }
    if m.alt {
        let i = (if m.logo { 1int } else { 0int }) + (if m.ctrl { 1int } else { 0int });
        assert(hm[i] == "Alt"@);
        assert(canonical_modifier(hm[i]) == Some("Alt"@));
    }
    if m.shift {
        let i = (if m.logo { 1int } else { 0int }) + (if m.ctrl { 1int } else { 0int }) + (if m.alt { 1int } else { 0int });
        assert(hm[i] == "Shift"@);
        assert(canonical_modifier(hm[i]) == Some("Shift"@));
    }
    assert(modifier_set_of(hm) =~= m);
}

/// A normalized key formatted with a modifier set parses back to the same key, with
/// modifier names that give the same set, provided the key is not empty and holds no
/// `+` (the separator of key specifications).
pub proof fn law_keyspec_round_trip(key: Seq<char>, m: ModifierSet)
    requires
        normalized_key(key).len() > 0,
        forall|i: int| 0 <= i < normalized_key(key).len() ==> normalized_key(key)[i] != '+',
    ensures
        parsed_keyspec(keyspec_text(normalized_key(key), m)) == Ok::<(Seq<Seq<char>>, Seq<char>), Seq<char>>((held_names(m), normalized_key(key))),
        modifier_set_of(held_names(m)) == m,
{
    lemma_normalized_key_trimmed(key);
    law_keyspec_round_trip_raw(normalized_key(key), m);
    law_normalize_key_idempotent(key);
}

} // verus!

verus! {

proof fn lemma_first_match_push(s: Seq<(ModifierSet, Seq<char>, ActionView)>, e: (ModifierSet, Seq<char>, ActionView), key: Seq<char>, m: ModifierSet)
    ensures
        first_match(s.push(e), key, m) == (if first_match(s, key, m) is Some {
            first_match(s, key, m)
        } else if entry_matches(e, key, m) {
            Some(e.2)
        } else {
            None
        }),
    decreases s.len(),
{
    reveal_with_fuel(first_match, 2);
    if s.len() > 0 {
        assert(s.push(e)[0] == s[0]);
        assert(s.push(e).drop_first() =~= s.drop_first().push(e));
        lemma_first_match_push(s.drop_first(), e, key, m);
    } else {
        assert(s.push(e)[0] == e);
        assert(s.push(e).drop_first() =~= Seq::<(ModifierSet, Seq<char>, ActionView)>::empty());
    }
}

/// A binding added after the others takes effect for its own key and modifiers unless
/// an earlier binding already applies to them: a press of its key with its modifiers
/// then resolves to its action.
pub proof fn law_added_binding_resolves(cfgs: Seq<BindingConfig>, c: BindingConfig, pan: Double, zoom: Double, zoom_out: Double)
    requires
        action_named(c.action@, c.amount, pan, zoom, zoom_out, match c.command { Some(s) => Some(s@), None => None }) is Some,
        first_match(entries_from_config(cfgs, pan, zoom, zoom_out), normalized_key(c.key@), modifier_set_of(strings_view(c.mods@))) is None,
    ensures
        first_match(entries_from_config(cfgs.push(c), pan, zoom, zoom_out), normalized_key(c.key@), modifier_set_of(strings_view(c.mods@)))
            == action_named(c.action@, c.amount, pan, zoom, zoom_out, match c.command { Some(s) => Some(s@), None => None }),
{
    let all = cfgs.push(c);
    assert(all.drop_last() =~= cfgs);
    assert(all.last() == c);
    let a = action_named(c.action@, c.amount, pan, zoom, zoom_out, match c.command { Some(s) => Some(s@), None => None })->0;
    let e = (modifier_set_of(strings_view(c.mods@)), normalized_key(c.key@), a);
    lemma_first_match_push(entries_from_config(cfgs, pan, zoom, zoom_out), e, normalized_key(c.key@), modifier_set_of(strings_view(c.mods@)));
}


/// The action found for a key and a modifier set comes from the first entry whose key
/// equals the pressed key without regard to ASCII case and whose modifier set is exactly
/// the pressed one (a binding with fewer modifiers does not apply); none is found when no
/// entry has both.
pub proof fn law_lookup_needs_exact_modifiers(entries: Seq<(ModifierSet, Seq<char>, ActionView)>, key: Seq<char>, m: ModifierSet)
    ensures
        first_match(entries, key, m) matches Some(a) ==> exists|i: int|
            0 <= i < entries.len()
            && (#[trigger] entries[i]).0 == m
            && ascii_lower(entries[i].1) == ascii_lower(key)
            && entries[i].2 == a
            && forall|j: int| 0 <= j < i ==> !((#[trigger] entries[j]).0 == m && ascii_lower(entries[j].1) == ascii_lower(key)),
        first_match(entries, key, m) is None ==> forall|i: int|
            0 <= i < entries.len() ==> !((#[trigger] entries[i]).0 == m && ascii_lower(entries[i].1) == ascii_lower(key)),
    decreases entries.len(),
{
    if entries.len() > 0 {
        let rest = entries.drop_first();
        law_lookup_needs_exact_modifiers(rest, key, m);
        if !(entries[0].0 == m && ascii_lower(entries[0].1) == ascii_lower(key)) {
            if let Some(a) = first_match(entries, key, m) {
                let k = choose|k: int|
                    0 <= k < rest.len()
                    && (#[trigger] rest[k]).0 == m
                    && ascii_lower(rest[k].1) == ascii_lower(key)
                    && rest[k].2 == a
                    && forall|j: int| 0 <= j < k ==> !((#[trigger] rest[j]).0 == m && ascii_lower(rest[j].1) == ascii_lower(key));
                assert(entries[k + 1] == rest[k]);
                assert forall|j: int| 0 <= j < k + 1 implies !((#[trigger] entries[j]).0 == m && ascii_lower(entries[j].1) == ascii_lower(key)) by {
                    if j > 0 {
                        assert(entries[j] == rest[j - 1]);
                    }
                }
            } else {
                assert forall|i: int| 0 <= i < entries.len() implies !((#[trigger] entries[i]).0 == m && ascii_lower(entries[i].1) == ascii_lower(key)) by {
                    if i > 0 {
                        assert(entries[i] == rest[i - 1]);
                    }
                }
            }
        }
    }
}

} // verus!
