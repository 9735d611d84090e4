//! Window rules: matchers on client properties and the settings they apply.
use vstd::prelude::*;

use crate::canvas::Size;
use crate::config::{Config, RuleConfig};
use crate::window::model::copy_opt_string;
use crate::text::{chars_contain, chars_of, contains_run, str_equal};
use crate::window::model::WindowProperties;

verus! {

/// A rule that applies settings to windows whose properties match.
#[derive(Debug, Clone, PartialEq)]
pub struct WindowRule {
    pub app_id: Option<String>,
    pub title_contains: Option<String>,
    pub floating: Option<bool>,
    pub exclude_from_focus: Option<bool>,
    pub default_size: Option<Size>,
}

impl Default for WindowRule {
    fn default() -> (r: Self)
        ensures
            r.app_id is None,
            r.title_contains is None,
            r.floating is None,
            r.exclude_from_focus is None,
            r.default_size is None,
    {
        WindowRule {
            app_id: None,
            title_contains: None,
            floating: None,
            exclude_from_focus: None,
            default_size: None,
        }
    }
}

/// The settings that the matching rules apply, each from the last matching rule that sets it.
#[derive(Debug, Clone, PartialEq)]
pub struct AppliedWindowRules {
    pub floating: Option<bool>,
    pub exclude_from_focus: Option<bool>,
    pub default_size: Option<Size>,
}

impl Default for AppliedWindowRules {
    fn default() -> (r: Self)
        ensures
            r.floating is None,
            r.exclude_from_focus is None,
            r.default_size is None,
    {
        AppliedWindowRules { floating: None, exclude_from_focus: None, default_size: None }
    }
}

/// Whether `rule` matches windows with `props`: an expected app id must equal the window's,
/// and a title fragment must occur in the window's title. A rule without matchers matches.
pub open spec fn rule_matches(rule: WindowRule, props: WindowProperties) -> bool {
    &&& (rule.app_id matches Some(expected) ==> (props.app_id matches Some(actual) && actual@ == expected@))
    &&& (rule.title_contains matches Some(needle) ==> (props.title matches Some(title) && contains_run(title@, needle@)))
}

/// The `floating` setting of the last rule in `rules` that matches and sets it.
pub open spec fn last_floating(props: WindowProperties, rules: Seq<WindowRule>) -> Option<bool>
    decreases rules.len(),
{
    if rules.len() == 0 {
        None
    } else if rule_matches(rules.last(), props) && rules.last().floating is Some {
        rules.last().floating
    } else {
        last_floating(props, rules.drop_last())
    }
}

/// The `exclude_from_focus` setting of the last rule in `rules` that matches and sets it.
pub open spec fn last_exclude_from_focus(props: WindowProperties, rules: Seq<WindowRule>) -> Option<bool>
    decreases rules.len(),
{
    if rules.len() == 0 {
        None
    } else if rule_matches(rules.last(), props) && rules.last().exclude_from_focus is Some {
        rules.last().exclude_from_focus
    } else {
        last_exclude_from_focus(props, rules.drop_last())
    }
}

/// The `default_size` setting of the last rule in `rules` that matches and sets it.
pub open spec fn last_default_size(props: WindowProperties, rules: Seq<WindowRule>) -> Option<Size>
    decreases rules.len(),
{
    if rules.len() == 0 {
        None
    } else if rule_matches(rules.last(), props) && rules.last().default_size is Some {
        rules.last().default_size
    } else {
        last_default_size(props, rules.drop_last())
    }
}

impl WindowRule {
    /// Whether this rule matches windows with `properties` (see `rule_matches`).
    pub fn matches(&self, properties: &WindowProperties) -> (r: bool)
        ensures
            r == rule_matches(*self, *properties),
    {
        let app_id_matches = match &self.app_id {
            None => true,
            Some(expected) => match &properties.app_id {
                Some(actual) => str_equal(actual.as_str(), expected.as_str()),
                None => false,
            },
        };
        let title_matches = match &self.title_contains {
            None => true,
            Some(needle) => match &properties.title {
                Some(title) => {
                    let hay = chars_of(title.as_str());
                    let pat = chars_of(needle.as_str());
                    chars_contain(hay.as_slice(), pat.as_slice())
                },
                None => false,
            },
        };
        app_id_matches && title_matches
    }
}

impl AppliedWindowRules {
    /// The settings applied by `rules` to a window with `properties`: for each setting,
    /// the value of the last matching rule that sets it.
    pub fn from_rules(properties: &WindowProperties, rules: &[WindowRule]) -> (a: AppliedWindowRules)
        ensures
            a.floating == last_floating(*properties, rules@),
            a.exclude_from_focus == last_exclude_from_focus(*properties, rules@),
            a.default_size == last_default_size(*properties, rules@),
    {
        let mut applied = AppliedWindowRules::default();
        let mut i: usize = 0;
        while i < rules.len()
            invariant
                i <= rules@.len(),
                applied.floating == last_floating(*properties, rules@.take(i as int)),
                applied.exclude_from_focus == last_exclude_from_focus(*properties, rules@.take(i as int)),
                applied.default_size == last_default_size(*properties, rules@.take(i as int)),
            decreases rules@.len() - i,
        {
            let rule = &rules[i];
            let ghost next = rules@.take(i + 1);
            proof {
                assert(next.drop_last() =~= rules@.take(i as int));
                assert(next.last() == rules@[i as int]);
            }
            if rule.matches(properties) {
                if let Some(floating) = rule.floating {
                    applied.floating = Some(floating);
                }
                if let Some(exclude_from_focus) = rule.exclude_from_focus {
                    applied.exclude_from_focus = Some(exclude_from_focus);
                }
                if let Some(default_size) = rule.default_size {
                    applied.default_size = Some(default_size);
                }
            }
            i += 1;
        }
        assert(rules@.take(rules@.len() as int) =~= rules@);
        applied
    }
}

/// `rule` is the window rule that the configured rule `cfg` gives: the same matchers and
/// settings, and a default size where `cfg` gives both a width and a height, each taken
/// as `as i64` takes a number.
pub open spec fn compiled_rule(cfg: RuleConfig, rule: WindowRule) -> bool {
    &&& rule.app_id == cfg.app_id
    &&& rule.title_contains == cfg.title_contains
    &&& rule.floating == cfg.floating
    &&& rule.exclude_from_focus == cfg.exclude_from_focus
    &&& rule.default_size == (match (cfg.width, cfg.height) {
        (Some(w), Some(h)) => Some(Size { w: w.as_i64_spec(), h: h.as_i64_spec() }),
        _ => None,
    })
}

/// The window rule that the configured rule `cfg` gives (see `compiled_rule`).
pub fn compile_window_rule(cfg: &RuleConfig) -> (r: WindowRule)
    ensures
        compiled_rule(*cfg, r),
{
    let default_size = match (cfg.width, cfg.height) {
        (Some(w), Some(h)) => Some(Size::new(w.to_i64(), h.to_i64())),
        _ => None,
    };
    WindowRule {
        app_id: copy_opt_string(&cfg.app_id),
        title_contains: copy_opt_string(&cfg.title_contains),
        floating: cfg.floating,
        exclude_from_focus: cfg.exclude_from_focus,
        default_size,
    }
}

/// The window rules of a configuration, in its order; none without one.
pub fn compile_window_rules(config: Option<&Config>) -> (r: Vec<WindowRule>)
    ensures
        match config {
            None => r@.len() == 0,
            Some(c) => r@.len() == c.rules@.len()
                && forall|i: int| 0 <= i < r@.len() ==> compiled_rule(#[trigger] c.rules@[i], r@[i]),
        },
{
    let mut out: Vec<WindowRule> = Vec::new();
    match config {
        None => {},
        Some(c) => {
            let mut i: usize = 0;
            while i < c.rules.len()
                invariant
                    i <= c.rules@.len(),
                    out@.len() == i,
                    forall|k: int| 0 <= k < i ==> compiled_rule(#[trigger] c.rules@[k], out@[k]),
                decreases c.rules@.len() - i,
            {
                let rule = compile_window_rule(&c.rules[i]);
                out.push(rule);
                i += 1;
            }
        },
    }
    out
}

} // verus!

verus! {

/// Applies the floating and focus settings of `applied` to `window`; unset settings
/// leave the window as it is.
pub fn apply_rules_to_window(window: &mut crate::window::model::Window, applied: &AppliedWindowRules)
    ensures
        *final(window) == (crate::window::model::Window {
            floating: match applied.floating { Some(f) => f, None => old(window).floating },
            exclude_from_focus: match applied.exclude_from_focus { Some(e) => e, None => old(window).exclude_from_focus },
            ..*old(window)
        }),
{
    if let Some(floating) = applied.floating {
        window.floating = floating;
    }
    if let Some(exclude_from_focus) = applied.exclude_from_focus {
        window.exclude_from_focus = exclude_from_focus;
    }
}


/// A rule's app-id matcher accepts a window only when the window's app id is exactly the
/// expected one (a name merely containing it does not do); its title matcher accepts a
/// window whose title holds the fragment as a run of characters, anywhere in it. A rule
/// whose matchers all hold matches, and a rule that does not match a window sets none of
/// its settings.
pub proof fn law_app_id_matches_exactly(rule: WindowRule, props: WindowProperties)
    ensures
        rule.app_id is Some && rule_matches(rule, props) ==> props.app_id is Some && props.app_id->0@ == rule.app_id->0@,
        rule.app_id is Some && props.app_id is Some && props.app_id->0@ != rule.app_id->0@ ==> !rule_matches(rule, props),
        rule.app_id is Some && props.app_id is None ==> !rule_matches(rule, props),
        rule.title_contains is None && (rule.app_id is Some ==> props.app_id is Some && props.app_id->0@ == rule.app_id->0@) ==> rule_matches(rule, props),
        rule.title_contains is Some && rule_matches(rule, props) ==> props.title is Some && exists|i: int|
            0 <= i && i + rule.title_contains->0@.len() <= props.title->0@.len()
            && #[trigger] props.title->0@.subrange(i, i + rule.title_contains->0@.len()) == rule.title_contains->0@,
        rule.app_id is None && rule.title_contains is Some && props.title is Some && (exists|i: int|
            0 <= i && i + rule.title_contains->0@.len() <= props.title->0@.len()
            && #[trigger] props.title->0@.subrange(i, i + rule.title_contains->0@.len()) == rule.title_contains->0@) ==> rule_matches(rule, props),
        !rule_matches(rule, props) ==> last_floating(props, seq![rule]) is None
            && last_exclude_from_focus(props, seq![rule]) is None
            && last_default_size(props, seq![rule]) is None,
{
    let one = seq![rule];
    assert(one.drop_last() =~= Seq::<WindowRule>::empty());
    assert(one.last() == rule);
    assert(last_floating(props, one.drop_last()) is None);
    assert(last_exclude_from_focus(props, one.drop_last()) is None);
    assert(last_default_size(props, one.drop_last()) is None);
}

} // verus!
