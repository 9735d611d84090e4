//! The compositor configuration and the checks it must pass before use.
use vstd::prelude::*;

use crate::input::bindings::{canonical_modifier, canonical_modifier_name, parse_keyspec, parsed_keyspec};
use crate::number::{Double, Single};
use crate::text::{chars_of, concat_str, copy_str, str_equal, strings_view, trim, trim_chars};
use crate::tty::{TtyConfig, TtyOutputLayout};

verus! {

/// Why a configuration could not be loaded or used.
#[derive(Debug, Clone, PartialEq, Eq)]
pub enum ConfigError {
    /// A config file could not be read; `path` as displayed and the reason.
    Io { path: String, message: String },
    /// The Lua runtime reported an error, given by its message.
    Lua(String),
    /// The configuration breaks one of the rules that `Config::validate` checks.
    Validation(String),
}

/// The text that describes an error.
pub open spec fn error_text(e: ConfigError) -> Seq<char> {
    match e {
        ConfigError::Io { path, message } => "failed to read "@ + path@ + ": "@ + message@,
        ConfigError::Lua(m) => "lua error: "@ + m@,
        ConfigError::Validation(m) => "config validation error: "@ + m@,
    }
}

impl ConfigError {
    /// The text that describes the error.
    pub fn describe(&self) -> (r: String)
        ensures
            r@ == error_text(*self),
    {
        match self {
            ConfigError::Io { path, message } => {
                let a = concat_str("failed to read ", path.as_str());
                let b = concat_str(a.as_str(), ": ");
                concat_str(b.as_str(), message.as_str())
            },
            ConfigError::Lua(m) => concat_str("lua error: ", m.as_str()),
            ConfigError::Validation(m) => concat_str("config validation error: ", m.as_str()),
        }
    }
}

/// Canvas navigation settings.
#[derive(Debug, Clone, Copy, PartialEq, Eq)]
pub struct CanvasConfig {
    pub min_zoom: Double,
    pub max_zoom: Double,
    pub zoom_step: Double,
    pub pan_step: Double,
    pub allow_pointer_zoom: bool,
    pub allow_middle_click_pan: bool,
    pub allow_gesture_navigation: bool,
}

impl Default for CanvasConfig {
    /// Zoom from 0.1 to 8.0 in steps of 1.2, pan by 64, every navigation input allowed.
    fn default() -> (c: Self)
        ensures
            c.min_zoom == Double(0x3FB9_9999_9999_999A),
            c.max_zoom == Double(0x4020_0000_0000_0000),
            c.zoom_step == Double(0x3FF3_3333_3333_3333),
            c.pan_step == Double(0x4050_0000_0000_0000),
            c.allow_pointer_zoom && c.allow_middle_click_pan && c.allow_gesture_navigation,
    {
        CanvasConfig {
            min_zoom: Double(0x3FB9_9999_9999_999A),
            max_zoom: Double(0x4020_0000_0000_0000),
            zoom_step: Double(0x3FF3_3333_3333_3333),
            pan_step: Double(0x4050_0000_0000_0000),
            allow_pointer_zoom: true,
            allow_middle_click_pan: true,
            allow_gesture_navigation: true,
        }
    }
}

/// The layers that make up a frame.
#[derive(Debug, Clone, Copy, PartialEq, Eq, Structural)]
pub enum DrawLayer {
    Background,
    Windows,
    WindowOverlay,
    Popups,
    Overlay,
    Cursor,
}

/// The layer stack, bottom-most first, and the colour the frame is cleared to.
#[derive(Debug, Clone, PartialEq)]
pub struct DrawConfig {
    /// User-facing stacking order from bottom-most layer to top-most layer.
    pub stack: Vec<DrawLayer>,
    /// Clear color used before compositing draw/background/window layers.
    pub clear_color: [Single; 4],
}

/// The layer stack in its default order.
pub open spec fn default_stack() -> Seq<DrawLayer> {
    seq![DrawLayer::Background, DrawLayer::Windows, DrawLayer::WindowOverlay, DrawLayer::Popups, DrawLayer::Overlay, DrawLayer::Cursor]
}

impl Default for DrawConfig {
    /// The default layer order, cleared to a dark purple (0.08, 0.05, 0.12, 1.0).
    fn default() -> (c: Self)
        ensures
            c.stack@ == default_stack(),
            c.clear_color@ == seq![Single(0x3DA3_D70A), Single(0x3D4C_CCCD), Single(0x3DF5_C28F), Single(0x3F80_0000)],
    {
        let mut stack: Vec<DrawLayer> = Vec::new();
        stack.push(DrawLayer::Background);
        stack.push(DrawLayer::Windows);
        stack.push(DrawLayer::WindowOverlay);
        stack.push(DrawLayer::Popups);
        stack.push(DrawLayer::Overlay);
        stack.push(DrawLayer::Cursor);
        assert(stack@ =~= default_stack());
        let clear_color = [Single(0x3DA3_D70A), Single(0x3D4C_CCCD), Single(0x3DF5_C28F), Single(0x3F80_0000)];
        assert(clear_color@ =~= seq![Single(0x3DA3_D70A), Single(0x3D4C_CCCD), Single(0x3DF5_C28F), Single(0x3F80_0000)]);
        DrawConfig { stack, clear_color }
    }
}

/// How new windows are sized and decorated.
#[derive(Debug, Clone, Copy, PartialEq, Eq, Structural)]
pub struct WindowConfig {
    pub use_client_default_size: bool,
    pub remember_sizes_by_app_id: bool,
    pub hide_client_decorations: bool,
}

impl Default for WindowConfig {
    fn default() -> (c: Self)
        ensures
            c.use_client_default_size && c.remember_sizes_by_app_id && !c.hide_client_decorations,
    {
        WindowConfig {
            use_client_default_size: true,
            remember_sizes_by_app_id: true,
            hide_client_decorations: false,
        }
    }
}

/// Settings of the fallback placement of new windows.
#[derive(Debug, Clone, Copy, PartialEq, Eq)]
pub struct PlacementConfig {
    pub default_size: (Double, Double),
    pub padding: Double,
    pub cascade_step: (Double, Double),
}

impl Default for PlacementConfig {
    /// 900 by 600, padding 32, cascading by (32, 24).
    fn default() -> (c: Self)
        ensures
            c.default_size == (Double(0x408C_2000_0000_0000), Double(0x4082_C000_0000_0000)),
            c.padding == Double(0x4040_0000_0000_0000),
            c.cascade_step == (Double(0x4040_0000_0000_0000), Double(0x4038_0000_0000_0000)),
    {
        PlacementConfig {
            default_size: (Double(0x408C_2000_0000_0000), Double(0x4082_C000_0000_0000)),
            padding: Double(0x4040_0000_0000_0000),
            cascade_step: (Double(0x4040_0000_0000_0000), Double(0x4038_0000_0000_0000)),
        }
    }
}

/// A key binding as the config states it.
#[derive(Debug, PartialEq)]
pub struct BindingConfig {
    pub mods: Vec<String>,
    pub key: String,
    pub action: String,
    pub amount: Option<Double>,
    pub command: Option<String>,
}

/// A window rule as the config states it.
#[derive(Debug, PartialEq)]
pub struct RuleConfig {
    pub app_id: Option<String>,
    pub title_contains: Option<String>,
    pub floating: Option<bool>,
    pub exclude_from_focus: Option<bool>,
    pub width: Option<Double>,
    pub height: Option<Double>,
}

/// The whole configuration.
#[derive(Debug, Clone, PartialEq)]
pub struct Config {
    pub backend: Option<String>,
    pub canvas: CanvasConfig,
    pub draw: DrawConfig,
    pub window: WindowConfig,
    pub placement: PlacementConfig,
    pub tty: TtyConfig,
    pub autostart: Vec<String>,
    pub bindings: Vec<BindingConfig>,
    pub rules: Vec<RuleConfig>,
    /// The directory the configuration was loaded from.
    pub source_root: String,
}

/// The first error in `errs`, if any.
pub open spec fn first_some(errs: Seq<Option<Seq<char>>>) -> Option<Seq<char>>
    decreases errs.len(),
{
    if errs.len() == 0 {
        None
    } else if errs[0] is Some {
        errs[0]
    } else {
        first_some(errs.drop_first())
    }
}

proof fn lemma_first_some_skip(errs: Seq<Option<Seq<char>>>, i: int)
    requires
        0 <= i <= errs.len(),
        forall|k: int| 0 <= k < i ==> (#[trigger] errs[k]) is None,
    ensures
        first_some(errs) == first_some(errs.skip(i)),
    decreases i,
{
    if i == 0 {
        assert(errs.skip(0) =~= errs);
    } else {
        let t = errs.drop_first();
        assert forall|k: int| 0 <= k < i - 1 implies (#[trigger] t[k]) is None by {
            assert(t[k] == errs[k + 1]);
        }
        lemma_first_some_skip(t, i - 1);
        assert(t.skip(i - 1) =~= errs.skip(i));
    }
}

/// The error for a result: `None` for `Ok`, the validation message for a validation error.
pub open spec fn reports(r: Result<(), ConfigError>, e: Option<Seq<char>>) -> bool {
    match e {
        None => r is Ok,
        Some(m) => r matches Err(ConfigError::Validation(x)) && x@ == m,
    }
}

fn validation(message: &str) -> (e: ConfigError)
    ensures
        e matches ConfigError::Validation(m) && m@ == message@,
{
    ConfigError::Validation(copy_str(message))
}

/// The problem with the configured backend, if any.
pub open spec fn backend_error(backend: Option<String>) -> Option<Seq<char>> {
    match backend {
        Some(b) => if b@ == "winit"@ || b@ == "udev"@ || b@ == "headless"@ {
            None
        } else {
            Some("unsupported backend in config: "@ + b@)
        },
        None => None,
    }
}

/// The first problem with the canvas settings, if any.
pub open spec fn canvas_error(c: CanvasConfig) -> Option<Seq<char>> {
    if !c.min_zoom.is_finite_spec() {
        Some("canvas.min_zoom must be a finite number"@)
    } else if c.min_zoom.le_zero_spec() {
        Some("canvas.min_zoom must be > 0"@)
    } else if !c.max_zoom.is_finite_spec() {
        Some("canvas.max_zoom must be a finite number"@)
    } else if c.max_zoom.lt_spec(c.min_zoom) {
        Some("canvas.max_zoom must be >= canvas.min_zoom"@)
    } else if !c.zoom_step.is_finite_spec() {
        Some("canvas.zoom_step must be a finite number"@)
    } else if c.zoom_step.le_zero_spec() {
        Some("canvas.zoom_step must be > 0"@)
    } else if !c.pan_step.is_finite_spec() {
        Some("canvas.pan_step must be a finite number"@)
    } else if c.pan_step.lt_zero_spec() {
        Some("canvas.pan_step must be >= 0"@)
    } else {
        None
    }
}

/// How many times `layer` occurs in `stack`.
pub open spec fn layer_count(stack: Seq<DrawLayer>, layer: DrawLayer) -> nat
    decreases stack.len(),
{
    if stack.len() == 0 {
        0
    } else {
        layer_count(stack.drop_last(), layer) + (if stack.last() == layer { 1nat } else { 0nat })
    }
}

/// The problem with a layer stack, if any: it must list each of the six layers once.
pub open spec fn draw_stack_error(stack: Seq<DrawLayer>) -> Option<Seq<char>> {
    if stack.len() != 6 {
        Some("draw.stack must list exactly 6 layers: background, windows, window_overlay, popups, overlay, cursor"@)
    } else if !(forall|l: DrawLayer| layer_count(stack, l) == 1) {
        Some("draw.stack must include each layer exactly once: background, windows, window_overlay, popups, overlay, cursor"@)
    } else {
        None
    }
}

/// The problem with a colour, if any: every component must be finite.
pub open spec fn color_error(color: Seq<Single>, field_name: Seq<char>) -> Option<Seq<char>> {
    if exists|i: int| 0 <= i < color.len() && !(#[trigger] color[i]).is_finite_spec() {
        Some(field_name + " must contain finite components"@)
    } else {
        None
    }
}

/// The first problem with the placement settings, if any.
pub open spec fn placement_error(p: PlacementConfig) -> Option<Seq<char>> {
    if !p.default_size.0.is_finite_spec() || p.default_size.0.le_zero_spec() {
        Some("placement.default_size.w must be a positive finite number"@)
    } else if !p.default_size.1.is_finite_spec() || p.default_size.1.le_zero_spec() {
        Some("placement.default_size.h must be a positive finite number"@)
    } else if !p.padding.is_finite_spec() || p.padding.lt_zero_spec() {
        Some("placement.padding must be a finite number >= 0"@)
    } else if !p.cascade_step.0.is_finite_spec() || !p.cascade_step.1.is_finite_spec() {
        Some("placement.cascade_step must use finite numbers"@)
    } else {
        None
    }
}

/// The first problem with the tty settings, if any.
pub open spec fn tty_error(t: TtyConfig) -> Option<Seq<char>> {
    if trim(t.quit_key@).len() == 0 {
        Some("tty.quit_keyspec must not be empty"@)
    } else if t.vt_switch_modifiers@.len() == 0 {
        Some("tty.vt_switch_modifiers must not be empty"@)
    } else {
        None
    }
}

/// The actions a binding may name.
pub open spec fn supported_action(action: Seq<char>) -> bool {
    ||| action == "pan_left"@
    ||| action == "pan_right"@
    ||| action == "pan_up"@
    ||| action == "pan_down"@
    ||| action == "zoom_in"@
    ||| action == "zoom_out"@
    ||| action == "close_window"@
    ||| action == "spawn"@
    ||| action == "focus_next"@
    ||| action == "focus_prev"@
    ||| action == "quit"@
}

/// For each modifier of a binding, the problem with it, if any.
pub open spec fn modifier_errors(mods: Seq<String>) -> Seq<Option<Seq<char>>> {
    Seq::new(mods.len(), |i: int| if canonical_modifier(mods[i]@) is None {
        Some("unsupported modifier in binding config: "@ + mods[i]@)
    } else {
        None
    })
}

/// The first problem with a binding, if any.
pub open spec fn binding_error(b: BindingConfig) -> Option<Seq<char>> {
    if trim(b.key@).len() == 0 {
        Some("binding key must not be empty"@)
    } else if first_some(modifier_errors(b.mods@)) is Some {
        first_some(modifier_errors(b.mods@))
    } else if trim(b.action@).len() == 0 {
        Some("binding action must not be empty"@)
    } else if !supported_action(b.action@) {
        Some("unsupported binding action: "@ + b.action@)
    } else if b.action@ == "spawn"@ && (match b.command {
        None => true,
        Some(c) => trim(c@).len() == 0,
    }) {
        Some("spawn bindings must include a non-empty command"@)
    } else if b.amount matches Some(a) && a.le_zero_spec() {
        Some("binding amount must be > 0 when provided"@)
    } else {
        None
    }
}

/// For each autostart command, the problem with it, if any.
pub open spec fn autostart_errors(cmds: Seq<String>) -> Seq<Option<Seq<char>>> {
    Seq::new(cmds.len(), |i: int| if trim(cmds[i]@).len() == 0 {
        Some("autostart commands must not be empty"@)
    } else {
        None
    })
}

/// The first problem with a window rule, if any.
pub open spec fn rule_error(r: RuleConfig) -> Option<Seq<char>> {
    if r.app_id is None && r.title_contains is None {
        Some("window rule must match at least one field"@)
    } else if r.width matches Some(w) && w.le_zero_spec() {
        Some("rule width must be > 0"@)
    } else if r.height matches Some(h) && h.le_zero_spec() {
        Some("rule height must be > 0"@)
    } else {
        None
    }
}

/// The first problem with a set of settings, checked in the order: backend, canvas,
/// layer stack, clear colour, placement, tty keys, bindings, autostart commands, rules.
pub open spec fn settings_error(
    backend: Option<String>,
    canvas: CanvasConfig,
    stack: Seq<DrawLayer>,
    clear_color: Seq<Single>,
    placement: PlacementConfig,
    tty: TtyConfig,
    autostart: Seq<String>,
    bindings: Seq<BindingConfig>,
    rules: Seq<RuleConfig>,
) -> Option<Seq<char>> {
    let berrs = Seq::new(bindings.len(), |i: int| binding_error(bindings[i]));
    let rerrs = Seq::new(rules.len(), |i: int| rule_error(rules[i]));
    if backend_error(backend) is Some {
        backend_error(backend)
    } else if canvas_error(canvas) is Some {
        canvas_error(canvas)
    } else if draw_stack_error(stack) is Some {
        draw_stack_error(stack)
    } else if color_error(clear_color, "draw.clear_color"@) is Some {
        color_error(clear_color, "draw.clear_color"@)
    } else if placement_error(placement) is Some {
        placement_error(placement)
    } else if tty_error(tty) is Some {
        tty_error(tty)
    } else if first_some(berrs) is Some {
        first_some(berrs)
    } else if first_some(autostart_errors(autostart)) is Some {
        first_some(autostart_errors(autostart))
    } else {
        first_some(rerrs)
    }
}

/// The first problem with the configuration (see `settings_error`).
pub open spec fn config_error(c: Config) -> Option<Seq<char>> {
    settings_error(c.backend, c.canvas, c.draw.stack@, c.draw.clear_color@, c.placement, c.tty,
        c.autostart@, c.bindings@, c.rules@)
}

/// The layer that a name in `draw.stack` stands for.
pub open spec fn draw_layer_named(name: Seq<char>) -> Option<DrawLayer> {
    if name == "background"@ {
        Some(DrawLayer::Background)
    } else if name == "windows"@ {
        Some(DrawLayer::Windows)
    } else if name == "window_overlay"@ {
        Some(DrawLayer::WindowOverlay)
    } else if name == "popups"@ {
        Some(DrawLayer::Popups)
    } else if name == "overlay"@ {
        Some(DrawLayer::Overlay)
    } else if name == "cursor"@ {
        Some(DrawLayer::Cursor)
    } else {
        None
    }
}

/// The layer that a name in `draw.stack` stands for, or an error naming it.
pub fn parse_draw_layer_name(name: &str) -> (r: Result<DrawLayer, ConfigError>)
    ensures
        match draw_layer_named(name@) {
            Some(l) => r == Ok::<DrawLayer, ConfigError>(l),
            None => r matches Err(ConfigError::Validation(m)) && m@ == "unsupported draw layer in draw.stack: "@ + name@,
        },
{
    if str_equal(name, "background") {
        Ok(DrawLayer::Background)
    } else if str_equal(name, "windows") {
        Ok(DrawLayer::Windows)
    } else if str_equal(name, "window_overlay") {
        Ok(DrawLayer::WindowOverlay)
    } else if str_equal(name, "popups") {
        Ok(DrawLayer::Popups)
    } else if str_equal(name, "overlay") {
        Ok(DrawLayer::Overlay)
    } else if str_equal(name, "cursor") {
        Ok(DrawLayer::Cursor)
    } else {
        Err(ConfigError::Validation(concat_str("unsupported draw layer in draw.stack: ", name)))
    }
}

fn count_layer(stack: &[DrawLayer], layer: DrawLayer) -> (n: usize)
    ensures
        n == layer_count(stack@, layer),
{
    let mut n: usize = 0;
    let mut i: usize = 0;
    while i < stack.len()
        invariant
            i <= stack@.len(),
            n == layer_count(stack@.take(i as int), layer),
            n <= i,
        decreases stack@.len() - i,
    {
        let ghost next = stack@.take(i + 1);
        proof {
            assert(next.drop_last() =~= stack@.take(i as int));
        }
        if stack[i] == layer {
            n += 1;
        }
        i += 1;
    }
    assert(stack@.take(stack@.len() as int) =~= stack@);
    n
}

/// Checks that a layer stack lists each of the six layers exactly once.
pub fn validate_draw_stack(stack: &[DrawLayer]) -> (r: Result<(), ConfigError>)
    ensures
        reports(r, draw_stack_error(stack@)),
{
    if stack.len() != 6 {
        return Err(validation(
            "draw.stack must list exactly 6 layers: background, windows, window_overlay, popups, overlay, cursor",
        ));
    }
    let all = [
        DrawLayer::Background,
        DrawLayer::Windows,
        DrawLayer::WindowOverlay,
        DrawLayer::Popups,
        DrawLayer::Overlay,
        DrawLayer::Cursor,
    ];
    let mut i: usize = 0;
    while i < 6
        invariant
            i <= 6,
            stack@.len() == 6,
            all@ == seq![DrawLayer::Background, DrawLayer::Windows, DrawLayer::WindowOverlay, DrawLayer::Popups, DrawLayer::Overlay, DrawLayer::Cursor],
            forall|k: int| 0 <= k < i ==> layer_count(stack@, #[trigger] all@[k]) == 1,
        decreases 6 - i,
    {
        if count_layer(stack, all[i]) != 1 {
            assert(layer_count(stack@, all@[i as int]) != 1);
            return Err(validation(
                "draw.stack must include each layer exactly once: background, windows, window_overlay, popups, overlay, cursor",
            ));
        }
        i += 1;
    }
    assert forall|l: DrawLayer| layer_count(stack@, l) == 1 by {
        match l {
            DrawLayer::Background => assert(all@[0] == l),
            DrawLayer::Windows => assert(all@[1] == l),
            DrawLayer::WindowOverlay => assert(all@[2] == l),
            DrawLayer::Popups => assert(all@[3] == l),
            DrawLayer::Overlay => assert(all@[4] == l),
            DrawLayer::Cursor => assert(all@[5] == l),
        }
    }
    Ok(())
}

/// Checks that every component of a colour is finite.
pub fn validate_color(color: &[Single; 4], field_name: &str) -> (r: Result<(), ConfigError>)
    ensures
        reports(r, color_error(color@, field_name@)),
{
    let mut i: usize = 0;
    while i < 4
        invariant
            i <= 4,
            color@.len() == 4,
            forall|k: int| 0 <= k < i ==> (#[trigger] color@[k]).is_finite_spec(),
        decreases 4 - i,
    {
        if !color[i].is_finite() {
            assert(!color@[i as int].is_finite_spec());
            return Err(ConfigError::Validation(concat_str(field_name, " must contain finite components")));
        }
        i += 1;
    }
    Ok(())
}

/// Checks the placement settings.
pub fn validate_placement(placement: &PlacementConfig) -> (r: Result<(), ConfigError>)
    ensures
        reports(r, placement_error(*placement)),
{
    if !placement.default_size.0.is_finite() || placement.default_size.0.le_zero() {
        return Err(validation("placement.default_size.w must be a positive finite number"));
    }
    if !placement.default_size.1.is_finite() || placement.default_size.1.le_zero() {
        return Err(validation("placement.default_size.h must be a positive finite number"));
    }
    if !placement.padding.is_finite() || placement.padding.lt_zero() {
        return Err(validation("placement.padding must be a finite number >= 0"));
    }
    if !placement.cascade_step.0.is_finite() || !placement.cascade_step.1.is_finite() {
        return Err(validation("placement.cascade_step must use finite numbers"));
    }
    Ok(())
}

/// Whether a string is empty once white space is trimmed.
pub(crate) fn is_blank(s: &str) -> (r: bool)
    ensures
        r == (trim(s@).len() == 0),
{
    let v = chars_of(s);
    trim_chars(v.as_slice()).len() == 0
}

/// Checks the tty settings.
pub fn validate_tty(tty: &TtyConfig) -> (r: Result<(), ConfigError>)
    ensures
        reports(r, tty_error(*tty)),
{
    if is_blank(tty.quit_key.as_str()) {
        return Err(validation("tty.quit_keyspec must not be empty"));
    }
    if tty.vt_switch_modifiers.len() == 0 {
        return Err(validation("tty.vt_switch_modifiers must not be empty"));
    }
    Ok(())
}

fn check_canvas(c: &CanvasConfig) -> (r: Result<(), ConfigError>)
    ensures
        reports(r, canvas_error(*c)),
{
    if !c.min_zoom.is_finite() {
        return Err(validation("canvas.min_zoom must be a finite number"));
    }
    if c.min_zoom.le_zero() {
        return Err(validation("canvas.min_zoom must be > 0"));
    }
    if !c.max_zoom.is_finite() {
        return Err(validation("canvas.max_zoom must be a finite number"));
    }
    if c.max_zoom.lt(c.min_zoom) {
        return Err(validation("canvas.max_zoom must be >= canvas.min_zoom"));
    }
    if !c.zoom_step.is_finite() {
        return Err(validation("canvas.zoom_step must be a finite number"));
    }
    if c.zoom_step.le_zero() {
        return Err(validation("canvas.zoom_step must be > 0"));
    }
    if !c.pan_step.is_finite() {
        return Err(validation("canvas.pan_step must be a finite number"));
    }
    if c.pan_step.lt_zero() {
        return Err(validation("canvas.pan_step must be >= 0"));
    }
    Ok(())
}

fn is_supported_action(action: &str) -> (r: bool)
    ensures
        r == supported_action(action@),
{
    str_equal(action, "pan_left") || str_equal(action, "pan_right") || str_equal(action, "pan_up")
        || str_equal(action, "pan_down") || str_equal(action, "zoom_in") || str_equal(action, "zoom_out")
        || str_equal(action, "close_window") || str_equal(action, "spawn") || str_equal(action, "focus_next")
        || str_equal(action, "focus_prev") || str_equal(action, "quit")
}

fn check_binding(binding: &BindingConfig) -> (r: Result<(), ConfigError>)
    ensures
        reports(r, binding_error(*binding)),
{
    if is_blank(binding.key.as_str()) {
        return Err(validation("binding key must not be empty"));
    }
    let ghost errs = modifier_errors(binding.mods@);
    let mut i: usize = 0;
    while i < binding.mods.len()
        invariant
            i <= binding.mods@.len(),
            trim(binding.key@).len() != 0,
            errs == modifier_errors(binding.mods@),
            forall|k: int| 0 <= k < i ==> (#[trigger] errs[k]) is None,
        decreases binding.mods@.len() - i,
    {
        let modifier = &binding.mods[i];
        if canonical_modifier_name(modifier.as_str()).is_none() {
            proof {
                lemma_first_some_skip(errs, i as int);
                assert(errs.skip(i as int)[0] == errs[i as int]);
                assert(errs.skip(i as int).len() > 0);
                assert(first_some(errs.skip(i as int)) == errs[i as int]);
            }
            return Err(ConfigError::Validation(concat_str("unsupported modifier in binding config: ", modifier.as_str())));
        }
        i += 1;
    }
    proof {
        lemma_first_some_skip(errs, errs.len() as int);
        assert(errs.skip(errs.len() as int).len() == 0);
    }
    if is_blank(binding.action.as_str()) {
        return Err(validation("binding action must not be empty"));
    }
    if !is_supported_action(binding.action.as_str()) {
        return Err(ConfigError::Validation(concat_str("unsupported binding action: ", binding.action.as_str())));
    }
    if str_equal(binding.action.as_str(), "spawn") {
        let missing = match &binding.command {
            None => true,
            Some(command) => is_blank(command.as_str()),
        };
        if missing {
            return Err(validation("spawn bindings must include a non-empty command"));
        }
    }
    if let Some(amount) = binding.amount {
        if amount.le_zero() {
            return Err(validation("binding amount must be > 0 when provided"));
        }
    }
    Ok(())
}

fn check_rule(rule: &RuleConfig) -> (r: Result<(), ConfigError>)
    ensures
        reports(r, rule_error(*rule)),
{
    if rule.app_id.is_none() && rule.title_contains.is_none() {
        return Err(validation("window rule must match at least one field"));
    }
    if let Some(width) = rule.width {
        if width.le_zero() {
            return Err(validation("rule width must be > 0"));
        }
    }
    if let Some(height) = rule.height {
        if height.le_zero() {
            return Err(validation("rule height must be > 0"));
        }
    }
    Ok(())
}

impl Config {
    /// Checks the configuration; the error is the first problem found (see `config_error`).
    #[verifier::loop_isolation(false)]
    pub fn validate(&self) -> (r: Result<(), ConfigError>)
        ensures
            reports(r, config_error(*self)),
    {
        if let Some(backend) = &self.backend {
            if !(str_equal(backend.as_str(), "winit") || str_equal(backend.as_str(), "udev")
                || str_equal(backend.as_str(), "headless")) {
                return Err(ConfigError::Validation(concat_str("unsupported backend in config: ", backend.as_str())));
            }
        }
        match check_canvas(&self.canvas) {
            Err(e) => return Err(e),
            Ok(()) => {},
        }
        match validate_draw_stack(self.draw.stack.as_slice()) {
            Err(e) => return Err(e),
            Ok(()) => {},
        }
        match validate_color(&self.draw.clear_color, "draw.clear_color") {
            Err(e) => return Err(e),
            Ok(()) => {},
        }
        match validate_placement(&self.placement) {
            Err(e) => return Err(e),
            Ok(()) => {},
        }
        match validate_tty(&self.tty) {
            Err(e) => return Err(e),
            Ok(()) => {},
        }
        let ghost berrs = Seq::new(self.bindings@.len(), |i: int| binding_error(self.bindings@[i]));
        let mut i: usize = 0;
        while i < self.bindings.len()
            invariant
                i <= self.bindings@.len(),
                berrs == Seq::new(self.bindings@.len(), |i: int| binding_error(self.bindings@[i])),
                forall|k: int| 0 <= k < i ==> (#[trigger] berrs[k]) is None,
            decreases self.bindings@.len() - i,
        {
            match check_binding(&self.bindings[i]) {
                Err(e) => {
                    proof {
                        lemma_first_some_skip(berrs, i as int);
                        assert(berrs.skip(i as int)[0] == berrs[i as int]);
                        assert(first_some(berrs.skip(i as int)) == berrs[i as int]);
                    }
                    return Err(e);
                },
                Ok(()) => {},
            }
            i += 1;
        }
        proof {
            lemma_first_some_skip(berrs, berrs.len() as int);
            assert(berrs.skip(berrs.len() as int).len() == 0);
        }
        let ghost aerrs = autostart_errors(self.autostart@);
        let mut i: usize = 0;
        while i < self.autostart.len()
            invariant
                i <= self.autostart@.len(),
                aerrs == autostart_errors(self.autostart@),
                forall|k: int| 0 <= k < i ==> (#[trigger] aerrs[k]) is None,
            decreases self.autostart@.len() - i,
        {
            if is_blank(self.autostart[i].as_str()) {
                proof {
                    lemma_first_some_skip(aerrs, i as int);
                    assert(aerrs.skip(i as int)[0] == aerrs[i as int]);
                    assert(first_some(aerrs.skip(i as int)) == aerrs[i as int]);
                }
                return Err(validation("autostart commands must not be empty"));
            }
            i += 1;
        }
        proof {
            lemma_first_some_skip(aerrs, aerrs.len() as int);
            assert(aerrs.skip(aerrs.len() as int).len() == 0);
        }
        let ghost rerrs = Seq::new(self.rules@.len(), |i: int| rule_error(self.rules@[i]));
        let mut i: usize = 0;
        while i < self.rules.len()
            invariant
                i <= self.rules@.len(),
                rerrs == Seq::new(self.rules@.len(), |i: int| rule_error(self.rules@[i])),
                forall|k: int| 0 <= k < i ==> (#[trigger] rerrs[k]) is None,
            decreases self.rules@.len() - i,
        {
            match check_rule(&self.rules[i]) {
                Err(e) => {
                    proof {
                        lemma_first_some_skip(rerrs, i as int);
                        assert(rerrs.skip(i as int)[0] == rerrs[i as int]);
                        assert(first_some(rerrs.skip(i as int)) == rerrs[i as int]);
                    }
                    return Err(e);
                },
                Ok(()) => {},
            }
            i += 1;
        }
        proof {
            lemma_first_some_skip(rerrs, rerrs.len() as int);
            assert(rerrs.skip(rerrs.len() as int).len() == 0);
        }
        Ok(())
    }
}

} // verus!

verus! {

/// Whether two bindings state the same thing.
pub open spec fn same_binding(a: BindingConfig, b: BindingConfig) -> bool {
    &&& a.mods@ == b.mods@
    &&& a.key == b.key
    &&& a.action == b.action
    &&& a.amount == b.amount
    &&& a.command == b.command
}

impl Clone for BindingConfig {
    fn clone(&self) -> (r: Self)
        ensures
            same_binding(r, *self),
    {
        let mods = self.mods.clone();
        assert(mods@ =~= self.mods@);
        BindingConfig {
            mods,
            key: self.key.clone(),
            action: self.action.clone(),
            amount: self.amount,
            command: crate::window::model::copy_opt_string(&self.command),
        }
    }
}

impl Clone for RuleConfig {
    fn clone(&self) -> (r: Self)
        ensures
            r == *self,
    {
        RuleConfig {
            app_id: crate::window::model::copy_opt_string(&self.app_id),
            title_contains: crate::window::model::copy_opt_string(&self.title_contains),
            floating: self.floating,
            exclude_from_focus: self.exclude_from_focus,
            width: self.width,
            height: self.height,
        }
    }
}

/// Whether two sets of tty settings state the same thing.
pub open spec fn same_tty(a: TtyConfig, b: TtyConfig) -> bool {
    &&& a.quit_mods@ == b.quit_mods@
    &&& a.quit_key == b.quit_key
    &&& a.vt_switch_modifiers@ == b.vt_switch_modifiers@
    &&& a.output_layout == b.output_layout
}

/// A copy of the tty settings.
pub fn copy_tty(t: &TtyConfig) -> (r: TtyConfig)
    ensures
        same_tty(r, *t),
{
    let quit_mods = t.quit_mods.clone();
    let vt = t.vt_switch_modifiers.clone();
    assert(quit_mods@ =~= t.quit_mods@);
    assert(vt@ =~= t.vt_switch_modifiers@);
    TtyConfig { quit_mods, quit_key: t.quit_key.clone(), vt_switch_modifiers: vt, output_layout: t.output_layout }
}

/// A copy of the draw settings.
pub fn copy_draw(d: &DrawConfig) -> (r: DrawConfig)
    ensures
        r.stack@ == d.stack@,
        r.clear_color == d.clear_color,
{
    let stack = d.stack.clone();
    assert(stack@ =~= d.stack@);
    DrawConfig { stack, clear_color: d.clear_color }
}

/// The canonical modifier names of a list read from the config.
pub fn parse_modifier_name_list(names: &[String], field_name: &str) -> (r: Result<Vec<String>, ConfigError>)
    ensures
        match crate::input::bindings::canonical_modifiers(strings_view(names@)) {
            Ok(mods) => r matches Ok(v) && strings_view(v@) == mods,
            Err(bad) => r matches Err(ConfigError::Validation(m)) && m@ == "unsupported modifier in "@ + field_name@ + ": "@ + bad,
        },
{
    let ghost view = strings_view(names@);
    let mut out: Vec<String> = Vec::new();
    let mut i: usize = 0;
    assert(view.take(0) =~= Seq::<Seq<char>>::empty());
    assert(strings_view(out@) =~= Seq::<Seq<char>>::empty());
    while i < names.len()
        invariant
            i <= names@.len(),
            view == strings_view(names@),
            crate::input::bindings::canonical_modifiers(view.take(i as int)) == Ok::<Seq<Seq<char>>, Seq<char>>(strings_view(out@)),
        decreases names@.len() - i,
    {
        let ghost prev = view.take(i as int);
        let ghost next = view.take(i + 1);
        proof {
            assert(next.drop_last() =~= prev);
            assert(next.last() == names@[i as int]@);
        }
        let ghost old_view = strings_view(out@);
        match canonical_modifier_name(names[i].as_str()) {
            None => {
                proof {
                    assert(crate::input::bindings::canonical_modifiers(next) == Err::<Seq<Seq<char>>, Seq<char>>(names@[i as int]@));
                    crate::input::bindings::lemma_canonical_modifiers_prefix_err(view, (i + 1) as int);
                }
                let a = concat_str("unsupported modifier in ", field_name);
                let b = concat_str(a.as_str(), ": ");
                return Err(ConfigError::Validation(concat_str(b.as_str(), names[i].as_str())));
            },
            Some(c) => {
                out.push(copy_str(c));
                proof {
                    assert(strings_view(out@) =~= old_view.push(c@));
                }
            },
        }
        i += 1;
    }
    assert(view.take(names@.len() as int) =~= view);
    Ok(out)
}

/// The tty layout a config names.
pub open spec fn tty_layout_named(name: Seq<char>) -> Option<TtyOutputLayout> {
    if name == "horizontal"@ {
        Some(TtyOutputLayout::Horizontal)
    } else if name == "vertical"@ {
        Some(TtyOutputLayout::Vertical)
    } else {
        None
    }
}

/// The tty settings that the fields of a `tty` table give over base values, as views:
/// quit modifiers, quit key, terminal-switch modifiers and layout, or the first error.
pub open spec fn tty_fields_outcome(
    base_quit_mods: Seq<Seq<char>>,
    base_quit_key: Seq<char>,
    base_vt: Seq<Seq<char>>,
    base_layout: TtyOutputLayout,
    quit_keyspec: Option<Seq<char>>,
    vt_switch_modifiers: Option<Seq<Seq<char>>>,
    output_layout: Option<Seq<char>>,
) -> Result<(Seq<Seq<char>>, Seq<char>, Seq<Seq<char>>, TtyOutputLayout), Seq<char>> {
    let quit = match quit_keyspec {
        Some(k) => parsed_keyspec(k),
        None => Ok((base_quit_mods, base_quit_key)),
    };
    let vt = match vt_switch_modifiers {
        Some(l) => match crate::input::bindings::canonical_modifiers(l) {
            Ok(v) => Ok(v),
            Err(bad) => Err("unsupported modifier in "@ + "tty.vt_switch_modifiers"@ + ": "@ + bad),
        },
        None => Ok(base_vt),
    };
    match quit {
        Err(e) => Err(e),
        Ok((qm, qk)) => match vt {
            Err(e) => Err(e),
            Ok(v) => match output_layout {
                Some(n) => match tty_layout_named(n) {
                    Some(l) => Ok((qm, qk, v, l)),
                    None => Err("unsupported tty.output_layout: "@ + n),
                },
                None => Ok((qm, qk, v, base_layout)),
            },
        },
    }
}

/// The tty settings given by the fields of a `tty` table over `base`: a quit key
/// specification, a list of terminal-switch modifiers and an output layout, each
/// replacing the base value when present (see `tty_fields_outcome`).
pub fn parse_tty_fields(base: TtyConfig, quit_keyspec: Option<&str>, vt_switch_modifiers: Option<&[String]>, output_layout: Option<&str>) -> (r: Result<TtyConfig, ConfigError>)
    ensures
        match (r, tty_fields_outcome(strings_view(base.quit_mods@), base.quit_key@, strings_view(base.vt_switch_modifiers@), base.output_layout,
            match quit_keyspec { Some(k) => Some(k@), None => None },
            match vt_switch_modifiers { Some(l) => Some(strings_view(l@)), None => None },
            match output_layout { Some(n) => Some(n@), None => None })) {
            (Ok(t), Ok((qm, qk, v, l))) => strings_view(t.quit_mods@) == qm && t.quit_key@ == qk && strings_view(t.vt_switch_modifiers@) == v && t.output_layout == l,
            (Err(ConfigError::Validation(m)), Err(e)) => m@ == e,
            _ => false,
        },
{
    let (quit_mods, quit_key) = match quit_keyspec {
        Some(ks) => match parse_keyspec(ks) {
            Ok(parsed) => parsed,
            Err(e) => {
                return Err(ConfigError::Validation(e));
            },
        },
        None => (base.quit_mods, base.quit_key),
    };
    let vt = match vt_switch_modifiers {
        Some(list) => match parse_modifier_name_list(list, "tty.vt_switch_modifiers") {
            Ok(v) => v,
            Err(e) => {
                return Err(e);
            },
        },
        None => base.vt_switch_modifiers,
    };
    let layout = match output_layout {
        Some(name) => {
            if str_equal(name, "horizontal") {
                TtyOutputLayout::Horizontal
            } else if str_equal(name, "vertical") {
                TtyOutputLayout::Vertical
            } else {
                return Err(ConfigError::Validation(concat_str("unsupported tty.output_layout: ", name)));
            }
        },
        None => base.output_layout,
    };
    Ok(TtyConfig { quit_mods, quit_key, vt_switch_modifiers: vt, output_layout: layout })
}

/// The layer stack that a list of layer names gives, or the message for the first name
/// that is not a layer.
pub open spec fn draw_stack_named(names: Seq<Seq<char>>) -> Result<Seq<DrawLayer>, Seq<char>>
    decreases names.len(),
{
    if names.len() == 0 {
        Ok(Seq::empty())
    } else {
        match draw_stack_named(names.drop_last()) {
            Err(m) => Err(m),
            Ok(front) => match draw_layer_named(names.last()) {
                Some(l) => Ok(front.push(l)),
                None => Err("unsupported draw layer in draw.stack: "@ + names.last()),
            },
        }
    }
}

proof fn lemma_draw_stack_named_prefix_err(names: Seq<Seq<char>>, i: int)
    requires
        0 <= i <= names.len(),
        draw_stack_named(names.take(i)) is Err,
    ensures
        draw_stack_named(names) == draw_stack_named(names.take(i)),
    decreases names.len() - i,
{
    if i < names.len() {
        let next = names.take(i + 1);
        assert(next.drop_last() =~= names.take(i));
        lemma_draw_stack_named_prefix_err(names, i + 1);
    } else {
        assert(names.take(i) =~= names);
    }
}

/// The layer stack a list of names from `draw.stack` gives.
pub fn parse_draw_stack(names: &[String]) -> (r: Result<Vec<DrawLayer>, ConfigError>)
    ensures
        match draw_stack_named(strings_view(names@)) {
            Ok(stack) => r matches Ok(v) && v@ == stack,
            Err(m) => r matches Err(ConfigError::Validation(e)) && e@ == m,
        },
{
    let ghost view = strings_view(names@);
    let mut out: Vec<DrawLayer> = Vec::new();
    let mut i: usize = 0;
    assert(view.take(0) =~= Seq::<Seq<char>>::empty());
    while i < names.len()
        invariant
            i <= names@.len(),
            view == strings_view(names@),
            draw_stack_named(view.take(i as int)) == Ok::<Seq<DrawLayer>, Seq<char>>(out@),
        decreases names@.len() - i,
    {
        let ghost next = view.take(i + 1);
        proof {
            assert(next.drop_last() =~= view.take(i as int));
            assert(next.last() == names@[i as int]@);
        }
        match parse_draw_layer_name(names[i].as_str()) {
            Ok(layer) => {
                out.push(layer);
            },
            Err(e) => {
                proof {
                    lemma_draw_stack_named_prefix_err(view, (i + 1) as int);
                }
                return Err(e);
            },
        }
        i += 1;
    }
    assert(view.take(names@.len() as int) =~= view);
    Ok(out)
}

/// The colour that the components read for `field_name` give: each is the number read
/// (as a double) and that number narrowed to single precision, or `None` where the
/// table has no number there. A missing component or a double that is not finite stops
/// at the first such component.
pub open spec fn color_components_outcome(comps: Seq<Option<(Double, Single)>>, field_name: Seq<char>) -> Result<Seq<Single>, Seq<char>>
    decreases comps.len(),
{
    if comps.len() == 0 {
        Ok(Seq::empty())
    } else {
        match color_components_outcome(comps.drop_last(), field_name) {
            Err(m) => Err(m),
            Ok(front) => match comps.last() {
                None => Err(field_name + " must contain exactly 4 numeric components"@),
                Some((d, f)) => if d.is_finite_spec() {
                    Ok(front.push(f))
                } else {
                    Err(field_name + " components must be finite"@)
                },
            },
        }
    }
}

proof fn lemma_color_outcome_prefix_err(comps: Seq<Option<(Double, Single)>>, field_name: Seq<char>, i: int)
    requires
        0 <= i <= comps.len(),
        color_components_outcome(comps.take(i), field_name) is Err,
    ensures
        color_components_outcome(comps, field_name) == color_components_outcome(comps.take(i), field_name),
    decreases comps.len() - i,
{
    if i < comps.len() {
        let next = comps.take(i + 1);
        assert(next.drop_last() =~= comps.take(i));
        lemma_color_outcome_prefix_err(comps, field_name, i + 1);
    } else {
        assert(comps.take(i) =~= comps);
    }
}

/// The colour given by four components read for `field_name` (see
/// `color_components_outcome`).
pub fn parse_color_components(comps: &[Option<(Double, Single)>; 4], field_name: &str) -> (r: Result<[Single; 4], ConfigError>)
    ensures
        match color_components_outcome(comps@, field_name@) {
            Ok(c) => r matches Ok(v) && v@ == c,
            Err(m) => r matches Err(ConfigError::Validation(e)) && e@ == m,
        },
{
    let mut color = [Single(0), Single(0), Single(0), Single(0)];
    let mut i: usize = 0;
    assert(comps@.take(0) =~= Seq::<Option<(Double, Single)>>::empty());
    assert(color@.take(0) =~= Seq::<Single>::empty());
    assert(color_components_outcome(Seq::<Option<(Double, Single)>>::empty(), field_name@) == Ok::<Seq<Single>, Seq<char>>(Seq::<Single>::empty()));
    while i < 4
        invariant
            i <= 4,
            comps@.len() == 4,
            color@.len() == 4,
            color_components_outcome(comps@.take(i as int), field_name@) == Ok::<Seq<Single>, Seq<char>>(color@.take(i as int)),
        decreases 4 - i,
    {
        let ghost next = comps@.take(i + 1);
        let ghost before = color@;
        proof {
            assert(next.drop_last() =~= comps@.take(i as int));
            assert(next.last() == comps@[i as int]);
        }
        match comps[i] {
            None => {
                proof {
                    lemma_color_outcome_prefix_err(comps@, field_name@, (i + 1) as int);
                }
                let a = concat_str(field_name, " must contain exactly 4 numeric components");
                return Err(ConfigError::Validation(a));
            },
            Some((d, f)) => {
                if !d.is_finite() {
                    proof {
                        lemma_color_outcome_prefix_err(comps@, field_name@, (i + 1) as int);
                    }
                    let a = concat_str(field_name, " components must be finite");
                    return Err(ConfigError::Validation(a));
                }
                color[i] = f;
                assert(color@.take(i + 1) =~= before.take(i as int).push(f));
            },
        }
        i += 1;
    }
    assert(comps@.take(4) =~= comps@);
    assert(color@.take(4) =~= color@);
    Ok(color)
}

/// The layer stack and clear colour that a `draw` table gives over a base stack and
/// colour: the stack is parsed first, then the colour.
pub open spec fn draw_outcome(
    base_stack: Seq<DrawLayer>,
    base_color: Seq<Single>,
    stack: Option<Seq<Seq<char>>>,
    color: Option<Seq<Option<(Double, Single)>>>,
) -> Result<(Seq<DrawLayer>, Seq<Single>), Seq<char>> {
    let s = match stack {
        Some(names) => draw_stack_named(names),
        None => Ok(base_stack),
    };
    match s {
        Err(m) => Err(m),
        Ok(st) => match color {
            Some(comps) => match color_components_outcome(comps, "draw.clear_color"@) {
                Err(m) => Err(m),
                Ok(c) => Ok((st, c)),
            },
            None => Ok((st, base_color)),
        },
    }
}

/// The `canvas` fields of a config table; a missing field keeps its value.
#[derive(Debug, Clone, Copy, PartialEq, Eq)]
pub struct CanvasTable {
    pub min_zoom: Option<Double>,
    pub max_zoom: Option<Double>,
    pub zoom_step: Option<Double>,
    pub pan_step: Option<Double>,
    pub allow_pointer_zoom: Option<bool>,
    pub allow_middle_click_pan: Option<bool>,
    pub allow_gesture_navigation: Option<bool>,
}

/// The `draw` fields of a config table: layer names and the clear colour as read.
#[derive(Debug, Clone, PartialEq)]
pub struct DrawTable {
    pub stack: Option<Vec<String>>,
    pub clear_color: Option<[Option<(Double, Single)>; 4]>,
}

/// The `window` fields of a config table.
#[derive(Debug, Clone, Copy, PartialEq, Eq)]
pub struct WindowTable {
    pub use_client_default_size: Option<bool>,
    pub remember_sizes_by_app_id: Option<bool>,
    pub hide_client_decorations: Option<bool>,
}

/// The `placement` fields of a config table: `default_size.w`, `default_size.h`,
/// `padding`, `cascade_step.x` and `cascade_step.y`.
#[derive(Debug, Clone, Copy, PartialEq, Eq)]
pub struct PlacementTable {
    pub default_w: Option<Double>,
    pub default_h: Option<Double>,
    pub padding: Option<Double>,
    pub cascade_x: Option<Double>,
    pub cascade_y: Option<Double>,
}

/// The `tty` fields of a config table.
#[derive(Debug, Clone, PartialEq)]
pub struct TtyTable {
    pub quit_keyspec: Option<String>,
    pub vt_switch_modifiers: Option<Vec<String>>,
    pub output_layout: Option<String>,
}

/// The table handed to `evil.config`, as read from the script.
#[derive(Debug)]
pub struct ConfigTable {
    pub backend: Option<String>,
    pub canvas: CanvasTable,
    pub draw: DrawTable,
    pub window: WindowTable,
    pub placement: PlacementTable,
    pub tty: TtyTable,
    pub autostart: Vec<String>,
    pub bindings: Vec<BindingConfig>,
    pub rules: Vec<RuleConfig>,
}

/// The error for a configuration script that returns something other than a table.
pub fn config_root_error() -> (e: ConfigError)
    ensures
        e matches ConfigError::Validation(m) && m@ == "config root must return a table"@,
{
    ConfigError::Validation(copy_str("config root must return a table"))
}

/// The value of an optional field over its base.
pub open spec fn or_base<T>(field: Option<T>, base: T) -> T {
    match field {
        Some(v) => v,
        None => base,
    }
}

fn or_base_exec<T: Copy>(field: Option<T>, base: T) -> (r: T)
    ensures
        r == or_base(field, base),
{
    match field {
        Some(v) => v,
        None => base,
    }
}

/// Canvas settings with the fields of `t` over `base`.
pub open spec fn merged_canvas(base: CanvasConfig, t: CanvasTable) -> CanvasConfig {
    CanvasConfig {
        min_zoom: or_base(t.min_zoom, base.min_zoom),
        max_zoom: or_base(t.max_zoom, base.max_zoom),
        zoom_step: or_base(t.zoom_step, base.zoom_step),
        pan_step: or_base(t.pan_step, base.pan_step),
        allow_pointer_zoom: or_base(t.allow_pointer_zoom, base.allow_pointer_zoom),
        allow_middle_click_pan: or_base(t.allow_middle_click_pan, base.allow_middle_click_pan),
        allow_gesture_navigation: or_base(t.allow_gesture_navigation, base.allow_gesture_navigation),
    }
}

/// Window settings with the fields of `t` over `base`.
pub open spec fn merged_window(base: WindowConfig, t: WindowTable) -> WindowConfig {
    WindowConfig {
        use_client_default_size: or_base(t.use_client_default_size, base.use_client_default_size),
        remember_sizes_by_app_id: or_base(t.remember_sizes_by_app_id, base.remember_sizes_by_app_id),
        hide_client_decorations: or_base(t.hide_client_decorations, base.hide_client_decorations),
    }
}

/// Placement settings with the fields of `t` over `base`.
pub open spec fn merged_placement(base: PlacementConfig, t: PlacementTable) -> PlacementConfig {
    PlacementConfig {
        default_size: (or_base(t.default_w, base.default_size.0), or_base(t.default_h, base.default_size.1)),
        padding: or_base(t.padding, base.padding),
        cascade_step: (or_base(t.cascade_x, base.cascade_step.0), or_base(t.cascade_y, base.cascade_step.1)),
    }
}

/// The canvas settings of `base` with the fields of `t` over them.
pub fn merge_canvas(base: CanvasConfig, t: &CanvasTable) -> (r: CanvasConfig)
    ensures
        r == merged_canvas(base, *t),
{
    CanvasConfig {
        min_zoom: or_base_exec(t.min_zoom, base.min_zoom),
        max_zoom: or_base_exec(t.max_zoom, base.max_zoom),
        zoom_step: or_base_exec(t.zoom_step, base.zoom_step),
        pan_step: or_base_exec(t.pan_step, base.pan_step),
        allow_pointer_zoom: or_base_exec(t.allow_pointer_zoom, base.allow_pointer_zoom),
        allow_middle_click_pan: or_base_exec(t.allow_middle_click_pan, base.allow_middle_click_pan),
        allow_gesture_navigation: or_base_exec(t.allow_gesture_navigation, base.allow_gesture_navigation),
    }
}

/// The window settings of `base` with the fields of `t` over them.
pub fn merge_window(base: WindowConfig, t: &WindowTable) -> (r: WindowConfig)
    ensures
        r == merged_window(base, *t),
{
    WindowConfig {
        use_client_default_size: or_base_exec(t.use_client_default_size, base.use_client_default_size),
        remember_sizes_by_app_id: or_base_exec(t.remember_sizes_by_app_id, base.remember_sizes_by_app_id),
        hide_client_decorations: or_base_exec(t.hide_client_decorations, base.hide_client_decorations),
    }
}

/// The placement settings of `base` with the fields of `t` over them.
pub fn merge_placement(base: PlacementConfig, t: &PlacementTable) -> (r: PlacementConfig)
    ensures
        r == merged_placement(base, *t),
{
    PlacementConfig {
        default_size: (or_base_exec(t.default_w, base.default_size.0), or_base_exec(t.default_h, base.default_size.1)),
        padding: or_base_exec(t.padding, base.padding),
        cascade_step: (or_base_exec(t.cascade_x, base.cascade_step.0), or_base_exec(t.cascade_y, base.cascade_step.1)),
    }
}

/// A configuration assembled by the `evil.config`, `evil.bind` and `evil.autostart`
/// calls of a config script.
#[derive(Debug, Clone)]
pub struct ConfigBuilder {
    pub backend: Option<String>,
    pub canvas: CanvasConfig,
    pub draw: DrawConfig,
    pub window: WindowConfig,
    pub placement: PlacementConfig,
    pub tty: TtyConfig,
    pub autostart: Vec<String>,
    pub bindings: Vec<BindingConfig>,
    pub rules: Vec<RuleConfig>,
    pub used_script_api: bool,
}

/// Whether `c` holds the settings of builder `b`.
pub open spec fn built_from(b: ConfigBuilder, c: Config) -> bool {
    &&& c.backend == b.backend
    &&& c.canvas == b.canvas
    &&& c.draw.stack@ == b.draw.stack@
    &&& c.draw.clear_color == b.draw.clear_color
    &&& c.window == b.window
    &&& c.placement == b.placement
    &&& same_tty(c.tty, b.tty)
    &&& c.autostart@ == b.autostart@
    &&& c.bindings@.len() == b.bindings@.len()
    &&& forall|i: int| 0 <= i < c.bindings@.len() ==> same_binding(#[trigger] c.bindings@[i], b.bindings@[i])
    &&& c.rules@ == b.rules@
}

/// The first problem with the settings a builder holds (see `settings_error`).
pub open spec fn builder_error(b: ConfigBuilder) -> Option<Seq<char>> {
    settings_error(b.backend, b.canvas, b.draw.stack@, b.draw.clear_color@, b.placement, b.tty,
        b.autostart@, b.bindings@, b.rules@)
}

proof fn lemma_built_from_same_error(b: ConfigBuilder, c: Config)
    requires
        built_from(b, c),
    ensures
        config_error(c) == builder_error(b),
{
    let cb = Seq::new(c.bindings@.len(), |i: int| binding_error(c.bindings@[i]));
    let bb = Seq::new(b.bindings@.len(), |i: int| binding_error(b.bindings@[i]));
    assert forall|i: int| 0 <= i < cb.len() implies cb[i] == bb[i] by {
        assert(same_binding(c.bindings@[i], b.bindings@[i]));
        assert(modifier_errors(c.bindings@[i].mods@) =~= modifier_errors(b.bindings@[i].mods@));
    }
    assert(cb =~= bb);
    assert(c.draw.clear_color@ =~= b.draw.clear_color@);
}

/// Whether the builder holds the default settings: the defaults of the canvas, layer
/// stack and clear colour, window, placement and tty settings.
pub open spec fn is_default_settings(b: ConfigBuilder) -> bool {
    &&& b.canvas == (CanvasConfig {
        min_zoom: Double(0x3FB9_9999_9999_999A),
        max_zoom: Double(0x4020_0000_0000_0000),
        zoom_step: Double(0x3FF3_3333_3333_3333),
        pan_step: Double(0x4050_0000_0000_0000),
        allow_pointer_zoom: true,
        allow_middle_click_pan: true,
        allow_gesture_navigation: true,
    })
    &&& b.draw.stack@ == default_stack()
    &&& b.draw.clear_color@ == seq![Single(0x3DA3_D70A), Single(0x3D4C_CCCD), Single(0x3DF5_C28F), Single(0x3F80_0000)]
    &&& b.window == (WindowConfig { use_client_default_size: true, remember_sizes_by_app_id: true, hide_client_decorations: false })
    &&& b.placement == (PlacementConfig {
        default_size: (Double(0x408C_2000_0000_0000), Double(0x4082_C000_0000_0000)),
        padding: Double(0x4040_0000_0000_0000),
        cascade_step: (Double(0x4040_0000_0000_0000), Double(0x4038_0000_0000_0000)),
    })
    &&& strings_view(b.tty.quit_mods@) == seq!["Ctrl"@, "Alt"@]
    &&& b.tty.quit_key@ == "Backspace"@
    &&& strings_view(b.tty.vt_switch_modifiers@) == seq!["Ctrl"@, "Alt"@]
    &&& b.tty.output_layout == crate::tty::TtyOutputLayout::Horizontal
}

impl ConfigBuilder {
    /// An empty builder: default settings, no autostart commands, bindings or rules.
    pub fn new() -> (b: ConfigBuilder)
        ensures
            b.backend is None,
            is_default_settings(b),
            b.autostart@.len() == 0,
            b.bindings@.len() == 0,
            b.rules@.len() == 0,
            !b.used_script_api,
    {
        ConfigBuilder {
            backend: None,
            canvas: CanvasConfig::default(),
            draw: DrawConfig::default(),
            window: WindowConfig::default(),
            placement: PlacementConfig::default(),
            tty: TtyConfig::default(),
            autostart: Vec::new(),
            bindings: Vec::new(),
            rules: Vec::new(),
            used_script_api: false,
        }
    }

    /// Resets the builder to its empty state.
    pub fn clear(&mut self)
        ensures
            final(self).backend is None,
            is_default_settings(*final(self)),
            final(self).autostart@.len() == 0,
            final(self).bindings@.len() == 0,
            final(self).rules@.len() == 0,
            !final(self).used_script_api,
    {
        *self = ConfigBuilder::new();
    }

    /// Whether the script used the setup calls.
    pub fn uses_script_api(&self) -> (r: bool)
        ensures
            r == self.used_script_api,
    {
        self.used_script_api
    }

    /// Applies the table handed to `evil.config`: the script API counts as used, the
    /// backend, canvas, draw, window, placement and tty fields replace the settings in that
    /// order (a field that does not parse stops there, with what came before it kept), and
    /// the autostart commands, bindings and rules are appended.
    pub fn apply_config_table(&mut self, table: ConfigTable) -> (r: Result<(), ConfigError>)
        ensures
            final(self).used_script_api,
            final(self).backend == (if table.backend is Some { table.backend } else { old(self).backend }),
            final(self).canvas == merged_canvas(old(self).canvas, table.canvas),
            match draw_outcome(old(self).draw.stack@, old(self).draw.clear_color@,
                match table.draw.stack { Some(names) => Some(strings_view(names@)), None => None },
                match table.draw.clear_color { Some(c) => Some(c@), None => None }) {
                Err(m) => (r matches Err(ConfigError::Validation(e)) && e@ == m)
                    && final(self).draw == old(self).draw
                    && final(self).window == old(self).window
                    && final(self).placement == old(self).placement
                    && final(self).tty == old(self).tty
                    && final(self).autostart == old(self).autostart
                    && final(self).bindings == old(self).bindings
                    && final(self).rules == old(self).rules,
                Ok((stack, color)) => final(self).draw.stack@ == stack
                    && final(self).draw.clear_color@ == color
                    && final(self).window == merged_window(old(self).window, table.window)
                    && final(self).placement == merged_placement(old(self).placement, table.placement)
                    && match tty_fields_outcome(strings_view(old(self).tty.quit_mods@), old(self).tty.quit_key@,
                        strings_view(old(self).tty.vt_switch_modifiers@), old(self).tty.output_layout,
                        match table.tty.quit_keyspec { Some(k) => Some(k@), None => None },
                        match table.tty.vt_switch_modifiers { Some(l) => Some(strings_view(l@)), None => None },
                        match table.tty.output_layout { Some(n) => Some(n@), None => None }) {
                        Err(m) => (r matches Err(ConfigError::Validation(e)) && e@ == m)
                            && final(self).tty == old(self).tty
                            && final(self).autostart == old(self).autostart
                            && final(self).bindings == old(self).bindings
                            && final(self).rules == old(self).rules,
                        Ok((qm, qk, v, l)) => r is Ok
                            && strings_view(final(self).tty.quit_mods@) == qm
                            && final(self).tty.quit_key@ == qk
                            && strings_view(final(self).tty.vt_switch_modifiers@) == v
                            && final(self).tty.output_layout == l
                            && final(self).autostart@ == old(self).autostart@ + table.autostart@
                            && final(self).bindings@ == old(self).bindings@ + table.bindings@
                            && final(self).rules@ == old(self).rules@ + table.rules@,
                    },
            },
    {
        let mut table = table;
        self.used_script_api = true;
        if table.backend.is_some() {
            self.backend = table.backend;
        }
        self.canvas = merge_canvas(self.canvas, &table.canvas);
        let stack = match &table.draw.stack {
            Some(names) => match parse_draw_stack(names.as_slice()) {
                Ok(v) => v,
                Err(e) => {
                    return Err(e);
                },
            },
            None => {
                let v = self.draw.stack.clone();
                assert(v@ =~= self.draw.stack@);
                v
            },
        };
        let clear_color = match &table.draw.clear_color {
            Some(comps) => match parse_color_components(comps, "draw.clear_color") {
                Ok(c) => c,
                Err(e) => {
                    return Err(e);
                },
            },
            None => self.draw.clear_color,
        };
        self.draw = DrawConfig { stack, clear_color };
        self.window = merge_window(self.window, &table.window);
        self.placement = merge_placement(self.placement, &table.placement);
        let quit_keyspec = match &table.tty.quit_keyspec {
            Some(k) => Some(k.as_str()),
            None => None,
        };
        let vt = match &table.tty.vt_switch_modifiers {
            Some(l) => Some(l.as_slice()),
            None => None,
        };
        let layout = match &table.tty.output_layout {
            Some(n) => Some(n.as_str()),
            None => None,
        };
        let tty = match parse_tty_fields(copy_tty(&self.tty), quit_keyspec, vt, layout) {
            Ok(t) => t,
            Err(e) => {
                return Err(e);
            },
        };
        self.tty = tty;
        self.autostart.append(&mut table.autostart);
        self.bindings.append(&mut table.bindings);
        self.rules.append(&mut table.rules);
        Ok(())
    }

    /// Adds a binding of `keyspec` to `action`, with the options' amount and command.
    /// A key specification that does not parse is refused with its message.
    pub fn add_binding(&mut self, keyspec: &str, action: &str, amount: Option<Double>, command: Option<String>) -> (r: Result<(), ConfigError>)
        ensures
            match parsed_keyspec(keyspec@) {
                Err(m) => (r matches Err(ConfigError::Validation(e)) && e@ == m) && *final(self) == *old(self),
                Ok((mods, key)) => r is Ok && final(self).used_script_api
                    && final(self).bindings@.len() == old(self).bindings@.len() + 1
                    && final(self).bindings@.drop_last() == old(self).bindings@
                    && strings_view(final(self).bindings@.last().mods@) == mods
                    && final(self).bindings@.last().key@ == key
                    && final(self).bindings@.last().action@ == action@
                    && final(self).bindings@.last().amount == amount
                    && final(self).bindings@.last().command == command
                    && final(self).autostart == old(self).autostart
                    && final(self).rules == old(self).rules
                    && final(self).backend == old(self).backend,
            },
    {
        let (mods, key) = match parse_keyspec(keyspec) {
            Ok(parsed) => parsed,
            Err(e) => {
                return Err(ConfigError::Validation(e));
            },
        };
        self.used_script_api = true;
        let ghost old_bindings = self.bindings@;
        self.bindings.push(BindingConfig { mods, key, action: copy_str(action), amount, command });
        assert(self.bindings@.drop_last() =~= old_bindings);
        Ok(())
    }

    /// Adds an autostart command; a blank command is refused.
    pub fn add_autostart(&mut self, command: &str) -> (r: Result<(), ConfigError>)
        ensures
            trim(command@).len() == 0 ==> (r matches Err(ConfigError::Validation(e)) && e@ == "autostart command must not be empty"@) && *final(self) == *old(self),
            trim(command@).len() != 0 ==> r is Ok && final(self).used_script_api
                && final(self).autostart@ == old(self).autostart@.push(final(self).autostart@.last())
                && final(self).autostart@.last()@ == command@
                && final(self).bindings == old(self).bindings
                && final(self).rules == old(self).rules
                && final(self).backend == old(self).backend
                && final(self).canvas == old(self).canvas
                && final(self).draw == old(self).draw
                && final(self).window == old(self).window
                && final(self).placement == old(self).placement
                && final(self).tty == old(self).tty,
    {
        if is_blank(command) {
            return Err(validation("autostart command must not be empty"));
        }
        self.used_script_api = true;
        let ghost old_autostart = self.autostart@;
        self.autostart.push(copy_str(command));
        assert(self.autostart@ =~= old_autostart.push(self.autostart@.last()));
        Ok(())
    }

    /// The configuration assembled so far, for `source_root`, if it passes the checks.
    pub fn build(&self, source_root: &str) -> (r: Result<Config, ConfigError>)
        ensures
            match r {
                Ok(c) => c.source_root@ == source_root@ && built_from(*self, c) && builder_error(*self) is None,
                Err(ConfigError::Validation(m)) => builder_error(*self) == Some(m@),
                Err(_) => false,
            },
    {
        let autostart = self.autostart.clone();
        let bindings = self.bindings.clone();
        let rules = self.rules.clone();
        assert(autostart@ =~= self.autostart@);
        assert forall|i: int| 0 <= i < bindings@.len() implies same_binding(#[trigger] bindings@[i], self.bindings@[i]) by {
            assert(cloned::<BindingConfig>(self.bindings@[i], bindings@[i]));
        }
        assert(rules@ =~= self.rules@);
        let backend = crate::window::model::copy_opt_string(&self.backend);
        let config = Config {
            backend,
            canvas: self.canvas,
            draw: copy_draw(&self.draw),
            window: self.window,
            placement: self.placement,
            tty: copy_tty(&self.tty),
            autostart,
            bindings,
            rules,
            source_root: copy_str(source_root),
        };
        proof {
            lemma_built_from_same_error(*self, config);
        }
        match config.validate() {
            Ok(()) => Ok(config),
            Err(e) => Err(e),
        }
    }
}

} // verus!

verus! {

/// A config table section that is absent (every field missing) keeps the settings it
/// would replace, so a table without sections leaves a builder's settings, the defaults
/// of a fresh one included, as they were.
pub proof fn law_absent_sections_keep_settings(
    canvas: CanvasConfig,
    window: WindowConfig,
    placement: PlacementConfig,
    stack: Seq<DrawLayer>,
    color: Seq<Single>,
    quit_mods: Seq<Seq<char>>,
    quit_key: Seq<char>,
    vt: Seq<Seq<char>>,
    layout: TtyOutputLayout,
)
    ensures
        merged_canvas(canvas, (CanvasTable {
            min_zoom: None,
            max_zoom: None,
            zoom_step: None,
            pan_step: None,
            allow_pointer_zoom: None,
            allow_middle_click_pan: None,
            allow_gesture_navigation: None,
        })) == canvas,
        merged_window(window, (WindowTable { use_client_default_size: None, remember_sizes_by_app_id: None, hide_client_decorations: None })) == window,
        merged_placement(placement, (PlacementTable { default_w: None, default_h: None, padding: None, cascade_x: None, cascade_y: None })) == placement,
        draw_outcome(stack, color, None, None) == Ok::<(Seq<DrawLayer>, Seq<Single>), Seq<char>>((stack, color)),
        tty_fields_outcome(quit_mods, quit_key, vt, layout, None, None, None)
            == Ok::<(Seq<Seq<char>>, Seq<char>, Seq<Seq<char>>, TtyOutputLayout), Seq<char>>((quit_mods, quit_key, vt, layout)),
{
}

/// The default settings pass every check: a builder with them, no backend and no
/// autostart commands, bindings or rules has nothing to report.
pub proof fn law_defaults_are_valid(b: ConfigBuilder)
    requires
        is_default_settings(b),
        b.backend is None,
        b.autostart@.len() == 0,
        b.bindings@.len() == 0,
        b.rules@.len() == 0,
    ensures
        builder_error(b) is None,
{
    let stack = b.draw.stack@;
    assert(stack == default_stack());
    reveal_with_fuel(layer_count, 7);
    assert forall|l: DrawLayer| layer_count(stack, l) == 1 by {
        assert(stack.drop_last().drop_last().drop_last().drop_last().drop_last().drop_last() =~= Seq::<DrawLayer>::empty());
        assert(stack.drop_last() =~= seq![DrawLayer::Background, DrawLayer::Windows, DrawLayer::WindowOverlay, DrawLayer::Popups, DrawLayer::Overlay]);
        assert(stack.drop_last().drop_last() =~= seq![DrawLayer::Background, DrawLayer::Windows, DrawLayer::WindowOverlay, DrawLayer::Popups]);
        assert(stack.drop_last().drop_last().drop_last() =~= seq![DrawLayer::Background, DrawLayer::Windows, DrawLayer::WindowOverlay]);
        assert(stack.drop_last().drop_last().drop_last().drop_last() =~= seq![DrawLayer::Background, DrawLayer::Windows]);
        assert(stack.drop_last().drop_last().drop_last().drop_last().drop_last() =~= seq![DrawLayer::Background]);
    }
    let color = b.draw.clear_color@;
    assert forall|i: int| 0 <= i < color.len() implies (#[trigger] color[i]).is_finite_spec() by {}
    reveal_strlit("Backspace");
    crate::text::lemma_trim_fixed(b.tty.quit_key@);
    assert(b.tty.vt_switch_modifiers@.len() == 2) by {
        assert(strings_view(b.tty.vt_switch_modifiers@).len() == 2);
    }
    assert(Seq::new(b.bindings@.len(), |i: int| binding_error(b.bindings@[i])) =~= Seq::<Option<Seq<char>>>::empty());
    assert(Seq::new(b.rules@.len(), |i: int| rule_error(b.rules@[i])) =~= Seq::<Option<Seq<char>>>::empty());
    assert(autostart_errors(b.autostart@) =~= Seq::<Option<Seq<char>>>::empty());
}

} // verus!
