//! Decisions of the data-transfer probes: how far a clipboard or drag-and-drop exchange
//! got, whether an offer carries the wanted type, payload summaries, and hold deadlines.
use vstd::prelude::*;

use crate::text::{concat_str, str_equal, strings_view};
use std::time::{Duration, Instant};

verus! {

/// How far a selection source got.
pub open spec fn selection_source_stage_spec(has_error: bool, serial_used: Option<u32>, selection_set: bool, send_count: u32) -> Seq<char> {
    if has_error {
        "error"@
    } else if send_count > 0 {
        "payload_sent"@
    } else if selection_set {
        "selection_set"@
    } else if serial_used is Some {
        "focus_observed"@
    } else {
        "waiting_for_focus"@
    }
}

/// How far a selection source got: an error, a payload sent, the selection set, focus
/// observed, or still waiting for focus, the first of these that holds.
pub fn selection_source_stage(error: &Option<String>, serial_used: Option<u32>, selection_set: bool, send_count: u32) -> (r: &'static str)
    ensures
        r@ == selection_source_stage_spec(error is Some, serial_used, selection_set, send_count),
{
    if error.is_some() {
        "error"
    } else if send_count > 0 {
        "payload_sent"
    } else if selection_set {
        "selection_set"
    } else if serial_used.is_some() {
        "focus_observed"
    } else {
        "waiting_for_focus"
    }
}

/// How far a selection sink got.
pub open spec fn selection_sink_stage_spec(has_error: bool, offer_received: bool, receive_requested: bool, payload_read_finished: bool) -> Seq<char> {
    if has_error {
        "error"@
    } else if payload_read_finished {
        "payload_read_finished"@
    } else if receive_requested {
        "receive_requested"@
    } else if offer_received {
        "offer_received"@
    } else {
        "waiting_for_offer"@
    }
}

/// How far a selection sink got: an error, the payload read, the payload requested, an
/// offer received, or still waiting for an offer, the first of these that holds.
pub fn selection_sink_stage(error: &Option<String>, offer_received: bool, receive_requested: bool, payload_read_finished: bool) -> (r: &'static str)
    ensures
        r@ == selection_sink_stage_spec(error is Some, offer_received, receive_requested, payload_read_finished),
{
    if error.is_some() {
        "error"
    } else if payload_read_finished {
        "payload_read_finished"
    } else if receive_requested {
        "receive_requested"
    } else if offer_received {
        "offer_received"
    } else {
        "waiting_for_offer"
    }
}

/// How far a drag-and-drop source got.
pub open spec fn dnd_source_stage_spec(has_error: bool, pointer_serial_obtained: bool, start_drag_attempted: bool, send_count: u32) -> Seq<char> {
    if has_error {
        "error"@
    } else if send_count > 0 {
        "payload_sent"@
    } else if start_drag_attempted {
        "drag_started"@
    } else if pointer_serial_obtained {
        "pointer_serial_obtained"@
    } else {
        "waiting_for_pointer_button"@
    }
}

/// How far a drag-and-drop source got: an error, a payload sent, the drag started, a
/// pointer serial obtained, or still waiting for a button press, the first that holds.
pub fn dnd_source_stage(error: &Option<String>, pointer_serial_obtained: bool, start_drag_attempted: bool, send_count: u32) -> (r: &'static str)
    ensures
        r@ == dnd_source_stage_spec(error is Some, pointer_serial_obtained, start_drag_attempted, send_count),
{
    if error.is_some() {
        "error"
    } else if send_count > 0 {
        "payload_sent"
    } else if start_drag_attempted {
        "drag_started"
    } else if pointer_serial_obtained {
        "pointer_serial_obtained"
    } else {
        "waiting_for_pointer_button"
    }
}

/// How far a drag-and-drop target got.
pub open spec fn dnd_target_stage_spec(has_error: bool, enter_received: bool, offer_received: bool, receive_requested: bool, payload_read_finished: bool) -> Seq<char> {
    if has_error {
        "error"@
    } else if payload_read_finished {
        "payload_read_finished"@
    } else if receive_requested {
        "receive_requested"@
    } else if offer_received {
        "offer_received"@
    } else if enter_received {
        "enter_received"@
    } else {
        "waiting_for_enter"@
    }
}

/// How far a drag-and-drop target got: an error, the payload read, the payload requested,
/// an offer received, the pointer entered, or still waiting, the first that holds.
pub fn dnd_target_stage(error: &Option<String>, enter_received: bool, offer_received: bool, receive_requested: bool, payload_read_finished: bool) -> (r: &'static str)
    ensures
        r@ == dnd_target_stage_spec(error is Some, enter_received, offer_received, receive_requested, payload_read_finished),
{
    if error.is_some() {
        "error"
    } else if payload_read_finished {
        "payload_read_finished"
    } else if receive_requested {
        "receive_requested"
    } else if offer_received {
        "offer_received"
    } else if enter_received {
        "enter_received"
    } else {
        "waiting_for_enter"
    }
}

/// The `Debug` rendering of a list of strings, as `format!("{:?}", list)` writes it.
pub uninterp spec fn debug_list_text(items: Seq<Seq<char>>) -> Seq<char>;

/// The `Debug` rendering of a list of strings.
///
/// Trusted: `format!("{:?}", ..)` on a slice of strings. Its text (brackets, quoted and
/// escaped strings, separators) depends on the strings alone; the contract names it
/// without stating it.
#[verifier::external_body]
fn debug_list(items: &[String]) -> (r: String)
    ensures
        r@ == debug_list_text(strings_view(items@)),
{
    format!("{:?}", items)
}

/// The message for an offer that lacks the wanted type.
pub open spec fn missing_mime_message(desired: Seq<char>, available: Seq<Seq<char>>) -> Seq<char> {
    "offer does not contain desired mime '"@ + desired + "'; available: "@ + debug_list_text(available)
}

/// Checks that `desired` is among the `available` types of an offer.
pub fn check_mime_available(desired: &str, available: &[String]) -> (r: Result<(), String>)
    ensures
        strings_view(available@).contains(desired@) ==> r is Ok,
        !strings_view(available@).contains(desired@) ==> (r matches Err(m) && m@ == missing_mime_message(desired@, strings_view(available@))),
{
    let ghost view = strings_view(available@);
    let mut i: usize = 0;
    while i < available.len()
        invariant
            i <= available@.len(),
            view == strings_view(available@),
            forall|k: int| 0 <= k < i ==> available@[k]@ != desired@,
        decreases available@.len() - i,
    {
        if str_equal(available[i].as_str(), desired) {
            assert(view[i as int] == desired@);
            return Ok(());
        }
        i += 1;
    }
    proof {
        if view.contains(desired@) {
            let k = choose|k: int| 0 <= k < view.len() && view[k] == desired@;
            assert(available@[k]@ == view[k]);
        }
    }
    let a = concat_str("offer does not contain desired mime '", desired);
    let b = concat_str(a.as_str(), "'; available: ");
    let listed = debug_list(available);
    Err(concat_str(b.as_str(), listed.as_str()))
}

/// The text that `String::from_utf8_lossy` makes of a byte run.
pub uninterp spec fn utf8_lossy_text(bytes: Seq<u8>) -> Seq<char>;

/// The bytes as text, with invalid UTF-8 replaced.
///
/// Trusted: `String::from_utf8_lossy`. Valid UTF-8 decodes to its characters; otherwise
/// each invalid sequence becomes U+FFFD, which the contract names without stating.
#[verifier::external_body]
fn utf8_lossy(bytes: &[u8]) -> (r: String)
    ensures
        r@ == utf8_lossy_text(bytes@),
        vstd::utf8::valid_utf8(bytes@) ==> r@ == vstd::utf8::decode_utf8(bytes@),
{
    String::from_utf8_lossy(bytes).into_owned()
}

/// A received payload as text.
pub fn payload_string(payload: Option<&Vec<u8>>) -> (r: Option<String>)
    ensures
        r is Some <==> payload is Some,
        r matches Some(s) ==> s@ == utf8_lossy_text(payload.unwrap()@),
        r matches Some(s) ==> (vstd::utf8::valid_utf8(payload.unwrap()@) ==> s@ == vstd::utf8::decode_utf8(payload.unwrap()@)),
{
    match payload {
        Some(bytes) => Some(utf8_lossy(bytes.as_slice())),
        None => None,
    }
}

/// The length of a received payload.
pub fn payload_len(payload: Option<&Vec<u8>>) -> (r: Option<usize>)
    ensures
        r is Some <==> payload is Some,
        r matches Some(n) ==> n == payload.unwrap()@.len(),
{
    match payload {
        Some(bytes) => Some(bytes.len()),
        None => None,
    }
}

#[verifier::external_type_specification]
#[verifier::external_body]
pub struct ExInstant(std::time::Instant);

/// The current instant.
///
/// Trusted: `Instant::now`. It reads the clock; nothing is promised of it.
#[verifier::external_body]
fn instant_now() -> Instant {
    Instant::now()
}

/// A span of `ms` milliseconds.
///
/// Trusted: `Duration::from_millis`, which does not panic. Durations are opaque here,
/// so nothing is promised of the result.
#[verifier::external_body]
fn duration_from_millis(ms: u64) -> Duration {
    Duration::from_millis(ms)
}

/// `start` plus `span`, or none where the sum cannot be represented as an instant.
///
/// Trusted: `Instant::checked_add`, which does not panic. Instants are opaque here, so
/// nothing is promised of the result; whether the sum can be represented depends on
/// the clock's reading in `start`.
#[verifier::external_body]
fn instant_checked_add(start: Instant, span: Duration) -> Option<Instant> {
    start.checked_add(span)
}

/// Whether `now` is at or after `deadline`.
///
/// Trusted: `Instant`'s `>=`. Instants are opaque here, so nothing is promised of it.
#[verifier::external_body]
fn instant_at_or_after(now: Instant, deadline: Instant) -> bool {
    now >= deadline
}

/// The deadline `hold_ms` milliseconds from now, or none when there is nothing to hold
/// (no deadline: the probe holds until it is stopped). A deadline too far off to be
/// represented as an instant is never reached, and is none too.
pub fn deadline_from_hold(hold_ms: u64) -> (r: Option<Instant>)
    ensures
        hold_ms == 0 ==> r is None,
{
    if hold_ms == 0 {
        None
    } else {
        instant_checked_add(instant_now(), duration_from_millis(hold_ms))
    }
}

/// Whether the deadline has passed; there is none to pass without a deadline.
pub fn deadline_reached(deadline: Option<Instant>) -> (r: bool)
    ensures
        deadline is None ==> !r,
{
    match deadline {
        Some(d) => instant_at_or_after(instant_now(), d),
        None => false,
    }
}

} // verus!

verus! {

/// What a clipboard or primary-selection source reports.
#[derive(Debug, Clone, PartialEq)]
pub struct ClipboardSourceResult {
    pub offered_mimes: Vec<String>,
    pub serial_used: Option<u32>,
    pub selection_set: bool,
    pub send_count: u32,
    pub bytes_written: usize,
    pub error: Option<String>,
}

/// What a clipboard or primary-selection sink reports.
#[derive(Debug, Clone, PartialEq)]
pub struct ClipboardSinkResult {
    pub received_mimes: Vec<String>,
    pub offer_received: bool,
    pub receive_requested: bool,
    pub payload_read_finished: bool,
    pub chosen_mime: Option<String>,
    pub payload: Option<Vec<u8>>,
    pub error: Option<String>,
}

/// What a drag-and-drop source reports.
#[derive(Debug, Clone, PartialEq)]
pub struct DndSourceResult {
    pub offered_mimes: Vec<String>,
    pub pointer_serial_obtained: bool,
    pub start_drag_attempted: bool,
    pub send_count: u32,
    pub bytes_written: usize,
    /// Why `start_drag` was not called, when `start_drag_attempted` is false.
    pub blocked_reason: Option<String>,
    pub error: Option<String>,
}

/// What a drag-and-drop target reports.
#[derive(Debug, Clone, PartialEq)]
pub struct DndTargetResult {
    pub enter_received: bool,
    pub offered_mimes: Vec<String>,
    pub offer_received: bool,
    pub receive_requested: bool,
    pub payload_read_finished: bool,
    pub chosen_mime: Option<String>,
    pub payload: Option<Vec<u8>>,
    pub drop_received: bool,
    pub error: Option<String>,
}

impl ClipboardSourceResult {
    /// The exchange succeeded: no error, and the payload was sent at least once.
    pub fn success(&self) -> (r: bool)
        ensures
            r == (self.error is None && self.send_count > 0),
    {
        self.error.is_none() && self.send_count > 0
    }
}

impl ClipboardSinkResult {
    /// The exchange succeeded: no error, and a payload was read.
    pub fn success(&self) -> (r: bool)
        ensures
            r == (self.error is None && self.payload is Some),
    {
        self.error.is_none() && self.payload.is_some()
    }
}

impl DndSourceResult {
    /// The drag succeeded: it started, the payload was sent, and nothing failed.
    pub fn success(&self) -> (r: bool)
        ensures
            r == (self.start_drag_attempted && self.send_count > 0 && self.error is None),
    {
        self.start_drag_attempted && self.send_count > 0 && self.error.is_none()
    }
}

impl DndTargetResult {
    /// The drop succeeded: the drag entered, dropped, delivered a payload, and nothing
    /// failed.
    pub fn success(&self) -> (r: bool)
        ensures
            r == (self.enter_received && self.drop_received && self.payload is Some && self.error is None),
    {
        self.enter_received && self.drop_received && self.payload.is_some() && self.error.is_none()
    }
}

/// The message of a number that holds a character other than a decimal digit.
pub open spec fn invalid_digit_message() -> Seq<char> {
    "invalid digit found in string"@
}

/// The message of a number too large for 64 bits.
pub open spec fn too_large_message() -> Seq<char> {
    "number too large to fit in target type"@
}

/// The message of an empty number.
pub open spec fn empty_number_message() -> Seq<char> {
    "cannot parse integer from empty string"@
}

/// The value of the decimal digits `rest` read after `acc`, from the left: the first
/// character that is not a digit, or the first digit that takes the value past
/// `u64::MAX`, ends the reading with its message.
pub open spec fn decimal_scan(acc: int, rest: Seq<char>) -> Result<int, Seq<char>>
    decreases rest.len(),
{
    if rest.len() == 0 {
        Ok(acc)
    } else if !('0' <= rest[0] && rest[0] <= '9') {
        Err(invalid_digit_message())
    } else {
        let next = acc * 10 + (rest[0] as int - '0' as int);
        if next > u64::MAX {
            Err(too_large_message())
        } else {
            decimal_scan(next, rest.drop_first())
        }
    }
}

/// What reading `s` as a `u64` gives, as `str::parse::<u64>` reads it: an optional `+`,
/// then at least one decimal digit, the value below 2^64; otherwise the parser's
/// message (empty input, a character that is not a digit, a value too large).
pub open spec fn u64_parse(s: Seq<char>) -> Result<int, Seq<char>> {
    if s.len() == 0 {
        Err(empty_number_message())
    } else {
        let digits = if s[0] == '+' { s.drop_first() } else { s };
        if digits.len() == 0 {
            Err(invalid_digit_message())
        } else {
            decimal_scan(0, digits)
        }
    }
}

/// `s` read as a `u64`, or the message of what is wrong with it (see `u64_parse`).
pub fn parse_u64(s: &str) -> (r: Result<u64, String>)
    ensures
        match u64_parse(s@) {
            Ok(v) => r matches Ok(x) && x as int == v,
            Err(m) => r matches Err(e) && e@ == m,
        },
{
    let chars = crate::text::chars_of(s);
    if chars.len() == 0 {
        return Err(crate::text::copy_str("cannot parse integer from empty string"));
    }
    let start: usize = if chars[0] == '+' { 1 } else { 0 };
    let ghost digits = if s@[0] == '+' { s@.drop_first() } else { s@ };
    proof {
        assert(digits =~= chars@.skip(start as int));
    }
    if start == chars.len() {
        return Err(crate::text::copy_str("invalid digit found in string"));
    }
    let mut acc: u64 = 0;
    let mut i: usize = start;
    assert(u64_parse(s@) == decimal_scan(0, digits));
    while i < chars.len()
        invariant
            u64_parse(s@) == decimal_scan(0, digits),
            start <= i <= chars@.len(),
            digits == chars@.skip(start as int),
            decimal_scan(0, digits) == decimal_scan(acc as int, chars@.skip(i as int)),
        decreases chars@.len() - i,
    {
        let c = chars[i];
        proof {
            let rest = chars@.skip(i as int);
            assert(rest[0] == c);
            assert(rest.drop_first() =~= chars@.skip(i + 1));
        }
        if !('0' <= c && c <= '9') {
            assert(decimal_scan(acc as int, chars@.skip(i as int)) == Err::<int, Seq<char>>(invalid_digit_message()));
            return Err(crate::text::copy_str("invalid digit found in string"));
        }
        let d: u64 = (c as u32 - '0' as u32) as u64;
        let next: u128 = (acc as u128) * 10 + (d as u128);
        if next > 0xFFFF_FFFF_FFFF_FFFF {
            assert(decimal_scan(acc as int, chars@.skip(i as int)) == Err::<int, Seq<char>>(too_large_message()));
            return Err(crate::text::copy_str("number too large to fit in target type"));
        }
        acc = next as u64;
        i += 1;
    }
    proof {
        assert(chars@.skip(i as int).len() == 0);
    }
    Ok(acc)
}

/// The arguments of a transfer probe run.
#[derive(Debug, Clone, PartialEq)]
pub struct ProbeArgs {
    pub mode: String,
    pub mime: String,
    pub payload: String,
    pub timeout_ms: u64,
}

/// How the flags after the mode read.
pub enum FlagsOutcome {
    /// Run with this mime type, payload and timeout.
    Run(Seq<char>, Seq<char>, int),
    /// Show the usage.
    Help,
    /// Stop with this message.
    Fail(Seq<char>),
}

/// The flags `args` read over the current mime type, payload and timeout.
pub open spec fn probe_flags(args: Seq<Seq<char>>, mime: Seq<char>, payload: Seq<char>, timeout: int) -> FlagsOutcome
    decreases args.len(),
{
    if args.len() == 0 {
        FlagsOutcome::Run(mime, payload, timeout)
    } else if args[0] == "--mime"@ {
        if args.len() < 2 {
            FlagsOutcome::Fail("--mime requires a value"@)
        } else {
            probe_flags(args.skip(2), args[1], payload, timeout)
        }
    } else if args[0] == "--payload"@ {
        if args.len() < 2 {
            FlagsOutcome::Fail("--payload requires a value"@)
        } else {
            probe_flags(args.skip(2), mime, args[1], timeout)
        }
    } else if args[0] == "--timeout-ms"@ {
        if args.len() < 2 {
            FlagsOutcome::Fail("--timeout-ms requires a value"@)
        } else {
            match u64_parse(args[1]) {
                Ok(v) => probe_flags(args.skip(2), mime, payload, v),
                Err(m) => FlagsOutcome::Fail(m),
            }
        }
    } else if args[0] == "-h"@ || args[0] == "--help"@ {
        FlagsOutcome::Help
    } else {
        FlagsOutcome::Fail("unknown argument: "@ + args[0])
    }
}

/// Reads the probe's arguments (those after the program name): the mode, then
/// `--mime`, `--payload` and `--timeout-ms`, each with a value. `None` asks for the
/// usage: no mode, or a help flag. The mime type defaults to
/// `text/plain;charset=utf-8`, the payload to `evilwm transfer probe`, the timeout to
/// 3000 ms.
pub fn parse_probe_args(args: &[String]) -> (r: Result<Option<ProbeArgs>, String>)
    ensures
        args@.len() == 0 ==> r == Ok::<Option<ProbeArgs>, String>(None),
        args@.len() > 0 && (args@[0]@ == "-h"@ || args@[0]@ == "--help"@) ==> r == Ok::<Option<ProbeArgs>, String>(None),
        args@.len() > 0 && !(args@[0]@ == "-h"@ || args@[0]@ == "--help"@) ==> match probe_flags(strings_view(args@).skip(1), "text/plain;charset=utf-8"@, "evilwm transfer probe"@, 3000) {
            FlagsOutcome::Run(mime, payload, timeout) => r matches Ok(Some(p)) && p.mode@ == args@[0]@
                && p.mime@ == mime && p.payload@ == payload && p.timeout_ms == timeout,
            FlagsOutcome::Help => r == Ok::<Option<ProbeArgs>, String>(None),
            FlagsOutcome::Fail(m) => r matches Err(e) && e@ == m,
        },
{
    if args.len() == 0 {
        return Ok(None);
    }
    let mode = args[0].as_str();
    if str_equal(mode, "-h") || str_equal(mode, "--help") {
        return Ok(None);
    }
    let ghost all = strings_view(args@);
    let mut mime = crate::text::copy_str("text/plain;charset=utf-8");
    let mut payload = crate::text::copy_str("evilwm transfer probe");
    let mut timeout_ms: u64 = 3000;
    let mut i: usize = 1;
    proof {
        assert(all.skip(1) =~= all.skip(i as int));
    }
    while i < args.len()
        invariant
            1 <= i <= args@.len(),
            all == strings_view(args@),
            mode@ == args@[0]@,
            !(args@[0]@ == "-h"@ || args@[0]@ == "--help"@),
            probe_flags(all.skip(1), "text/plain;charset=utf-8"@, "evilwm transfer probe"@, 3000)
                == probe_flags(all.skip(i as int), mime@, payload@, timeout_ms as int),
        decreases args@.len() - i,
    {
        let ghost rest = all.skip(i as int);
        proof {
            assert(rest[0] == args@[i as int]@);
            if i + 1 < args.len() {
                assert(rest[1] == args@[i + 1]@);
                assert(rest.skip(2) =~= all.skip(i + 2));
            }
        }
        let arg = args[i].as_str();
        let ghost m0 = mime@;
        let ghost p0 = payload@;
        let ghost t0 = timeout_ms as int;
        if str_equal(arg, "--mime") {
            if i + 1 >= args.len() {
                return Err(crate::text::copy_str("--mime requires a value"));
            }
            mime = args[i + 1].clone();
            assert(probe_flags(rest, m0, p0, t0) == probe_flags(rest.skip(2), rest[1], p0, t0));
            i += 2;
        } else if str_equal(arg, "--payload") {
            if i + 1 >= args.len() {
                return Err(crate::text::copy_str("--payload requires a value"));
            }
            payload = args[i + 1].clone();
            assert(probe_flags(rest, m0, p0, t0) == probe_flags(rest.skip(2), m0, rest[1], t0));
            i += 2;
        } else if str_equal(arg, "--timeout-ms") {
            if i + 1 >= args.len() {
                return Err(crate::text::copy_str("--timeout-ms requires a value"));
            }
            match parse_u64(args[i + 1].as_str()) {
                Ok(v) => {
                    timeout_ms = v;
                    assert(probe_flags(rest, m0, p0, t0) == probe_flags(rest.skip(2), m0, p0, v as int));
                },
                Err(e) => {
                    return Err(e);
                },
            }
            i += 2;
        } else if str_equal(arg, "-h") || str_equal(arg, "--help") {
            return Ok(None);
        } else {
            return Err(concat_str("unknown argument: ", arg));
        }
    }
    proof {
        assert(all.skip(i as int).len() == 0);
    }
    Ok(Some(ProbeArgs { mode: crate::text::copy_str(mode), mime, payload, timeout_ms }))
}

} // verus!

verus! {

/// The arguments of a probe client run.
#[derive(Debug, Clone, PartialEq)]
pub struct ProbeClientArgs {
    pub mode: String,
    pub title: String,
    pub hold_ms: u64,
    pub namespace: String,
}

/// How a probe client's flags read.
pub enum ClientFlagsOutcome {
    /// Run with this title, hold time and namespace.
    Run(Seq<char>, int, Seq<char>),
    /// Show the usage.
    Help,
    /// Stop with this message.
    Fail(Seq<char>),
}

/// The flags `args` read over the current title, hold time and namespace.
pub open spec fn client_flags(args: Seq<Seq<char>>, title: Seq<char>, hold: int, namespace: Seq<char>) -> ClientFlagsOutcome
    decreases args.len(),
{
    if args.len() == 0 {
        ClientFlagsOutcome::Run(title, hold, namespace)
    } else if args[0] == "--title"@ {
        if args.len() < 2 {
            ClientFlagsOutcome::Fail("--title requires a value"@)
        } else {
            client_flags(args.skip(2), args[1], hold, namespace)
        }
    } else if args[0] == "--hold-ms"@ {
        if args.len() < 2 {
            ClientFlagsOutcome::Fail("--hold-ms requires a value"@)
        } else {
            match u64_parse(args[1]) {
                Ok(v) => client_flags(args.skip(2), title, v, namespace),
                Err(m) => ClientFlagsOutcome::Fail(m),
            }
        }
    } else if args[0] == "--namespace"@ {
        if args.len() < 2 {
            ClientFlagsOutcome::Fail("--namespace requires a value"@)
        } else {
            client_flags(args.skip(2), title, hold, args[1])
        }
    } else if args[0] == "-h"@ || args[0] == "--help"@ {
        ClientFlagsOutcome::Help
    } else {
        ClientFlagsOutcome::Fail("unknown argument: "@ + args[0])
    }
}

/// Reads a probe client's arguments (those after the program name): the mode, then
/// `--title`, `--hold-ms` and `--namespace`, each with a value. `None` asks for the
/// usage: no mode, or a help flag. The title defaults to `evilwm probe`, the hold time
/// to 0 ms, the namespace to `evilwm-test-panel`.
pub fn parse_probe_client_args(args: &[String]) -> (r: Result<Option<ProbeClientArgs>, String>)
    ensures
        args@.len() == 0 ==> r == Ok::<Option<ProbeClientArgs>, String>(None),
        args@.len() > 0 && (args@[0]@ == "-h"@ || args@[0]@ == "--help"@) ==> r == Ok::<Option<ProbeClientArgs>, String>(None),
        args@.len() > 0 && !(args@[0]@ == "-h"@ || args@[0]@ == "--help"@) ==> match client_flags(strings_view(args@).skip(1), "evilwm probe"@, 0, "evilwm-test-panel"@) {
            ClientFlagsOutcome::Run(title, hold, namespace) => r matches Ok(Some(p)) && p.mode@ == args@[0]@
                && p.title@ == title && p.hold_ms == hold && p.namespace@ == namespace,
            ClientFlagsOutcome::Help => r == Ok::<Option<ProbeClientArgs>, String>(None),
            ClientFlagsOutcome::Fail(m) => r matches Err(e) && e@ == m,
        },
{
    if args.len() == 0 {
        return Ok(None);
    }
    let mode = args[0].as_str();
    if str_equal(mode, "-h") || str_equal(mode, "--help") {
        return Ok(None);
    }
    let ghost all = strings_view(args@);
    let mut title = crate::text::copy_str("evilwm probe");
    let mut hold_ms: u64 = 0;
    let mut namespace = crate::text::copy_str("evilwm-test-panel");
    let mut i: usize = 1;
    while i < args.len()
        invariant
            1 <= i <= args@.len(),
            all == strings_view(args@),
            mode@ == args@[0]@,
            !(args@[0]@ == "-h"@ || args@[0]@ == "--help"@),
            client_flags(all.skip(1), "evilwm probe"@, 0, "evilwm-test-panel"@)
                == client_flags(all.skip(i as int), title@, hold_ms as int, namespace@),
        decreases args@.len() - i,
    {
        let ghost rest = all.skip(i as int);
        proof {
            assert(rest[0] == args@[i as int]@);
            if i + 1 < args.len() {
                assert(rest[1] == args@[i + 1]@);
                assert(rest.skip(2) =~= all.skip(i + 2));
            }
        }
        let arg = args[i].as_str();
        let ghost t0 = title@;
        let ghost h0 = hold_ms as int;
        let ghost n0 = namespace@;
        if str_equal(arg, "--title") {
            if i + 1 >= args.len() {
                return Err(crate::text::copy_str("--title requires a value"));
            }
            title = args[i + 1].clone();
            assert(client_flags(rest, t0, h0, n0) == client_flags(rest.skip(2), rest[1], h0, n0));
            i += 2;
        } else if str_equal(arg, "--hold-ms") {
            if i + 1 >= args.len() {
                return Err(crate::text::copy_str("--hold-ms requires a value"));
            }
            match parse_u64(args[i + 1].as_str()) {
                Ok(v) => {
                    hold_ms = v;
                    assert(client_flags(rest, t0, h0, n0) == client_flags(rest.skip(2), t0, v as int, n0));
                },
                Err(e) => {
                    return Err(e);
                },
            }
            i += 2;
        } else if str_equal(arg, "--namespace") {
            if i + 1 >= args.len() {
                return Err(crate::text::copy_str("--namespace requires a value"));
            }
            namespace = args[i + 1].clone();
            assert(client_flags(rest, t0, h0, n0) == client_flags(rest.skip(2), t0, h0, rest[1]));
            i += 2;
        } else if str_equal(arg, "-h") || str_equal(arg, "--help") {
            return Ok(None);
        } else {
            return Err(concat_str("unknown argument: ", arg));
        }
    }
    proof {
        assert(all.skip(i as int).len() == 0);
    }
    Ok(Some(ProbeClientArgs { mode: crate::text::copy_str(mode), title, hold_ms, namespace }))
}

} // verus!

verus! {

/// What a probe client shows.
#[derive(Debug, Clone, Copy, PartialEq, Eq, Structural)]
pub enum ClientMode {
    XdgWindow,
    LayerPanel,
    X11Window,
}

/// Which exchange a transfer probe runs.
#[derive(Debug, Clone, Copy, PartialEq, Eq, Structural)]
pub enum TransferMode {
    ClipboardSource,
    ClipboardSink,
    PrimarySource,
    PrimarySink,
    DndSource,
    DndTarget,
}

/// The client mode a name stands for.
pub open spec fn client_mode_named(name: Seq<char>) -> Option<ClientMode> {
    if name == "xdg-window"@ {
        Some(ClientMode::XdgWindow)
    } else if name == "layer-panel"@ {
        Some(ClientMode::LayerPanel)
    } else if name == "x11-window"@ {
        Some(ClientMode::X11Window)
    } else {
        None
    }
}

/// The transfer mode a name stands for.
pub open spec fn transfer_mode_named(name: Seq<char>) -> Option<TransferMode> {
    if name == "clipboard-source"@ {
        Some(TransferMode::ClipboardSource)
    } else if name == "clipboard-sink"@ {
        Some(TransferMode::ClipboardSink)
    } else if name == "primary-source"@ {
        Some(TransferMode::PrimarySource)
    } else if name == "primary-sink"@ {
        Some(TransferMode::PrimarySink)
    } else if name == "dnd-source"@ {
        Some(TransferMode::DndSource)
    } else if name == "dnd-target"@ {
        Some(TransferMode::DndTarget)
    } else {
        None
    }
}

/// The client mode a name gives, or the message for an unknown one.
pub fn client_mode(name: &str) -> (r: Result<ClientMode, String>)
    ensures
        match client_mode_named(name@) {
            Some(m) => r == Ok::<ClientMode, String>(m),
            None => r matches Err(e) && e@ == "unknown mode: "@ + name@,
        },
{
    if str_equal(name, "xdg-window") {
        Ok(ClientMode::XdgWindow)
    } else if str_equal(name, "layer-panel") {
        Ok(ClientMode::LayerPanel)
    } else if str_equal(name, "x11-window") {
        Ok(ClientMode::X11Window)
    } else {
        Err(concat_str("unknown mode: ", name))
    }
}

/// The transfer mode a name gives, or the message for an unknown one.
pub fn transfer_mode(name: &str) -> (r: Result<TransferMode, String>)
    ensures
        match transfer_mode_named(name@) {
            Some(m) => r == Ok::<TransferMode, String>(m),
            None => r matches Err(e) && e@ == "unknown mode: "@ + name@,
        },
{
    if str_equal(name, "clipboard-source") {
        Ok(TransferMode::ClipboardSource)
    } else if str_equal(name, "clipboard-sink") {
        Ok(TransferMode::ClipboardSink)
    } else if str_equal(name, "primary-source") {
        Ok(TransferMode::PrimarySource)
    } else if str_equal(name, "primary-sink") {
        Ok(TransferMode::PrimarySink)
    } else if str_equal(name, "dnd-source") {
        Ok(TransferMode::DndSource)
    } else if str_equal(name, "dnd-target") {
        Ok(TransferMode::DndTarget)
    } else {
        Err(concat_str("unknown mode: ", name))
    }
}

} // verus!
