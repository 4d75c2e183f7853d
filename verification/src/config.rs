//! Settings: how raw IMU axes map onto the axes the server reports, the UDP
//! port and exposure, and the live copy of the settings that readers poll.

use vstd::prelude::*;
use vstd::string::StrSliceExecFns;

verus! {

/// Where one reported axis comes from: a raw axis (0 = X, 1 = Y, 2 = Z; any
/// larger number means Z) and whether its sign is flipped.
#[derive(Clone, Copy, Debug, PartialEq, Eq, Structural)]
pub struct Axis {
    pub source: u8,
    pub invert: bool,
}

/// The value `a` reports given the raw readings `r0`, `r1`, `r2`.
pub open spec fn axis_value(a: Axis, r0: i16, r1: i16, r2: i16) -> int {
    let v: int = if a.source == 0 { r0 as int } else if a.source == 1 { r1 as int } else { r2 as int };
    if a.invert { -v } else { v }
}

impl Axis {
    /// The axis taking raw axis `source`, flipped when `invert`.
    pub fn new(source: u8, invert: bool) -> (a: Axis)
        ensures
            a == (Axis { source, invert }),
    {
        Axis { source, invert }
    }

    /// The reported value for the raw readings `raw` (X, Y, Z); a flipped
    /// axis negates, which is exact because the result is wider than a raw reading.
    pub fn apply(&self, raw: [i16; 3]) -> (v: i32)
        ensures
            v == axis_value(*self, raw[0], raw[1], raw[2]),
    {
        let idx: usize = if self.source < 2 { self.source as usize } else { 2 };
        let v = raw[idx] as i32;
        if self.invert { -v } else { v }
    }
}

/// Flipping an axis negates what it reports, and every source number above
/// 2 reads raw Z.
pub proof fn lemma_axis_invert_and_clamp(source: u8, r0: i16, r1: i16, r2: i16)
    ensures
        axis_value(Axis { source, invert: true }, r0, r1, r2) == -axis_value(Axis { source, invert: false }, r0, r1, r2),
        source >= 2 ==> axis_value(Axis { source, invert: false }, r0, r1, r2) == r2 as int,
{
}

/// The three reported axes of one sensor.
#[derive(Clone, Copy, Debug, PartialEq, Eq, Structural)]
pub struct AxisMap {
    pub x: Axis,
    pub y: Axis,
    pub z: Axis,
}

/// The default mapping: X from raw X, Y from raw Z, Z from raw Y flipped.
pub open spec fn default_axis_map() -> AxisMap {
    AxisMap {
        x: Axis { source: 0, invert: false },
        y: Axis { source: 2, invert: false },
        z: Axis { source: 1, invert: true },
    }
}

impl Default for AxisMap {
    fn default() -> (m: Self)
        ensures
            m == default_axis_map(),
    {
        AxisMap { x: Axis::new(0, false), y: Axis::new(2, false), z: Axis::new(1, true) }
    }
}

/// All settings.
#[derive(Clone, Copy, Debug, PartialEq, Eq, Structural)]
pub struct Config {
    /// UDP port the server listens on.
    pub port: u16,
    pub gyro: AxisMap,
    pub accel: AxisMap,
    /// Start with the settings window hidden.
    pub start_minimized: bool,
    /// Listen on all interfaces rather than on loopback only.
    pub expose_to_network: bool,
    /// Estimate and subtract the gyroscope bias while the controller is still.
    pub auto_calibrate: bool,
    /// Closing the settings window hides it instead of quitting.
    pub close_to_tray: bool,
}

/// The default port of a DSU server.
pub const DEFAULT_PORT: u16 = 26760;

/// The settings used when none are saved.
pub open spec fn default_config() -> Config {
    Config {
        port: DEFAULT_PORT,
        gyro: default_axis_map(),
        accel: default_axis_map(),
        start_minimized: false,
        expose_to_network: false,
        auto_calibrate: true,
        close_to_tray: false,
    }
}

impl Default for Config {
    fn default() -> (c: Self)
        ensures
            c == default_config(),
    {
        Config {
            port: DEFAULT_PORT,
            gyro: AxisMap::default(),
            accel: AxisMap::default(),
            start_minimized: false,
            expose_to_network: false,
            auto_calibrate: true,
            close_to_tray: false,
        }
    }
}

/// The IPv4 address the server binds: every interface when exposed to the
/// network, loopback otherwise.
pub fn bind_host(expose_to_network: bool) -> (a: [u8; 4])
    ensures
        a@ == (if expose_to_network { seq![0u8, 0u8, 0u8, 0u8] } else { seq![127u8, 0u8, 0u8, 1u8] }),
{
    let a: [u8; 4] = if expose_to_network { [0u8, 0u8, 0u8, 0u8] } else { [127u8, 0u8, 0u8, 1u8] };
    assert(a@ =~= (if expose_to_network { seq![0u8, 0u8, 0u8, 0u8] } else { seq![127u8, 0u8, 0u8, 1u8] }));
    a
}

/// Whether `c` has the Unicode White_Space property.
pub uninterp spec fn unicode_white_space(c: char) -> bool;

/// `char::is_whitespace`: whether `c` has the Unicode White_Space property,
/// as the named result `unicode_white_space`.
#[verifier::external_body]
fn char_is_whitespace(c: char) -> (b: bool)
    ensures
        b == unicode_white_space(c),
{
    c.is_whitespace()
}

/// Whether `c` is an ASCII decimal digit.
pub open spec fn is_digit(c: char) -> bool {
    '0' <= c <= '9'
}

/// The value of the decimal digits `d`.
pub open spec fn digits_value(d: Seq<char>) -> int
    decreases d.len(),
{
    if d.len() == 0 {
        0
    } else {
        digits_value(d.drop_last()) * 10 + (d.last() as int - '0' as int)
    }
}

/// The `u16` that `s` spells in decimal: an optional `+`, then one or more
/// ASCII digits, with a value below 2^16; `None` for anything else (no sign
/// but `+`, no whitespace, no underscores).
pub open spec fn decimal_u16(s: Seq<char>) -> Option<u16> {
    let d = if s.len() > 0 && s[0] == '+' { s.drop_first() } else { s };
    if d.len() > 0 && (forall|i: int| #![trigger d[i]] 0 <= i < d.len() ==> is_digit(d[i])) && digits_value(d) <= u16::MAX {
        Some(digits_value(d) as u16)
    } else {
        None
    }
}

/// `str::parse::<u16>`: the value `text` spells in decimal, as its
/// documentation states the rule (an optional `+`, then decimal digits,
/// without overflow); `None` where it returns an error.
#[verifier::external_body]
fn parse_u16(text: &str) -> (r: Option<u16>)
    ensures
        r == decimal_u16(text@),
{
    text.parse::<u16>().ok()
}

/// What became of the text typed into the port field.
#[derive(Clone, Copy, Debug, PartialEq, Eq, Structural)]
pub enum PortEdit {
    /// The text is a port number: it is taken.
    Taken,
    /// The text is blank: the port is left as it was.
    Blank,
    /// The text is not a port number: the port is left as it was.
    Ignored,
}

/// Whether every character of `s` is white space.
pub open spec fn all_white_space(s: Seq<char>) -> bool {
    forall|i: int| 0 <= i < s.len() ==> unicode_white_space(s[i])
}

/// The port after the port field reads `text`, and what became of the text.
pub fn port_from_text(current: u16, text: &str) -> (r: (u16, PortEdit))
    ensures
        decimal_u16(text@) matches Some(p) ==> r == (p, PortEdit::Taken),
        decimal_u16(text@) is None && all_white_space(text@) ==> r == (current, PortEdit::Blank),
        decimal_u16(text@) is None && !all_white_space(text@) ==> r == (current, PortEdit::Ignored),
{
    match parse_u16(text) {
        Some(p) => (p, PortEdit::Taken),
        None => {
            let n = text.unicode_len();
            let mut i: usize = 0;
            while i < n
                invariant
                    n == text@.len(),
                    decimal_u16(text@) is None,
                    i <= n,
                    forall|k: int| 0 <= k < i ==> unicode_white_space(text@[k]),
                decreases n - i,
            {
                if !char_is_whitespace(text.get_char(i)) {
                    return (current, PortEdit::Ignored);
                }
                i = i + 1;
            }
            (current, PortEdit::Blank)
        },
    }
}

/// The settings in force, with a counter that changes whenever they are replaced,
/// so that a reader holding a copy can tell its copy is stale.
pub struct LiveConfig {
    current: Config,
    generation: u64,
}

impl LiveConfig {
    /// The settings in force.
    pub closed spec fn config(&self) -> Config {
        self.current
    }

    /// The change counter.
    pub closed spec fn gen(&self) -> u64 {
        self.generation
    }

    /// Live settings holding the defaults, at generation 0.
    pub fn new() -> (l: LiveConfig)
        ensures
            l.config() == default_config(),
            l.gen() == 0,
    {
        LiveConfig { current: Config::default(), generation: 0 }
    }
}

/// The generation that follows `g`, wrapping at 2^64.
pub open spec fn next_generation(g: u64) -> u64 {
    if g == u64::MAX { 0 } else { (g + 1) as u64 }
}

/// Puts `initial` in force and advances the change counter.
pub fn install(live: &mut LiveConfig, initial: Config)
    ensures
        final(live).config() == initial,
        final(live).gen() == next_generation(old(live).gen()),
{
    live.current = initial;
    live.generation = if live.generation == u64::MAX { 0 } else { live.generation + 1 };
}

/// A copy of the settings in force.
pub fn snapshot(live: &LiveConfig) -> (c: Config)
    ensures
        c == live.config(),
{
    live.current
}

/// The change counter of the settings in force.
pub fn generation(live: &LiveConfig) -> (g: u64)
    ensures
        g == live.gen(),
{
    live.generation
}

/// Every replacement of the settings is visible to a reader that remembers
/// the counter it last saw: the counter after an install differs from the
/// one before.
pub proof fn lemma_install_changes_generation(g: u64)
    ensures
        next_generation(g) != g,
{
}

} // verus!
