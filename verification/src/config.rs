//! Panel configuration: window placement, icon set, and the hotspot's
//! name and credential, with the random credential generator.

use vstd::prelude::*;
use vstd::string::StrSliceExecFns;
use vstd::string::StringExecFns;

verus! {

/// Window position on screen.
#[derive(Debug, Clone, Copy, PartialEq, Eq, Structural)]
pub enum Position {
    Center,
    TopRight,
    TopCenter,
    TopLeft,
    BottomRight,
    BottomCenter,
    BottomLeft,
    CenterRight,
    CenterLeft,
}

impl Default for Position {
    /// The panel is centered unless configured otherwise.
    fn default() -> (r: Position)
        ensures
            r == Position::Center,
    {
        Position::Center
    }
}

/// Panel configuration.
#[derive(Debug, Clone)]
pub struct Config {
    /// Window position.
    pub position: Position,
    /// Margin from the top edge in pixels.
    pub margin_top: i32,
    /// Margin from the right edge in pixels.
    pub margin_right: i32,
    /// Margin from the bottom edge in pixels.
    pub margin_bottom: i32,
    /// Margin from the left edge in pixels.
    pub margin_left: i32,
    /// Signal strength icons: weak, fair, good, strong.
    pub signal_icons: [String; 4],
    /// Icon marking secured networks.
    pub lock_icon: String,
    /// Icon marking saved networks.
    pub saved_icon: String,
    /// Whether the panel shows as soon as the process starts.
    pub show_on_start: bool,
    /// Name the hotspot broadcasts.
    pub hotspot_ssid: String,
    /// Hotspot credential; empty makes the hotspot open.
    pub hotspot_password: String,
}

impl Default for Config {
    /// The defaults used when no configuration file exists or it fails
    /// to parse.
    fn default() -> (r: Config)
        ensures
            r.position == Position::Center,
            r.margin_top == 10 && r.margin_right == 10 && r.margin_bottom == 10 && r.margin_left
                == 10,
            r.signal_icons@.len() == 4,
            r.signal_icons@[0]@ == "\u{f091f}"@,
            r.signal_icons@[1]@ == "\u{f0922}"@,
            r.signal_icons@[2]@ == "\u{f0925}"@,
            r.signal_icons@[3]@ == "\u{f0928}"@,
            r.lock_icon@ == "\u{f023}"@,
            r.saved_icon@ == "\u{f05d}"@,
            !r.show_on_start,
            r.hotspot_ssid@ == "Linux-Hotspot"@,
            r.hotspot_password@.len() == 0,
    {
        Config {
            position: Position::Center,
            margin_top: 10,
            margin_right: 10,
            margin_bottom: 10,
            margin_left: 10,
            signal_icons: [
                String::from_str("\u{f091f}"),
                String::from_str("\u{f0922}"),
                String::from_str("\u{f0925}"),
                String::from_str("\u{f0928}"),
            ],
            lock_icon: String::from_str("\u{f023}"),
            saved_icon: String::from_str("\u{f05d}"),
            show_on_start: false,
            hotspot_ssid: String::from_str("Linux-Hotspot"),
            hotspot_password: String::new(),
        }
    }
}

/// Which of the four signal icons a strength maps to: below 25 weak,
/// below 50 fair, below 75 good, else strong.
pub open spec fn spec_signal_icon_index(strength: u8) -> int {
    if strength >= 75 {
        3int
    } else if strength >= 50 {
        2int
    } else if strength >= 25 {
        1int
    } else {
        0int
    }
}

/// Pick the signal icon slot for a strength value.
pub fn signal_icon_index(strength: u8) -> (r: usize)
    ensures
        r as int == spec_signal_icon_index(strength),
        r < 4,
{
    if strength >= 75 {
        3
    } else if strength >= 50 {
        2
    } else if strength >= 25 {
        1
    } else {
        0
    }
}

/// The characters a generated credential draws from.
pub open spec fn spec_password_charset() -> Seq<char> {
    "abcdefghijklmnopqrstuvwxyzABCDEFGHIJKLMNOPQRSTUVWXYZ0123456789"@
}

/// Relies on rand::random_range: a uniform draw from a non-empty range
/// lies within it; the call panics only on an empty range, which the
/// precondition rules out.
#[verifier::external_body]
fn random_index(bound: usize) -> (r: usize)
    requires
        bound > 0,
    ensures
        r < bound,
{
    rand::random_range(0..bound)
}

/// Generate a random alphanumeric credential of the given length.
pub fn generate_random_password(length: usize) -> (r: String)
    ensures
        r@.len() == length as nat,
        forall|i: int| 0 <= i < r@.len() ==> spec_password_charset().contains(#[trigger] r@[i]),
{
    let charset = "abcdefghijklmnopqrstuvwxyzABCDEFGHIJKLMNOPQRSTUVWXYZ0123456789";
    proof {
        reveal_strlit("abcdefghijklmnopqrstuvwxyzABCDEFGHIJKLMNOPQRSTUVWXYZ0123456789");
        assert(charset@.len() == 62);
    }
    let mut out = String::new();
    let mut i: usize = 0;
    while i < length
        invariant
            0 <= i <= length,
            out@.len() == i,
            charset@ == spec_password_charset(),
            charset@.len() == 62,
            forall|j: int|
                0 <= j < out@.len() ==> spec_password_charset().contains(#[trigger] out@[j]),
        decreases length - i,
    {
        let idx = random_index(62);
        let piece = charset.substring_char(idx, idx + 1);
        let ghost pre = out@;
        out.append(piece);
        proof {
            assert(piece@ =~= seq![charset@[idx as int]]);
            assert(out@ =~= pre.push(charset@[idx as int]));
            assert(spec_password_charset()[idx as int] == charset@[idx as int]);
            assert(spec_password_charset().contains(charset@[idx as int]));
        }
        i += 1;
    }
    out
}

} // verus!
