//! The on-screen indicator.
//!
//! Everything here is a knob someone might reasonably want to turn, which is why it is
//! configuration rather than constants: where the ring sits, how big it is, how hard it
//! works, how calm it looks, and what colour it is.

use vstd::prelude::*;

use crate::single::Single;
use crate::text::chars_of;

verus! {

/// Where on screen the overlay sits.
#[derive(Debug, Clone, Copy, PartialEq, Eq, Default, Structural)]
pub enum OverlayPosition {
    /// Above where a bar would sit. Visible without covering what you are dictating into.
    #[default]
    Bottom,
    Top,
    Centre,
    BottomRight,
    BottomLeft,
}

/// The value of a hexadecimal digit.
pub open spec fn hex_digit(c: char) -> Option<int> {
    if '0' <= c <= '9' {
        Some(c as int - '0' as int)
    } else if 'a' <= c <= 'f' {
        Some(c as int - 'a' as int + 10)
    } else if 'A' <= c <= 'F' {
        Some(c as int - 'A' as int + 10)
    } else {
        None
    }
}

/// Whether everything behind the first character is hexadecimal.
pub open spec fn hex_digits(text: Seq<char>) -> bool {
    forall|i: int| 1 <= i < text.len() ==> hex_digit(#[trigger] text[i]) is Some
}

/// The byte that two hexadecimal digits stand for.
pub open spec fn hex_byte(text: Seq<char>, at: int) -> u8 {
    (hex_digit(text[at])->0 * 16 + hex_digit(text[at + 1])->0) as u8
}

/// The colour that a text stands for: red, green, blue and how opaque it is.
pub open spec fn colour(text: Seq<char>) -> Option<(u8, u8, u8, u8)> {
    if text.len() > 0 && text[0] == '#' && hex_digits(text) && (text.len() == 7 || text.len() == 9) {
        Some(
            (
                hex_byte(text, 1),
                hex_byte(text, 3),
                hex_byte(text, 5),
                if text.len() == 7 {
                    255
                } else {
                    hex_byte(text, 7)
                },
            ),
        )
    } else {
        None
    }
}

fn digit_value(c: char) -> (result: Option<u8>)
    ensures
        match result {
            Some(value) => hex_digit(c) == Some(value as int) && value < 16,
            None => hex_digit(c) is None,
        },
{
    if '0' <= c && c <= '9' {
        Some((c as u32 - 48) as u8)
    } else if 'a' <= c && c <= 'f' {
        Some((c as u32 - 87) as u8)
    } else if 'A' <= c && c <= 'F' {
        Some((c as u32 - 55) as u8)
    } else {
        None
    }
}

/// The values of all digits behind the first character, if all are hexadecimal.
fn digit_values(chars: &Vec<char>) -> (result: Option<Vec<u8>>)
    requires
        chars.len() > 0,
    ensures
        match result {
            Some(values) => {
                &&& hex_digits(chars@)
                &&& values@.len() == chars@.len() - 1
                &&& forall|i: int|
                    0 <= i < values@.len() ==> (#[trigger] values@[i]) < 16 && hex_digit(
                        chars@[i + 1],
                    ) == Some(values@[i] as int)
            },
            None => !hex_digits(chars@),
        },
{
    let mut values: Vec<u8> = Vec::new();
    let mut i: usize = 1;
    while i < chars.len()
        invariant
            1 <= i <= chars.len(),
            values@.len() == i - 1,
            forall|j: int|
                0 <= j < values@.len() ==> (#[trigger] values@[j]) < 16 && hex_digit(chars@[j + 1])
                    == Some(values@[j] as int),
        decreases chars.len() - i,
    {
        match digit_value(chars[i]) {
            Some(value) => {
                values.push(value);
            },
            None => {
                assert(hex_digit(chars@[i as int]) is None);
                return None;
            },
        }
        i += 1;
    }
    assert forall|j: int| 1 <= j < chars@.len() implies hex_digit(#[trigger] chars@[j]) is Some by {
        assert(values@[j - 1] < 16);
    }
    Some(values)
}

/// An `#rrggbb` or `#rrggbbaa` colour.
///
/// Stored as the text the user wrote so that showing the configuration gives their own value
/// back rather than a decomposed one, and parsed on demand.
#[derive(Debug, Clone, PartialEq, Eq)]
pub struct Hex(pub String);

impl From<&str> for Hex {
    fn from(text: &str) -> (result: Self)
        ensures
            result.0@ == text@,
    {
        Hex(text.to_owned())
    }
}

impl vstd::std_specs::convert::FromSpecImpl<&str> for Hex {
    open spec fn obeys_from_spec() -> bool {
        false
    }

    open spec fn from_spec(text: &str) -> Hex {
        arbitrary()
    }
}

impl Hex {
    /// Parse to red, green, blue and opacity. Gives nothing for anything malformed, so a typo
    /// produces a configuration error naming the key rather than a silently black overlay.
    pub fn parse(&self) -> (result: Option<(u8, u8, u8, u8)>)
        ensures
            result == colour(self.0@),
    {
        let chars = chars_of(self.0.as_str());
        if chars.len() == 0 || chars[0] != '#' || (chars.len() != 7 && chars.len() != 9) {
            return None;
        }
        match digit_values(&chars) {
            Some(v) => {
                assert(v@[0] < 16 && v@[1] < 16 && v@[2] < 16 && v@[3] < 16 && v@[4] < 16 && v@[5]
                    < 16);
                let opacity: u8 = if chars.len() == 7 {
                    255
                } else {
                    assert(v@[6] < 16 && v@[7] < 16);
                    v[6] * 16 + v[7]
                };
                Some((v[0] * 16 + v[1], v[2] * 16 + v[3], v[4] * 16 + v[5], opacity))
            },
            None => None,
        }
    }
}

/// How the overlay moves.
///
/// The defaults are deliberately unhurried. Speeds are in radians per second, and levels in
/// dBFS.
#[derive(Debug, Clone, Copy, PartialEq, Eq, Structural)]
pub struct OverlayMotion {
    /// How fast the swell travels when nothing is being said. A slow drift, so a silent
    /// microphone still reads as alive rather than as a frozen picture.
    pub wave_speed: Single,
    /// How fast it travels at full voice: height alone says how loud, and speed says that
    /// something is happening right now.
    pub wave_speed_voice: Single,
    /// How quickly the ring rises to your voice, 0 to 1 per frame.
    pub attack: Single,
    /// How slowly it subsides. Much smaller than `attack`, so it settles like water rather
    /// than snapping shut between words.
    pub release: Single,
    /// Rotation rate of the decorative arcs. `0` stops them entirely.
    pub arc_speed: Single,
    /// Below this the input is reported as too quiet.
    pub quiet_enter_dbfs: Single,
    /// Above this it is reported as fine again.
    ///
    /// Two thresholds with a gap between them, not one. A single threshold makes the colour
    /// flip back and forth as ordinary speech crosses it.
    pub quiet_leave_dbfs: Single,
}

impl OverlayMotion {
    /// How the overlay moves unless told otherwise.
    pub open spec fn standard() -> OverlayMotion {
        OverlayMotion {
            wave_speed: Single { bits: 0x3f0c_cccd },
            wave_speed_voice: Single { bits: 0x4059_999a },
            attack: Single { bits: 0x3e8f_5c29 },
            release: Single { bits: 0x3d23_d70a },
            arc_speed: Single { bits: 0x3f80_0000 },
            quiet_enter_dbfs: Single { bits: 0xc240_0000 },
            quiet_leave_dbfs: Single { bits: 0xc228_0000 },
        }
    }
}

impl Default for OverlayMotion {
    fn default() -> (result: Self)
        ensures
            result == OverlayMotion::standard(),
            result.wave_speed.below_spec(result.wave_speed_voice),
            result.quiet_enter_dbfs.below_spec(result.quiet_leave_dbfs),
    {
        OverlayMotion {
            // 0.55 and 3.4
            wave_speed: Single { bits: 0x3f0c_cccd },
            wave_speed_voice: Single { bits: 0x4059_999a },
            // 0.28 and 0.04
            attack: Single { bits: 0x3e8f_5c29 },
            release: Single { bits: 0x3d23_d70a },
            // 1
            arc_speed: Single { bits: 0x3f80_0000 },
            // -48 and -42
            quiet_enter_dbfs: Single { bits: 0xc240_0000 },
            quiet_leave_dbfs: Single { bits: 0xc228_0000 },
        }
    }
}

/// What the overlay is made of.
#[derive(Debug, Clone, PartialEq, Eq)]
pub struct OverlayColours {
    /// The primary instrument colour.
    pub hud: Hex,
    /// Cardinal graduations and secondary arcs.
    pub deep: Hex,
    /// Inactive ticks, and the swell when nothing is being said.
    pub dim: Hex,
    /// Frame lines.
    pub rule: Hex,
    /// Input too quiet.
    pub warn: Hex,
    /// Clipping, and failed callbacks.
    pub critical: Hex,
    /// Succeeded callbacks.
    pub ok: Hex,
    pub text: Hex,
    pub text_dim: Hex,
    /// Behind the ring. An alpha component here is what makes it translucent.
    pub ground: Hex,
    /// Behind the callback list. Opaque by default: it carries small text, and a bright
    /// window showing through makes it unreadable.
    pub panel_ground: Hex,
}

impl OverlayColours {
    /// Whether these are the colours used unless told otherwise.
    pub open spec fn is_standard(self) -> bool {
        &&& self.hud.0@ == "#58d7ff"@
        &&& self.deep.0@ == "#2b93b8"@
        &&& self.dim.0@ == "#1c5a72"@
        &&& self.rule.0@ == "#14293a"@
        &&& self.warn.0@ == "#ffb64d"@
        &&& self.critical.0@ == "#ff5f56"@
        &&& self.ok.0@ == "#6fe3a8"@
        &&& self.text.0@ == "#cfe9f5"@
        &&& self.text_dim.0@ == "#6f93a6"@
        &&& self.ground.0@ == "#05080cd2"@
        &&& self.panel_ground.0@ == "#060a0f"@
    }
}

impl Default for OverlayColours {
    fn default() -> (result: Self)
        ensures
            result.is_standard(),
    {
        OverlayColours {
            // Not pure cyan: pulled toward sky and desaturated, it reads as an instrument.
            hud: Hex::from("#58d7ff"),
            deep: Hex::from("#2b93b8"),
            dim: Hex::from("#1c5a72"),
            rule: Hex::from("#14293a"),
            warn: Hex::from("#ffb64d"),
            critical: Hex::from("#ff5f56"),
            ok: Hex::from("#6fe3a8"),
            text: Hex::from("#cfe9f5"),
            text_dim: Hex::from("#6f93a6"),
            ground: Hex::from("#05080cd2"),
            panel_ground: Hex::from("#060a0f"),
        }
    }
}

/// Sizes, in logical pixels.
#[derive(Debug, Clone, Copy, PartialEq, Eq, Structural)]
pub struct OverlayGeometry {
    /// Radius the swell oscillates about. Between the readout and the bezel.
    pub wave_base: Single,
    /// How far it rises at full voice. Large values fold the wave in over the readout.
    pub wave_height: Single,
    /// Width of the callback panel.
    pub panel_width: u32,
}

impl OverlayGeometry {
    /// The sizes used unless told otherwise.
    pub open spec fn standard() -> OverlayGeometry {
        OverlayGeometry {
            wave_base: Single { bits: 0x4288_0000 },
            wave_height: Single { bits: 0x4180_0000 },
            panel_width: 300,
        }
    }
}

impl Default for OverlayGeometry {
    fn default() -> (result: Self)
        ensures
            result == OverlayGeometry::standard(),
    {
        OverlayGeometry {
            // 68 and 16
            wave_base: Single { bits: 0x4288_0000 },
            wave_height: Single { bits: 0x4180_0000 },
            panel_width: 300,
        }
    }
}

/// Every field defaults, and so does every nested table: setting one colour should not mean
/// restating all eleven.
#[derive(Debug, Clone, PartialEq, Eq)]
pub struct OverlayConfig {
    pub position: OverlayPosition,
    /// Distance from that screen edge. Ignored when centred.
    pub margin: i32,
    /// Diameter of the ring.
    pub size: u32,
    /// Frames per second while something is on screen.
    ///
    /// The ring is drawn in software, so this is the main thing deciding what it costs. 30
    /// is smooth for a level meter and roughly halves the work.
    pub fps: u32,
    /// Font family for the readouts. Falls back to whatever the system has.
    pub font: String,
    pub motion: OverlayMotion,
    pub colours: OverlayColours,
    pub geometry: OverlayGeometry,
}

impl Default for OverlayConfig {
    fn default() -> (result: Self)
        ensures
            result.position == OverlayPosition::Bottom,
            result.margin == 72,
            result.size == 240,
            result.fps == 60,
            result.font@ == "Chakra Petch"@,
            result.motion == OverlayMotion::standard(),
            result.colours.is_standard(),
            result.geometry == OverlayGeometry::standard(),
    {
        OverlayConfig {
            position: OverlayPosition::Bottom,
            margin: 72,
            size: 240,
            fps: 60,
            font: "Chakra Petch".to_owned(),
            motion: OverlayMotion::default(),
            colours: OverlayColours::default(),
            geometry: OverlayGeometry::default(),
        }
    }
}

/// A colour is never guessed: what is written without its hash, with a digit too few or with
/// something that is no digit is no colour at all.
pub proof fn law_a_malformed_colour_is_rejected(text: Seq<char>, i: int)
    requires
        text.len() == 0 || text[0] != '#' || (text.len() != 7 && text.len() != 9) || (1 <= i
            < text.len() && hex_digit(text[i]) is None),
    ensures
        colour(text) is None,
{
}

/// A hexadecimal digit stands for its value, in either case, and nothing else is one.
pub proof fn law_a_hexadecimal_digit_has_its_value(c: char)
    ensures
        '0' <= c && c <= '9' ==> hex_digit(c) == Some(c as int - 48),
        'a' <= c && c <= 'f' ==> hex_digit(c) == Some(c as int - 87),
        'A' <= c && c <= 'F' ==> hex_digit(c) == Some(c as int - 55),
        hex_digit(c) is Some <==> ('0' <= c && c <= '9') || ('a' <= c && c <= 'f') || ('A' <= c
            && c <= 'F'),
        hex_digit(c) matches Some(value) ==> 0 <= value < 16,
{
}

/// A colour is a hash sign and six or eight hexadecimal digits, two to each of red, green,
/// blue and opacity, which is full when it is left out.
pub proof fn law_a_colour_has_two_digits_to_a_part(text: Seq<char>)
    ensures
        colour(text) is Some <==> (text.len() == 7 || text.len() == 9) && text[0] == '#' && (
        forall|i: int| 1 <= i < text.len() ==> hex_digit(#[trigger] text[i]) is Some),
        colour(text) matches Some(parts) ==> {
            &&& parts.0 == 16 * (hex_digit(text[1])->0) + (hex_digit(text[2])->0)
            &&& parts.1 == 16 * (hex_digit(text[3])->0) + (hex_digit(text[4])->0)
            &&& parts.2 == 16 * (hex_digit(text[5])->0) + (hex_digit(text[6])->0)
            &&& text.len() == 7 ==> parts.3 == 255
            &&& text.len() == 9 ==> parts.3 == 16 * (hex_digit(text[7])->0) + (hex_digit(
                text[8],
            )->0)
        },
{
    if colour(text) is Some {
        assert(hex_digit(text[1]) is Some && hex_digit(text[2]) is Some);
        assert(hex_digit(text[3]) is Some && hex_digit(text[4]) is Some);
        assert(hex_digit(text[5]) is Some && hex_digit(text[6]) is Some);
        if text.len() == 9 {
            assert(hex_digit(text[7]) is Some && hex_digit(text[8]) is Some);
        }
    }
}

} // verus!
