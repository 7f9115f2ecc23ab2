//! Chat formatting: the closed set of legacy formatting codes, RGB text
//! colors, and the style a piece of text carries, with the ANSI escape
//! rendering used to show styled text on a terminal.

use vstd::prelude::*;
use vstd::string::StringExecFns;
use crate::text::{
    dec_chars, eq_ignore_ascii_case, hex_chars_upper, hex_u32_value, lower_chars, parse_hex_u32,
    push_dec_u32, push_hex_u32_upper, string_push_char, to_ascii_lower,
};

verus! {

/// One legacy formatting code: sixteen colors, five text formats and the
/// reset marker.
#[derive(Clone, Copy, PartialEq, Eq, Hash, Debug, Structural)]
pub enum ChatFormatting {
    Black,
    DarkBlue,
    DarkGreen,
    DarkAqua,
    DarkRed,
    DarkPurple,
    Gold,
    Gray,
    DarkGray,
    Blue,
    Green,
    Aqua,
    Red,
    LightPurple,
    Yellow,
    White,
    Obfuscated,
    Strikethrough,
    Bold,
    Underline,
    Italic,
    Reset,
}

/// The canonical upper-case name of each formatting code.
pub open spec fn formatting_name(f: ChatFormatting) -> Seq<char> {
    match f {
        ChatFormatting::Black => "BLACK"@,
        ChatFormatting::DarkBlue => "DARK_BLUE"@,
        ChatFormatting::DarkGreen => "DARK_GREEN"@,
        ChatFormatting::DarkAqua => "DARK_AQUA"@,
        ChatFormatting::DarkRed => "DARK_RED"@,
        ChatFormatting::DarkPurple => "DARK_PURPLE"@,
        ChatFormatting::Gold => "GOLD"@,
        ChatFormatting::Gray => "GRAY"@,
        ChatFormatting::DarkGray => "DARK_GRAY"@,
        ChatFormatting::Blue => "BLUE"@,
        ChatFormatting::Green => "GREEN"@,
        ChatFormatting::Aqua => "AQUA"@,
        ChatFormatting::Red => "RED"@,
        ChatFormatting::LightPurple => "LIGHT_PURPLE"@,
        ChatFormatting::Yellow => "YELLOW"@,
        ChatFormatting::White => "WHITE"@,
        ChatFormatting::Obfuscated => "OBFUSCATED"@,
        ChatFormatting::Strikethrough => "STRIKETHROUGH"@,
        ChatFormatting::Bold => "BOLD"@,
        ChatFormatting::Underline => "UNDERLINE"@,
        ChatFormatting::Italic => "ITALIC"@,
        ChatFormatting::Reset => "RESET"@,
    }
}

/// The single-character legacy code of each formatting code.
pub open spec fn formatting_code(f: ChatFormatting) -> char {
    match f {
        ChatFormatting::Black => '0',
        ChatFormatting::DarkBlue => '1',
        ChatFormatting::DarkGreen => '2',
        ChatFormatting::DarkAqua => '3',
        ChatFormatting::DarkRed => '4',
        ChatFormatting::DarkPurple => '5',
        ChatFormatting::Gold => '6',
        ChatFormatting::Gray => '7',
        ChatFormatting::DarkGray => '8',
        ChatFormatting::Blue => '9',
        ChatFormatting::Green => 'a',
        ChatFormatting::Aqua => 'b',
        ChatFormatting::Red => 'c',
        ChatFormatting::LightPurple => 'd',
        ChatFormatting::Yellow => 'e',
        ChatFormatting::White => 'f',
        ChatFormatting::Obfuscated => 'k',
        ChatFormatting::Strikethrough => 'm',
        ChatFormatting::Bold => 'l',
        ChatFormatting::Underline => 'n',
        ChatFormatting::Italic => 'o',
        ChatFormatting::Reset => 'r',
    }
}

/// Whether a formatting code is a text format rather than a color.
pub open spec fn formatting_is_format(f: ChatFormatting) -> bool {
    match f {
        ChatFormatting::Obfuscated => true,
        ChatFormatting::Strikethrough => true,
        ChatFormatting::Bold => true,
        ChatFormatting::Underline => true,
        ChatFormatting::Italic => true,
        ChatFormatting::Reset => true,
        _ => false,
    }
}

/// The RGB value of a color code; formats and reset carry none.
pub open spec fn formatting_color(f: ChatFormatting) -> Option<u32> {
    match f {
        ChatFormatting::Black => Some(0u32),
        ChatFormatting::DarkBlue => Some(170u32),
        ChatFormatting::DarkGreen => Some(43520u32),
        ChatFormatting::DarkAqua => Some(43690u32),
        ChatFormatting::DarkRed => Some(1114112u32),
        ChatFormatting::DarkPurple => Some(11141290u32),
        ChatFormatting::Gold => Some(16755200u32),
        ChatFormatting::Gray => Some(11184810u32),
        ChatFormatting::DarkGray => Some(5592405u32),
        ChatFormatting::Blue => Some(5592575u32),
        ChatFormatting::Green => Some(5635925u32),
        ChatFormatting::Aqua => Some(5636095u32),
        ChatFormatting::Red => Some(16733525u32),
        ChatFormatting::LightPurple => Some(16733695u32),
        ChatFormatting::Yellow => Some(16777045u32),
        ChatFormatting::White => Some(16777215u32),
        _ => None,
    }
}

impl ChatFormatting {
    /// The canonical upper-case name.
    pub fn name(&self) -> (r: &'static str)
        ensures
            r@ == formatting_name(*self),
    {
        match self {
            ChatFormatting::Black => "BLACK",
            ChatFormatting::DarkBlue => "DARK_BLUE",
            ChatFormatting::DarkGreen => "DARK_GREEN",
            ChatFormatting::DarkAqua => "DARK_AQUA",
            ChatFormatting::DarkRed => "DARK_RED",
            ChatFormatting::DarkPurple => "DARK_PURPLE",
            ChatFormatting::Gold => "GOLD",
            ChatFormatting::Gray => "GRAY",
            ChatFormatting::DarkGray => "DARK_GRAY",
            ChatFormatting::Blue => "BLUE",
            ChatFormatting::Green => "GREEN",
            ChatFormatting::Aqua => "AQUA",
            ChatFormatting::Red => "RED",
            ChatFormatting::LightPurple => "LIGHT_PURPLE",
            ChatFormatting::Yellow => "YELLOW",
            ChatFormatting::White => "WHITE",
            ChatFormatting::Obfuscated => "OBFUSCATED",
            ChatFormatting::Strikethrough => "STRIKETHROUGH",
            ChatFormatting::Bold => "BOLD",
            ChatFormatting::Underline => "UNDERLINE",
            ChatFormatting::Italic => "ITALIC",
            ChatFormatting::Reset => "RESET",
        }
    }

    /// The single-character legacy code.
    pub fn code(&self) -> (r: char)
        ensures
            r == formatting_code(*self),
    {
        match self {
            ChatFormatting::Black => '0',
            ChatFormatting::DarkBlue => '1',
            ChatFormatting::DarkGreen => '2',
            ChatFormatting::DarkAqua => '3',
            ChatFormatting::DarkRed => '4',
            ChatFormatting::DarkPurple => '5',
            ChatFormatting::Gold => '6',
            ChatFormatting::Gray => '7',
            ChatFormatting::DarkGray => '8',
            ChatFormatting::Blue => '9',
            ChatFormatting::Green => 'a',
            ChatFormatting::Aqua => 'b',
            ChatFormatting::Red => 'c',
            ChatFormatting::LightPurple => 'd',
            ChatFormatting::Yellow => 'e',
            ChatFormatting::White => 'f',
            ChatFormatting::Obfuscated => 'k',
            ChatFormatting::Strikethrough => 'm',
            ChatFormatting::Bold => 'l',
            ChatFormatting::Underline => 'n',
            ChatFormatting::Italic => 'o',
            ChatFormatting::Reset => 'r',
        }
    }

    /// The formatting code a legacy character names, if any.
    pub fn from_code(code: char) -> (r: Option<ChatFormatting>)
        ensures
            match r {
                Some(f) => formatting_code(f) == code,
                None => forall|f: ChatFormatting| formatting_code(f) != code,
            },
    {
        match code {
            '0' => Some(ChatFormatting::Black),
            '1' => Some(ChatFormatting::DarkBlue),
            '2' => Some(ChatFormatting::DarkGreen),
            '3' => Some(ChatFormatting::DarkAqua),
            '4' => Some(ChatFormatting::DarkRed),
            '5' => Some(ChatFormatting::DarkPurple),
            '6' => Some(ChatFormatting::Gold),
            '7' => Some(ChatFormatting::Gray),
            '8' => Some(ChatFormatting::DarkGray),
            '9' => Some(ChatFormatting::Blue),
            'a' => Some(ChatFormatting::Green),
            'b' => Some(ChatFormatting::Aqua),
            'c' => Some(ChatFormatting::Red),
            'd' => Some(ChatFormatting::LightPurple),
            'e' => Some(ChatFormatting::Yellow),
            'f' => Some(ChatFormatting::White),
            'k' => Some(ChatFormatting::Obfuscated),
            'm' => Some(ChatFormatting::Strikethrough),
            'l' => Some(ChatFormatting::Bold),
            'n' => Some(ChatFormatting::Underline),
            'o' => Some(ChatFormatting::Italic),
            'r' => Some(ChatFormatting::Reset),
            _ => None,
        }
    }

    /// Whether this code is a text format rather than a color.
    pub fn is_format(&self) -> (r: bool)
        ensures
            r == formatting_is_format(*self),
    {
        match self {
            ChatFormatting::Obfuscated => true,
            ChatFormatting::Strikethrough => true,
            ChatFormatting::Bold => true,
            ChatFormatting::Underline => true,
            ChatFormatting::Italic => true,
            ChatFormatting::Reset => true,
            _ => false,
        }
    }

    /// The RGB value of a color code.
    pub fn color(&self) -> (r: Option<u32>)
        ensures
            r == formatting_color(*self),
    {
        match self {
            ChatFormatting::Black => Some(0),
            ChatFormatting::DarkBlue => Some(170),
            ChatFormatting::DarkGreen => Some(43520),
            ChatFormatting::DarkAqua => Some(43690),
            ChatFormatting::DarkRed => Some(1114112),
            ChatFormatting::DarkPurple => Some(11141290),
            ChatFormatting::Gold => Some(16755200),
            ChatFormatting::Gray => Some(11184810),
            ChatFormatting::DarkGray => Some(5592405),
            ChatFormatting::Blue => Some(5592575),
            ChatFormatting::Green => Some(5635925),
            ChatFormatting::Aqua => Some(5636095),
            ChatFormatting::Red => Some(16733525),
            ChatFormatting::LightPurple => Some(16733695),
            ChatFormatting::Yellow => Some(16777045),
            ChatFormatting::White => Some(16777215),
            _ => None,
        }
    }
}

/// An RGB text color, optionally carrying the canonical name it came from.
#[derive(PartialEq, Eq, Debug, Hash)]
pub struct TextColor {
    pub value: u32,
    pub name: Option<String>,
}

/// The color name a string picks out, compared without ASCII case: one of
/// the sixteen color codes' canonical names.
pub open spec fn named_color_of(s: Seq<char>) -> Option<ChatFormatting> {
    if lower_chars(s) == lower_chars("BLACK"@) { Some(ChatFormatting::Black) }
    else if lower_chars(s) == lower_chars("DARK_BLUE"@) { Some(ChatFormatting::DarkBlue) }
    else if lower_chars(s) == lower_chars("DARK_GREEN"@) { Some(ChatFormatting::DarkGreen) }
    else if lower_chars(s) == lower_chars("DARK_AQUA"@) { Some(ChatFormatting::DarkAqua) }
    else if lower_chars(s) == lower_chars("DARK_RED"@) { Some(ChatFormatting::DarkRed) }
    else if lower_chars(s) == lower_chars("DARK_PURPLE"@) { Some(ChatFormatting::DarkPurple) }
    else if lower_chars(s) == lower_chars("GOLD"@) { Some(ChatFormatting::Gold) }
    else if lower_chars(s) == lower_chars("GRAY"@) { Some(ChatFormatting::Gray) }
    else if lower_chars(s) == lower_chars("DARK_GRAY"@) { Some(ChatFormatting::DarkGray) }
    else if lower_chars(s) == lower_chars("BLUE"@) { Some(ChatFormatting::Blue) }
    else if lower_chars(s) == lower_chars("GREEN"@) { Some(ChatFormatting::Green) }
    else if lower_chars(s) == lower_chars("AQUA"@) { Some(ChatFormatting::Aqua) }
    else if lower_chars(s) == lower_chars("RED"@) { Some(ChatFormatting::Red) }
    else if lower_chars(s) == lower_chars("LIGHT_PURPLE"@) { Some(ChatFormatting::LightPurple) }
    else if lower_chars(s) == lower_chars("YELLOW"@) { Some(ChatFormatting::Yellow) }
    else if lower_chars(s) == lower_chars("WHITE"@) { Some(ChatFormatting::White) }
    else { None }
}

impl TextColor {
    /// Parse a color string: `#` followed by hexadecimal digits is a raw
    /// RGB value; otherwise one of the sixteen color names, without case.
    pub fn parse(value: String) -> (r: Option<TextColor>)
        ensures
            ({
                let s = value@;
                if s.len() > 0 && s[0] == '#' {
                    match hex_u32_value(s.skip(1)) {
                        Some(v) => r matches Some(tc) && tc.value == v && tc.name is None,
                        None => r is None,
                    }
                } else {
                    match named_color_of(s) {
                        Some(f) => r matches Some(tc)
                            && Some(tc.value) == formatting_color(f)
                            && (tc.name matches Some(nm) && nm@ == formatting_name(f)),
                        None => r is None,
                    }
                }
            }),
    {
        let s = value.as_str();
        if s.unicode_len() > 0 && s.get_char(0) == '#' {
            let rest = s.substring_char(1, s.unicode_len());
            match parse_hex_u32(rest) {
                Some(v) => Some(TextColor::from_rgb(v)),
                None => None,
            }
        } else {
            match Self::lookup_named(s) {
                Some(f) => {
                    let color = match f.color() {
                        Some(c) => c,
                        None => 0,  // unreachable: only color codes are named
                    };
                    Some(TextColor { value: color, name: Some(String::from_str(f.name())) })
                },
                None => None,
            }
        }
    }

    /// Find the color code a name picks out, without ASCII case.
    fn lookup_named(s: &str) -> (r: Option<ChatFormatting>)
        ensures
            r == named_color_of(s@),
    {
        if eq_ignore_ascii_case(s, "BLACK") { Some(ChatFormatting::Black) }
        else if eq_ignore_ascii_case(s, "DARK_BLUE") { Some(ChatFormatting::DarkBlue) }
        else if eq_ignore_ascii_case(s, "DARK_GREEN") { Some(ChatFormatting::DarkGreen) }
        else if eq_ignore_ascii_case(s, "DARK_AQUA") { Some(ChatFormatting::DarkAqua) }
        else if eq_ignore_ascii_case(s, "DARK_RED") { Some(ChatFormatting::DarkRed) }
        else if eq_ignore_ascii_case(s, "DARK_PURPLE") { Some(ChatFormatting::DarkPurple) }
        else if eq_ignore_ascii_case(s, "GOLD") { Some(ChatFormatting::Gold) }
        else if eq_ignore_ascii_case(s, "GRAY") { Some(ChatFormatting::Gray) }
        else if eq_ignore_ascii_case(s, "DARK_GRAY") { Some(ChatFormatting::DarkGray) }
        else if eq_ignore_ascii_case(s, "BLUE") { Some(ChatFormatting::Blue) }
        else if eq_ignore_ascii_case(s, "GREEN") { Some(ChatFormatting::Green) }
        else if eq_ignore_ascii_case(s, "AQUA") { Some(ChatFormatting::Aqua) }
        else if eq_ignore_ascii_case(s, "RED") { Some(ChatFormatting::Red) }
        else if eq_ignore_ascii_case(s, "LIGHT_PURPLE") { Some(ChatFormatting::LightPurple) }
        else if eq_ignore_ascii_case(s, "YELLOW") { Some(ChatFormatting::Yellow) }
        else if eq_ignore_ascii_case(s, "WHITE") { Some(ChatFormatting::White) }
        else { None }
    }

    /// A color from a raw RGB value, without a name.
    pub fn from_rgb(value: u32) -> (r: TextColor)
        ensures
            r.value == value,
            r.name is None,
    {
        TextColor { value, name: None }
    }

    /// A color from a value and an optional name.
    fn new(value: u32, name: Option<String>) -> (r: Self)
        ensures
            r.value == value,
            r.name == name,
    {
        Self { value, name }
    }

    /// The serialized form: the lower-cased name where one is kept, else
    /// the `#`-prefixed hexadecimal value.
    pub fn serialize(&self) -> (r: String)
        ensures
            match self.name {
                Some(nm) => r@ == lower_chars(nm@),
                None => r@ == seq!['#'] + hex_chars_upper(self.value as nat, 6),
            },
    {
        match &self.name {
            Some(name) => to_ascii_lower(name.as_str()),
            None => self.format_value(),
        }
    }

    /// The `#`-prefixed, zero-padded, upper-case hexadecimal value.
    pub fn format_value(&self) -> (r: String)
        ensures
            r@ == seq!['#'] + hex_chars_upper(self.value as nat, 6),
    {
        let mut out = String::new();
        string_push_char(&mut out, '#');
        push_hex_u32_upper(&mut out, self.value, 6);
        proof {
            assert(out@ =~= seq!['#'] + hex_chars_upper(self.value as nat, 6));
        }
        out
    }

    /// The color a formatting code names; text formats are not colors and
    /// are rejected with the code's name.
    pub fn try_from(formatter: ChatFormatting) -> (r: Result<Self, String>)
        ensures
            match r {
                Ok(tc) => {
                    &&& !formatting_is_format(formatter)
                    &&& Some(tc.value) == formatting_color(formatter)
                    &&& tc.name matches Some(nm) && nm@ == formatting_name(formatter)
                },
                Err(_) => formatting_is_format(formatter),
            },
    {
        if formatter.is_format() {
            return Err(String::from_str(formatter.name()));
        }
        let color = match formatter.color() {
            Some(c) => c,
            None => 0,  // unreachable: every non-format code carries a color
        };
        Ok(Self::new(color, Some(String::from_str(formatter.name()))))
    }
}

/// Terminal escape sequences for the text formats.
pub struct Ansi {}

/// The escape sequence that selects an arbitrary RGB foreground color.
pub open spec fn ansi_rgb_chars(value: u32) -> Seq<char> {
    "\u{1b}[38;2;"@ + dec_chars(((value / 0x1_0000) % 0x100) as nat) + ";"@ + dec_chars(
        ((value / 0x100) % 0x100) as nat,
    ) + ";"@ + dec_chars((value % 0x100) as nat) + "m"@
}

impl Ansi {
    pub const BOLD: &'static str = "\u{1b}[1m";

    pub const ITALIC: &'static str = "\u{1b}[3m";

    pub const UNDERLINED: &'static str = "\u{1b}[4m";

    pub const STRIKETHROUGH: &'static str = "\u{1b}[9m";

    pub const OBFUSCATED: &'static str = "\u{1b}[8m";

    pub const RESET: &'static str = "\u{1b}[m";

    /// The escape sequence selecting the given RGB foreground color.
    pub fn rgb(value: u32) -> (r: String)
        ensures
            r@ == ansi_rgb_chars(value),
    {
        let mut out = String::from_str("\u{1b}[38;2;");
        push_dec_u32(&mut out, (value / 0x1_0000) % 0x100);
        out.append(";");
        push_dec_u32(&mut out, (value / 0x100) % 0x100);
        out.append(";");
        push_dec_u32(&mut out, value % 0x100);
        out.append("m");
        proof {
            assert(out@ =~= ansi_rgb_chars(value));
        }
        out
    }
}

impl Clone for TextColor {
    fn clone(&self) -> (r: Self)
        ensures
            r == *self,
    {
        TextColor {
            value: self.value,
            name: match &self.name {
                Some(s) => Some(s.clone()),
                None => None,
            },
        }
    }
}

/// The style a piece of text carries. Each field distinguishes "unset"
/// from an explicit false, and `reset` asks for formatting to be cleared
/// before these attributes apply.
#[derive(Debug, PartialEq, Eq, Hash)]
pub struct Style {
    pub color: Option<TextColor>,
    pub bold: Option<bool>,
    pub italic: Option<bool>,
    pub underlined: Option<bool>,
    pub strikethrough: Option<bool>,
    pub obfuscated: Option<bool>,
    /// Whether formatting should be reset before applying these styles.
    pub reset: bool,
}

/// An optional boolean, or a default where unset.
pub open spec fn opt_or(o: Option<bool>, d: bool) -> bool {
    match o {
        Some(b) => b,
        None => d,
    }
}

/// The style with every attribute unset.
pub open spec fn empty_style() -> Style {
    Style {
        color: None,
        bold: None,
        italic: None,
        underlined: None,
        strikethrough: None,
        obfuscated: None,
        reset: false,
    }
}

/// `base` with every attribute that `other` sets replaced by `other`'s;
/// the reset flag is `base`'s own.
pub open spec fn apply_chain(base: Style, other: Style) -> Style {
    Style {
        color: if other.color is Some { other.color } else { base.color },
        bold: if other.bold is Some { other.bold } else { base.bold },
        italic: if other.italic is Some { other.italic } else { base.italic },
        underlined: if other.underlined is Some { other.underlined } else { base.underlined },
        strikethrough: if other.strikethrough is Some {
            other.strikethrough
        } else {
            base.strikethrough
        },
        obfuscated: if other.obfuscated is Some { other.obfuscated } else { base.obfuscated },
        reset: base.reset,
    }
}

/// `s` extended by `piece` when `cond` holds, else unchanged.
pub open spec fn cat_if(s: Seq<char>, cond: bool, piece: Seq<char>) -> Seq<char> {
    if cond {
        s + piece
    } else {
        s
    }
}

/// Whether moving from `before` to `after` changes the color in a way the
/// terminal must be told about.
pub open spec fn color_changed(before: Style, after: Style) -> bool {
    match (before.color, after.color) {
        (None, Some(_)) => true,
        (Some(x), Some(y)) => x.value != y.value,
        _ => false,
    }
}

/// The attribute escape codes that move a terminal from `before` to
/// `after`, in the fixed order bold, italic, underlined, strikethrough,
/// obfuscated, color.
pub open spec fn codes_chars(start: Seq<char>, before: Style, after: Style) -> Seq<char> {
    let s1 = cat_if(start, !opt_or(before.bold, false) && opt_or(after.bold, false), "\u{1b}[1m"@);
    let s2 = cat_if(s1, !opt_or(before.italic, false) && opt_or(after.italic, false), "\u{1b}[3m"@);
    let s3 = cat_if(
        s2,
        !opt_or(before.underlined, false) && opt_or(after.underlined, false),
        "\u{1b}[4m"@,
    );
    let s4 = cat_if(
        s3,
        !opt_or(before.strikethrough, false) && opt_or(after.strikethrough, false),
        "\u{1b}[9m"@,
    );
    let s5 = cat_if(
        s4,
        !opt_or(before.obfuscated, false) && opt_or(after.obfuscated, false),
        "\u{1b}[8m"@,
    );
    if color_changed(before, after) {
        s5 + ansi_rgb_chars(
            match after.color {
                Some(c) => c.value,
                None => 0,
            },
        )
    } else {
        s5
    }
}

/// Whether moving from `before` to `after` needs a full reset first: an
/// explicit reset, or any attribute that was on and is no longer asserted.
pub open spec fn should_reset(before: Style, after: Style) -> bool {
    ||| after.reset
    ||| (opt_or(before.bold, false) && !opt_or(after.bold, true))
    ||| (opt_or(before.italic, false) && !opt_or(after.italic, true))
    ||| (opt_or(before.underlined, false) && !opt_or(after.underlined, true))
    ||| (opt_or(before.strikethrough, false) && !opt_or(after.strikethrough, true))
    ||| (opt_or(before.obfuscated, false) && !opt_or(after.obfuscated, true))
}

/// The whole escape string that moves a terminal from `before` to
/// `after`: either the incremental codes, or a reset followed by the codes
/// for the style that results from applying `after` to its base.
pub open spec fn compare_ansi_chars(before: Style, after: Style, default_style: Style) -> Seq<
    char,
> {
    if should_reset(before, after) {
        let base = if after.reset {
            default_style
        } else {
            before
        };
        codes_chars("\u{1b}[m"@, empty_style(), apply_chain(base, after))
    } else {
        codes_chars(Seq::empty(), before, after)
    }
}

impl Clone for Style {
    fn clone(&self) -> (r: Self)
        ensures
            r == *self,
    {
        Style {
            color: match &self.color {
                Some(c) => Some(c.clone()),
                None => None,
            },
            bold: self.bold,
            italic: self.italic,
            underlined: self.underlined,
            strikethrough: self.strikethrough,
            obfuscated: self.obfuscated,
            reset: self.reset,
        }
    }
}

impl Default for Style {
    fn default() -> (r: Self)
        ensures
            r == empty_style(),
    {
        Style {
            color: None,
            bold: None,
            italic: None,
            underlined: None,
            strikethrough: None,
            obfuscated: None,
            reset: false,
        }
    }
}

impl Style {
    /// The style with every attribute unset.
    pub fn empty() -> (r: Self)
        ensures
            r == empty_style(),
    {
        Self::default()
    }

    /// Whether no attribute is set.
    pub fn is_empty(&self) -> (r: bool)
        ensures
            r == (self.color is None && self.bold is None && self.italic is None
                && self.underlined is None && self.strikethrough is None
                && self.obfuscated is None),
    {
        self.color.is_none() && self.bold.is_none() && self.italic.is_none()
            && self.underlined.is_none() && self.strikethrough.is_none()
            && self.obfuscated.is_none()
    }

    /// The escape string that takes a terminal showing this style to
    /// `after`, resetting first where an attribute must be turned off.
    pub fn compare_ansi(&self, after: &Style, default_style: &Style) -> (r: String)
        ensures
            r@ == compare_ansi_chars(*self, *after, *default_style),
    {
        let reset_needed = after.reset || (opt_bool(&self.bold, false) && !opt_bool(
            &after.bold,
            true,
        )) || (opt_bool(&self.italic, false) && !opt_bool(&after.italic, true)) || (opt_bool(
            &self.underlined,
            false,
        ) && !opt_bool(&after.underlined, true)) || (opt_bool(&self.strikethrough, false)
            && !opt_bool(&after.strikethrough, true)) || (opt_bool(&self.obfuscated, false)
            && !opt_bool(&after.obfuscated, true));
        let mut out = String::new();
        if reset_needed {
            out.append(Ansi::RESET);
            proof {
                assert(out@ =~= "\u{1b}[m"@);
            }
            let base: &Style = if after.reset {
                default_style
            } else {
                self
            };
            let updated = base.merged_applied(after);
            proof {
                assert(updated == apply_chain(*base, *after));
            }
            Self::push_codes(&mut out, &Style::empty(), &updated);
            proof {
                assert(out@ == codes_chars("\u{1b}[m"@, empty_style(), apply_chain(
                    if after.reset { *default_style } else { *self },
                    *after,
                )));
            }
        } else {
            proof {
                assert(out@ =~= Seq::<char>::empty());
            }
            Self::push_codes(&mut out, self, after);
        }
        out
    }

    /// `self` with `other`'s set attributes applied over it, the reset
    /// flag kept from `self`.
    fn merged_applied(&self, other: &Style) -> (r: Style)
        ensures
            r == apply_chain(*self, *other),
    {
        let mut r = self.clone();
        r.apply(other);
        r
    }

    /// Append the attribute codes that take `before` to `after`.
    fn push_codes(out: &mut String, before: &Style, after: &Style)
        ensures
            final(out)@ == codes_chars(old(out)@, *before, *after),
    {
        let ghost start = out@;
        if !opt_bool(&before.bold, false) && opt_bool(&after.bold, false) {
            out.append(Ansi::BOLD);
        }
        let ghost s1 = cat_if(
            start,
            !opt_or(before.bold, false) && opt_or(after.bold, false),
            "\u{1b}[1m"@,
        );
        proof {
            assert(out@ == s1);
        }
        if !opt_bool(&before.italic, false) && opt_bool(&after.italic, false) {
            out.append(Ansi::ITALIC);
        }
        let ghost s2 = cat_if(
            s1,
            !opt_or(before.italic, false) && opt_or(after.italic, false),
            "\u{1b}[3m"@,
        );
        proof {
            assert(out@ == s2);
        }
        if !opt_bool(&before.underlined, false) && opt_bool(&after.underlined, false) {
            out.append(Ansi::UNDERLINED);
        }
        let ghost s3 = cat_if(
            s2,
            !opt_or(before.underlined, false) && opt_or(after.underlined, false),
            "\u{1b}[4m"@,
        );
        proof {
            assert(out@ == s3);
        }
        if !opt_bool(&before.strikethrough, false) && opt_bool(&after.strikethrough, false) {
            out.append(Ansi::STRIKETHROUGH);
        }
        let ghost s4 = cat_if(
            s3,
            !opt_or(before.strikethrough, false) && opt_or(after.strikethrough, false),
            "\u{1b}[9m"@,
        );
        proof {
            assert(out@ == s4);
        }
        if !opt_bool(&before.obfuscated, false) && opt_bool(&after.obfuscated, false) {
            out.append(Ansi::OBFUSCATED);
        }
        let ghost s5 = cat_if(
            s4,
            !opt_or(before.obfuscated, false) && opt_or(after.obfuscated, false),
            "\u{1b}[8m"@,
        );
        proof {
            assert(out@ == s5);
        }
        let changed = match (&before.color, &after.color) {
            (None, Some(_)) => true,
            (Some(x), Some(y)) => x.value != y.value,
            _ => false,
        };
        if changed {
            let v = match &after.color {
                Some(c) => c.value,
                None => 0,  // unreachable: a change requires a new color
            };
            let rgb = Ansi::rgb(v);
            out.append(rgb.as_str());
        }
    }

    /// Overwrite every attribute that `style` sets; the reset flag stays.
    pub fn apply(&mut self, style: &Style)
        ensures
            *final(self) == apply_chain(*old(self), *style),
    {
        if let Some(color) = &style.color {
            self.color = Some(color.clone());
        }
        if let Some(bold) = &style.bold {
            self.bold = Some(*bold);
        }
        if let Some(italic) = &style.italic {
            self.italic = Some(*italic);
        }
        if let Some(underlined) = &style.underlined {
            self.underlined = Some(*underlined);
        }
        if let Some(strikethrough) = &style.strikethrough {
            self.strikethrough = Some(*strikethrough);
        }
        if let Some(obfuscated) = &style.obfuscated {
            self.obfuscated = Some(*obfuscated);
        }
    }

    /// A new style with `other`'s set attributes over `self`'s, taking
    /// `other`'s reset flag.
    pub fn merged_with(&self, other: &Style) -> (r: Style)
        ensures
            r.color == (if other.color is Some { other.color } else { self.color }),
            r.bold == (if other.bold is Some { other.bold } else { self.bold }),
            r.italic == (if other.italic is Some { other.italic } else { self.italic }),
            r.underlined == (if other.underlined is Some {
                other.underlined
            } else {
                self.underlined
            }),
            r.strikethrough == (if other.strikethrough is Some {
                other.strikethrough
            } else {
                self.strikethrough
            }),
            r.obfuscated == (if other.obfuscated is Some {
                other.obfuscated
            } else {
                self.obfuscated
            }),
            r.reset == other.reset,
    {
        Style {
            color: match &other.color {
                Some(c) => Some(c.clone()),
                None => match &self.color {
                    Some(c) => Some(c.clone()),
                    None => None,
                },
            },
            bold: if other.bold.is_some() { other.bold } else { self.bold },
            italic: if other.italic.is_some() { other.italic } else { self.italic },
            underlined: if other.underlined.is_some() { other.underlined } else { self.underlined },
            strikethrough: if other.strikethrough.is_some() {
                other.strikethrough
            } else {
                self.strikethrough
            },
            obfuscated: if other.obfuscated.is_some() { other.obfuscated } else { self.obfuscated },
            reset: other.reset,
        }
    }

    /// Apply one formatting code: a format sets its attribute, reset sets
    /// the reset flag, and a color code sets the color.
    pub fn apply_formatting(&mut self, formatting: &ChatFormatting)
        ensures
            *final(self) == (match *formatting {
                ChatFormatting::Bold => Style { bold: Some(true), ..*old(self) },
                ChatFormatting::Italic => Style { italic: Some(true), ..*old(self) },
                ChatFormatting::Underline => Style { underlined: Some(true), ..*old(self) },
                ChatFormatting::Strikethrough => Style { strikethrough: Some(true), ..*old(self) },
                ChatFormatting::Obfuscated => Style { obfuscated: Some(true), ..*old(self) },
                ChatFormatting::Reset => Style { reset: true, ..*old(self) },
                f => (match formatting_color(f) {
                    Some(v) => Style {
                        color: Some(TextColor { value: v, name: None }),
                        ..*old(self)
                    },
                    None => *old(self),
                }),
            }),
    {
        match *formatting {
            ChatFormatting::Bold => {
                self.bold = Some(true);
            },
            ChatFormatting::Italic => {
                self.italic = Some(true);
            },
            ChatFormatting::Underline => {
                self.underlined = Some(true);
            },
            ChatFormatting::Strikethrough => {
                self.strikethrough = Some(true);
            },
            ChatFormatting::Obfuscated => {
                self.obfuscated = Some(true);
            },
            ChatFormatting::Reset => {
                self.reset = true;
            },
            formatter => {
                if let Some(color) = formatter.color() {
                    self.color = Some(TextColor::from_rgb(color));
                }
            },
        }
    }

    /// The inline CSS that renders this style in a web page.
    pub fn get_html_style(&self) -> (r: String)
        ensures
            r@ == html_style_chars(*self),
    {
        let mut out = String::new();
        proof {
            assert(out@ =~= Seq::<char>::empty());
        }
        if let Some(color) = &self.color {
            out.append("color:");
            let v = color.format_value();
            out.append(v.as_str());
            out.append(";");
        }
        let ghost s1 = (match &self.color {
            Some(c) => "color:"@ + (seq!['#'] + hex_chars_upper(c.value as nat, 6)) + ";"@,
            None => Seq::<char>::empty(),
        });
        proof {
            assert(out@ == Seq::<char>::empty() + s1 || out@ == s1 || (self.color is None && out@
                == Seq::<char>::empty()));
            assert(out@ =~= s1);
        }
        if let Some(bold) = self.bold {
            if bold {
                out.append("font-weight:bold;");
            } else {
                out.append("font-weight:normal;");
            }
        }
        let ghost s2 = s1 + (match self.bold {
            Some(b) => (if b { "font-weight:bold;"@ } else { "font-weight:normal;"@ }),
            None => Seq::<char>::empty(),
        });
        proof {
            assert(out@ =~= s2);
        }
        if let Some(italic) = self.italic {
            if italic {
                out.append("font-style:italic;");
            } else {
                out.append("font-style:normal;");
            }
        }
        let ghost s3 = s2 + (match self.italic {
            Some(b) => (if b { "font-style:italic;"@ } else { "font-style:normal;"@ }),
            None => Seq::<char>::empty(),
        });
        proof {
            assert(out@ =~= s3);
        }
        if let Some(underlined) = self.underlined {
            if underlined {
                out.append("text-decoration:underline;");
            } else {
                out.append("text-decoration:none;");
            }
        }
        let ghost s4 = s3 + (match self.underlined {
            Some(b) => (if b { "text-decoration:underline;"@ } else { "text-decoration:none;"@ }),
            None => Seq::<char>::empty(),
        });
        proof {
            assert(out@ =~= s4);
        }
        if let Some(strikethrough) = self.strikethrough {
            if strikethrough {
                out.append("text-decoration:line-through;");
            } else {
                out.append("text-decoration:none;");
            }
        }
        let ghost s5 = s4 + (match self.strikethrough {
            Some(b) => (if b {
                "text-decoration:line-through;"@
            } else {
                "text-decoration:none;"@
            }),
            None => Seq::<char>::empty(),
        });
        proof {
            assert(out@ =~= s5);
        }
        if let Some(obfuscated) = self.obfuscated {
            if obfuscated {
                out.append("filter:blur(2px);");
            }
        }
        proof {
            assert(out@ =~= html_style_chars(*self));
        }
        out
    }
}

/// The inline CSS for a style: each set attribute contributes one
/// property, in a fixed order.
pub open spec fn html_style_chars(style: Style) -> Seq<char> {
    let s1 = (match style.color {
        Some(c) => "color:"@ + (seq!['#'] + hex_chars_upper(c.value as nat, 6)) + ";"@,
        None => Seq::<char>::empty(),
    });
    let s2 = s1 + (match style.bold {
        Some(b) => (if b { "font-weight:bold;"@ } else { "font-weight:normal;"@ }),
        None => Seq::<char>::empty(),
    });
    let s3 = s2 + (match style.italic {
        Some(b) => (if b { "font-style:italic;"@ } else { "font-style:normal;"@ }),
        None => Seq::<char>::empty(),
    });
    let s4 = s3 + (match style.underlined {
        Some(b) => (if b { "text-decoration:underline;"@ } else { "text-decoration:none;"@ }),
        None => Seq::<char>::empty(),
    });
    let s5 = s4 + (match style.strikethrough {
        Some(b) => (if b { "text-decoration:line-through;"@ } else { "text-decoration:none;"@ }),
        None => Seq::<char>::empty(),
    });
    s5 + (match style.obfuscated {
        Some(b) => (if b { "filter:blur(2px);"@ } else { Seq::<char>::empty() }),
        None => Seq::<char>::empty(),
    })
}

/// An optional boolean's value, or a default where unset.
fn opt_bool(o: &Option<bool>, d: bool) -> (r: bool)
    ensures
        r == opt_or(*o, d),
{
    match o {
        Some(b) => *b,
        None => d,
    }
}

} // verus!
