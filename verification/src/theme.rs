//! Colours, the built-in themes and the files that change them.

use crate::outline::{self, read_texts};
use crate::screen::Paint;
use crate::text::{chars_of, same_text};
use vstd::prelude::*;

verus! {

/// A colour by its red, green and blue parts.
#[derive(Debug, Clone, Copy, PartialEq, Eq, Structural)]
pub struct Color {
    pub r: u8,
    pub g: u8,
    pub b: u8,
}

/// The colours of the interface.
#[derive(Debug, Clone, Copy, PartialEq, Eq, Structural)]
pub struct Theme {
    pub fg: Color,
    pub fg_dim: Color,
    pub fg_bright: Color,
    pub accent: Color,
    pub error: Color,
    pub bg_sel: Color,
}

/// The built-in themes, in the order one key cycles through them.
pub const PRESETS: [&'static str; 6] = ["tokyonight", "gruvbox", "nord", "dracula", "dawn", "paper"];

/// Their colours: the red, green and blue part of each, in the order of the
/// fields of a theme.
pub const PALETTES: [[u8; 18]; 6] = [
    [169, 177, 214, 86, 95, 137, 192, 202, 245, 122, 162, 247, 247, 118, 142, 41, 46, 66],
    [213, 196, 161, 146, 131, 116, 251, 241, 199, 250, 189, 47, 251, 73, 52, 60, 56, 54],
    [216, 222, 233, 97, 110, 136, 236, 239, 244, 136, 192, 208, 191, 97, 106, 59, 66, 82],
    [221, 221, 215, 98, 114, 164, 248, 248, 242, 189, 147, 249, 255, 85, 85, 68, 71, 90],
    [87, 82, 121, 152, 147, 165, 47, 42, 81, 40, 105, 131, 180, 99, 122, 223, 218, 217],
    [68, 68, 68, 135, 135, 135, 28, 28, 28, 0, 95, 135, 175, 0, 0, 220, 220, 220],
];

/// The built-in theme at this place.
pub open spec fn theme_at(i: int) -> Theme {
    let p = PALETTES@[i]@;
    Theme {
        fg: Color { r: p[0], g: p[1], b: p[2] },
        fg_dim: Color { r: p[3], g: p[4], b: p[5] },
        fg_bright: Color { r: p[6], g: p[7], b: p[8] },
        accent: Color { r: p[9], g: p[10], b: p[11] },
        error: Color { r: p[12], g: p[13], b: p[14] },
        bg_sel: Color { r: p[15], g: p[16], b: p[17] },
    }
}

fn build_theme(i: usize) -> (r: Theme)
    requires
        i < 6,
    ensures
        r == theme_at(i as int),
{
    let p = PALETTES[i];
    Theme {
        fg: Color { r: p[0], g: p[1], b: p[2] },
        fg_dim: Color { r: p[3], g: p[4], b: p[5] },
        fg_bright: Color { r: p[6], g: p[7], b: p[8] },
        accent: Color { r: p[9], g: p[10], b: p[11] },
        error: Color { r: p[12], g: p[13], b: p[14] },
        bg_sel: Color { r: p[15], g: p[16], b: p[17] },
    }
}

/// The first theme, from `i` on, that has this name.
pub open spec fn preset_at(name: Seq<char>, i: int) -> Option<int>
    decreases 6 - i,
{
    if 0 <= i < 6 {
        if PRESETS@[i]@ == name {
            Some(i)
        } else {
            preset_at(name, i + 1)
        }
    } else {
        None
    }
}

/// The built-in theme of this name.
pub open spec fn preset_named(name: Seq<char>) -> Option<Theme> {
    match preset_at(name, 0) {
        Some(i) => Some(theme_at(i)),
        None => None,
    }
}

/// The name after this one in the cycle. A theme of the user's own, where there is
/// one, comes after the last built-in one; a name outside the cycle starts it.
pub open spec fn next_name(name: Seq<char>, has_custom: bool) -> Seq<char> {
    match preset_at(name, 0) {
        Some(i) => if i < 5 {
            PRESETS@[i + 1]@
        } else if has_custom {
            "custom"@
        } else {
            PRESETS@[0]@
        },
        None => PRESETS@[0]@,
    }
}

/// The value of a hexadecimal digit.
pub open spec fn hex_digit(c: char) -> Option<int> {
    if '0' <= c <= '9' {
        Some(c as int - '0' as int)
    } else if 'a' <= c <= 'f' {
        Some(c as int - 'a' as int + 10)
    } else if 'A' <= c <= 'F' {
        Some(c as int - 'A' as int + 10)
    } else {
        None
    }
}

/// The value of two hexadecimal digits.
pub open spec fn hex_byte(hi: char, lo: char) -> Option<int> {
    match (hex_digit(hi), hex_digit(lo)) {
        (Some(h), Some(l)) => Some(h * 16 + l),
        _ => None,
    }
}

/// The colour that `#rrggbb` writes.
pub open spec fn colour_of(s: Seq<char>) -> Option<Color> {
    if s.len() == 7 && s[0] == '#' {
        match (hex_byte(s[1], s[2]), hex_byte(s[3], s[4]), hex_byte(s[5], s[6])) {
            (Some(r), Some(g), Some(b)) => Some(Color { r: r as u8, g: g as u8, b: b as u8 }),
            _ => None,
        }
    } else {
        None
    }
}

/// A theme with one of its colours changed; `None` where no colour has that name.
pub open spec fn recoloured(t: Theme, name: Seq<char>, c: Color) -> Option<Theme> {
    if name == "fg"@ {
        Some(Theme { fg: c, ..t })
    } else if name == "fg_dim"@ {
        Some(Theme { fg_dim: c, ..t })
    } else if name == "fg_bright"@ {
        Some(Theme { fg_bright: c, ..t })
    } else if name == "accent"@ {
        Some(Theme { accent: c, ..t })
    } else if name == "error"@ {
        Some(Theme { error: c, ..t })
    } else if name == "bg_sel"@ {
        Some(Theme { bg_sel: c, ..t })
    } else {
        None
    }
}

/// A table of colours applied in turn; the name of the theme it starts from is none.
pub open spec fn coloured(t: Theme, table: Seq<(Seq<char>, Seq<char>)>) -> Option<Theme>
    decreases table.len(),
{
    if table.len() == 0 {
        Some(t)
    } else if table.last().0 == "preset"@ {
        coloured(t, table.drop_last())
    } else {
        match (coloured(t, table.drop_last()), colour_of(table.last().1)) {
            (Some(before), Some(c)) => recoloured(before, table.last().0, c),
            _ => None,
        }
    }
}

/// The theme a table starts from: the last `preset` it names, or the default one.
/// `None` where it names one that there is not.
pub open spec fn base_of(table: Seq<(Seq<char>, Seq<char>)>) -> Option<Theme>
    decreases table.len(),
{
    if table.len() == 0 {
        Some(theme_at(0))
    } else if table.last().0 == "preset"@ {
        preset_named(table.last().1)
    } else {
        base_of(table.drop_last())
    }
}

/// The theme a table describes.
pub open spec fn themed(table: Seq<(Seq<char>, Seq<char>)>) -> Option<Theme> {
    match base_of(table) {
        Some(t) => coloured(t, table),
        None => None,
    }
}

fn digit_of(c: char) -> (r: Option<u8>)
    ensures
        match hex_digit(c) {
            Some(d) => r == Some(d as u8) && 0 <= d < 16,
            None => r is None,
        },
{
    if '0' <= c && c <= '9' {
        Some((c as u32 - '0' as u32) as u8)
    } else if 'a' <= c && c <= 'f' {
        Some((c as u32 - 'a' as u32 + 10) as u8)
    } else if 'A' <= c && c <= 'F' {
        Some((c as u32 - 'A' as u32 + 10) as u8)
    } else {
        None
    }
}

fn byte_of(hi: char, lo: char) -> (r: Option<u8>)
    ensures
        match hex_byte(hi, lo) {
            Some(n) => r == Some(n as u8) && 0 <= n < 256,
            None => r is None,
        },
{
    match digit_of(hi) {
        Some(h) => match digit_of(lo) {
            Some(l) => Some(h * 16 + l),
            None => None,
        },
        None => None,
    }
}

/// The colour that `#rrggbb` writes.
pub fn parse_hex(s: &str) -> (r: Option<Color>)
    ensures
        r == colour_of(s@),
{
    let v = chars_of(s);
    if v.len() != 7 || v[0] != '#' {
        return None;
    }
    match byte_of(v[1], v[2]) {
        Some(r) => match byte_of(v[3], v[4]) {
            Some(g) => match byte_of(v[5], v[6]) {
                Some(b) => Some(Color { r, g, b }),
                None => None,
            },
            None => None,
        },
        None => None,
    }
}

fn preset_index(name: &str) -> (r: Option<usize>)
    ensures
        match preset_at(name@, 0) {
            Some(i) => r == Some(i as usize) && 0 <= i < 6,
            None => r is None,
        },
{
    let mut i: usize = 0;
    while i < 6
        invariant
            i <= 6,
            preset_at(name@, 0) == preset_at(name@, i as int),
        decreases 6 - i,
    {
        if same_text(PRESETS[i], name) {
            return Some(i);
        }
        i += 1;
    }
    None
}

impl Default for Theme {
    fn default() -> (r: Theme)
        ensures
            r == theme_at(0),
    {
        build_theme(0)
    }
}

/// The theme that a file describes, or why it describes none.
pub open spec fn theme_parsed(s: Seq<char>) -> Result<Theme, Seq<char>> {
    match outline::texts_parsed(s) {
        Ok(table) => match themed(table) {
            Some(t) => Ok(t),
            None => Err("not a colour of a theme"@),
        },
        Err(why) => Err(why),
    }
}

impl Theme {
    /// The built-in theme of this name.
    pub fn preset(name: &str) -> (r: Option<Theme>)
        ensures
            r == preset_named(name@),
    {
        match preset_index(name) {
            Some(i) => Some(build_theme(i)),
            None => None,
        }
    }

    /// The name after this one in the cycle.
    pub fn next_preset_with_custom(name: &str, has_custom: bool) -> (r: &'static str)
        ensures
            r@ == next_name(name@, has_custom),
    {
        match preset_index(name) {
            Some(i) => {
                if i < 5 {
                    PRESETS[i + 1]
                } else if has_custom {
                    "custom"
                } else {
                    PRESETS[0]
                }
            },
            None => PRESETS[0],
        }
    }

    /// The theme a table describes: a built-in one with the colours of the table in
    /// place of its own. `None` where a theme or a colour has no such name, or a
    /// colour is not written `#rrggbb`.
    pub fn from_table(table: &Vec<(String, String)>) -> (r: Option<Theme>)
        ensures
            r == themed(table.deep_view()),
    {
        match Theme::base(table) {
            Some(t) => Theme::colour(t, table),
            None => None,
        }
    }

    fn base(table: &Vec<(String, String)>) -> (r: Option<Theme>)
        ensures
            r == base_of(table.deep_view()),
    {
        let ghost all = table.deep_view();
        let mut i: usize = table.len();
        assert(all.take(i as int) =~= all);
        while i > 0
            invariant
                i <= table@.len(),
                all == table.deep_view(),
                base_of(all) == base_of(all.take(i as int)),
            decreases i,
        {
            i -= 1;
            assert(all.take(i + 1).drop_last() =~= all.take(i as int));
            assert(all.take(i + 1).last() == (table@[i as int].0@, table@[i as int].1@));
            if same_text(table[i].0.as_str(), "preset") {
                return Theme::preset(table[i].1.as_str());
            }
        }
        Some(Theme::default())
    }

    fn colour(start: Theme, table: &Vec<(String, String)>) -> (r: Option<Theme>)
        ensures
            r == coloured(start, table.deep_view()),
    {
        let mut t = start;
        let mut i: usize = 0;
        while i < table.len()
            invariant
                i <= table@.len(),
                coloured(start, table.deep_view().take(i as int)) == Some(t),
            decreases table@.len() - i,
        {
            let ghost upto = table.deep_view().take(i + 1);
            assert(upto.drop_last() =~= table.deep_view().take(i as int));
            assert(upto.last() == (table@[i as int].0@, table@[i as int].1@));
            let name = table[i].0.as_str();
            if same_text(name, "preset") {
                i += 1;
                continue;
            }
            let c = match parse_hex(table[i].1.as_str()) {
                Some(c) => c,
                None => {
                    proof {
                        lemma_no_theme(start, table.deep_view(), i + 1);
                    }
                    return None;
                },
            };
            if same_text(name, "fg") {
                t = Theme { fg: c, ..t };
            } else if same_text(name, "fg_dim") {
                t = Theme { fg_dim: c, ..t };
            } else if same_text(name, "fg_bright") {
                t = Theme { fg_bright: c, ..t };
            } else if same_text(name, "accent") {
                t = Theme { accent: c, ..t };
            } else if same_text(name, "error") {
                t = Theme { error: c, ..t };
            } else if same_text(name, "bg_sel") {
                t = Theme { bg_sel: c, ..t };
            } else {
                proof {
                    lemma_no_theme(start, table.deep_view(), i + 1);
                }
                return None;
            }
            i += 1;
        }
        assert(table.deep_view().take(i as int) =~= table.deep_view());
        Some(t)
    }

    /// The theme a file describes.
    pub fn from_toml_str(s: &str) -> (r: Result<Theme, String>)
        ensures
            match theme_parsed(s@) {
                Ok(t) => r == Ok::<Theme, String>(t),
                Err(why) => r matches Err(e) && e@ == why,
            },
    {
        match read_texts(s) {
            Ok(table) => match Theme::from_table(&table) {
                Some(t) => Ok(t),
                None => Err("not a colour of a theme".to_owned()),
            },
            Err(e) => Err(e),
        }
    }

    /// The colour that stands for a purpose.
    pub open spec fn painted(self, p: Paint) -> Color {
        match p {
            Paint::Fg => self.fg,
            Paint::FgDim => self.fg_dim,
            Paint::FgBright => self.fg_bright,
            Paint::Accent => self.accent,
            Paint::Error => self.error,
        }
    }

    pub fn paint(&self, p: Paint) -> (r: Color)
        ensures
            r == self.painted(p),
    {
        match p {
            Paint::Fg => self.fg,
            Paint::FgDim => self.fg_dim,
            Paint::FgBright => self.fg_bright,
            Paint::Accent => self.accent,
            Paint::Error => self.error,
        }
    }
}

/// A table whose beginning is not a theme is not a theme.
proof fn lemma_no_theme(t: Theme, table: Seq<(Seq<char>, Seq<char>)>, n: int)
    requires
        0 <= n <= table.len(),
        coloured(t, table.take(n)) is None,
    ensures
        coloured(t, table) is None,
    decreases table.len() - n,
{
    if n < table.len() {
        assert(table.take(n + 1).drop_last() =~= table.take(n));
        lemma_no_theme(t, table, n + 1);
    } else {
        assert(table.take(n) =~= table);
    }
}

/// Cycling from any theme comes back to it: the built-in ones follow each other in
/// a ring, which the user's own theme joins where there is one.
pub proof fn the_cycle_is_a_ring(has_custom: bool)
    ensures
        next_name(PRESETS@[0]@, has_custom) == PRESETS@[1]@,
        next_name(PRESETS@[1]@, has_custom) == PRESETS@[2]@,
        next_name(PRESETS@[2]@, has_custom) == PRESETS@[3]@,
        next_name(PRESETS@[3]@, has_custom) == PRESETS@[4]@,
        next_name(PRESETS@[4]@, has_custom) == PRESETS@[5]@,
        next_name(PRESETS@[5]@, has_custom) == if has_custom {
            "custom"@
        } else {
            PRESETS@[0]@
        },
        next_name("custom"@, has_custom) == PRESETS@[0]@,
{
    reveal_strlit("tokyonight");
    reveal_strlit("gruvbox");
    reveal_strlit("nord");
    reveal_strlit("dracula");
    reveal_strlit("dawn");
    reveal_strlit("paper");
    reveal_strlit("custom");
    assert("tokyonight"@.len() == 10);
    assert("gruvbox"@[0] == 'g');
    assert("dracula"@[0] == 'd');
    assert("nord"@[0] == 'n');
    assert("dawn"@[0] == 'd');
    assert("paper"@[0] == 'p');
    assert("custom"@[0] == 'c');
    reveal_with_fuel(preset_at, 8);
}

} // verus!
