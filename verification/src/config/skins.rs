use vstd::prelude::*;

use crate::config::key_names::lower_text;
use crate::game::codec::hex_value;
use crate::game::text::{
    chars_text, decimal, push_chars, push_decimal, push_str, same_chars, split_at_char,
    split_chars, str_chars, trim_chars, trimmed,
};

verus! {

/// What can go wrong while reading skin palettes.
#[derive(Debug)]
pub enum ConfigError {
    /// Reading a file failed; the text is the system's report.
    Io(String),
    /// The palette directory does not exist.
    InvalidDirectory(String),
    /// A palette file is malformed (line 0: the fault is in a whole section).
    Parse { path: String, line: usize, message: String },
}

impl ConfigError {
    /// The message shown for the error.
    pub fn message(&self) -> (r: String)
        ensures
            match self {
                ConfigError::Io(e) => r@ == "io error: "@ + e@,
                ConfigError::InvalidDirectory(p) => r@ == "skin palette directory not found: "@
                    + p@,
                ConfigError::Parse { path, line, message } => r@ == path@ + ":"@ + decimal(
                    *line as nat,
                ) + ": "@ + message@,
            },
    {
        let mut r = String::new();
        match self {
            ConfigError::Io(e) => {
                push_str(&mut r, "io error: ");
                push_str(&mut r, e.as_str());
            },
            ConfigError::InvalidDirectory(p) => {
                push_str(&mut r, "skin palette directory not found: ");
                push_str(&mut r, p.as_str());
            },
            ConfigError::Parse { path, line, message } => {
                push_str(&mut r, path.as_str());
                push_str(&mut r, ":");
                push_decimal(&mut r, *line);
                push_str(&mut r, ": ");
                push_str(&mut r, message.as_str());
            },
        }
        r
    }
}

/// How blocks are drawn.
#[derive(Debug, Clone, Copy, PartialEq, Eq, Structural)]
pub enum BlockStyle {
    Flat,
    Inset,
}

impl BlockStyle {
    /// The style a `STYLE` value names: `0` flat, `1` inset.
    pub open spec fn spec_from_ini_value(value: Seq<char>) -> Option<BlockStyle> {
        let t = trimmed(value);
        if t == seq!['0'] {
            Some(BlockStyle::Flat)
        } else if t == seq!['1'] {
            Some(BlockStyle::Inset)
        } else {
            None
        }
    }

    fn from_ini_value(value: &Vec<char>) -> (r: Option<BlockStyle>)
        ensures
            r == BlockStyle::spec_from_ini_value(value@),
    {
        let t = trim_chars(value, 0, value.len());
        proof {
            assert(value@.subrange(0, value@.len() as int) =~= value@);
        }
        if t.len() == 1 && t[0] == '0' {
            assert(t@ =~= seq!['0']);
            Some(BlockStyle::Flat)
        } else if t.len() == 1 && t[0] == '1' {
            assert(t@ =~= seq!['1']);
            Some(BlockStyle::Inset)
        } else {
            None
        }
    }
}

/// The colours of one skin, each as red, green, blue and alpha.
#[derive(Debug, Clone, PartialEq, Eq)]
pub struct SkinPalette {
    pub name: String,
    pub empty: [u8; 4],
    pub i: [u8; 4],
    pub j: [u8; 4],
    pub s: [u8; 4],
    pub o: [u8; 4],
    pub z: [u8; 4],
    pub l: [u8; 4],
    pub t: [u8; 4],
    pub gray: [u8; 4],
    pub field: [u8; 4],
    pub background: [u8; 4],
    pub box_color: [u8; 4],
    pub text: [u8; 4],
    pub style: BlockStyle,
}

/// A palette as values: its name, its colours in the order of
/// `color_key`, and its style.
pub type PaletteValue = (Seq<char>, Seq<Seq<u8>>, BlockStyle);

/// The value of a palette.
pub open spec fn palette_value(p: SkinPalette) -> PaletteValue {
    (
        p.name@,
        seq![
            p.empty@,
            p.i@,
            p.j@,
            p.s@,
            p.o@,
            p.z@,
            p.l@,
            p.t@,
            p.gray@,
            p.field@,
            p.background@,
            p.box_color@,
            p.text@,
        ],
        p.style,
    )
}

/// Whether two names are equal up to ASCII case.
pub open spec fn same_name(a: Seq<char>, b: Seq<char>) -> bool {
    lower_text(a) == lower_text(b)
}

/// Whether two characters are equal up to ASCII case.
fn same_letter(a: char, b: char) -> (r: bool)
    ensures
        r == (crate::config::key_names::lower_ascii(a) == crate::config::key_names::lower_ascii(
            b,
        )),
{
    let la = if 'A' <= a && a <= 'Z' {
        ((a as u32) + 32) as u8 as char
    } else {
        a
    };
    let lb = if 'A' <= b && b <= 'Z' {
        ((b as u32) + 32) as u8 as char
    } else {
        b
    };
    la == lb
}

/// Whether two texts are equal up to ASCII case.
pub fn names_match(a: &str, b: &str) -> (r: bool)
    ensures
        r == same_name(a@, b@),
{
    let x = str_chars(a);
    let y = str_chars(b);
    if x.len() != y.len() {
        assert(lower_text(x@).len() != lower_text(y@).len());
        return false;
    }
    let mut i: usize = 0;
    while i < x.len()
        invariant
            x@ == a@,
            y@ == b@,
            x@.len() == y@.len(),
            i <= x@.len(),
            forall|k: int| 0 <= k < i ==> lower_text(x@)[k] == lower_text(y@)[k],
        decreases x@.len() - i,
    {
        if !same_letter(x[i], y[i]) {
            assert(lower_text(x@)[i as int] != lower_text(y@)[i as int]);
            return false;
        }
        i += 1;
    }
    assert(lower_text(x@) =~= lower_text(y@));
    true
}

impl SkinPalette {
    /// Whether the palette has the given name, ignoring ASCII case.
    pub fn matches_name(&self, name: &str) -> (r: bool)
        ensures
            r == same_name(self.name@, name@),
    {
        names_match(self.name.as_str(), name)
    }
}

/// The index of the first palette with the given name, ignoring ASCII case.
pub open spec fn first_named(palettes: Seq<SkinPalette>, name: Seq<char>, k: int) -> Option<int>
    decreases palettes.len() - k,
{
    if k < 0 || k >= palettes.len() {
        None
    } else if same_name(palettes[k].name@, name) {
        Some(k)
    } else {
        first_named(palettes, name, k + 1)
    }
}

/// The first palette with the given name, ignoring ASCII case.
pub fn find_skin_palette<'a>(palettes: &'a [SkinPalette], name: &str) -> (r: Option<&'a SkinPalette>)
    ensures
        match first_named(palettes@, name@, 0) {
            Some(k) => r == Some(&palettes@[k]),
            None => r is None,
        },
{
    let mut i: usize = 0;
    while i < palettes.len()
        invariant
            i <= palettes@.len(),
            first_named(palettes@, name@, 0) == first_named(palettes@, name@, i as int),
        decreases palettes@.len() - i,
    {
        if palettes[i].matches_name(name) {
            return Some(&palettes[i]);
        }
        i += 1;
    }
    None
}

/// The colour keys of a palette section, in the order of `palette_value`.
pub open spec fn color_key(k: int) -> Seq<char> {
    if k == 0 {
        "E"@
    } else if k == 1 {
        "I"@
    } else if k == 2 {
        "J"@
    } else if k == 3 {
        "S"@
    } else if k == 4 {
        "O"@
    } else if k == 5 {
        "Z"@
    } else if k == 6 {
        "L"@
    } else if k == 7 {
        "T"@
    } else if k == 8 {
        "G"@
    } else if k == 9 {
        "F"@
    } else if k == 10 {
        "BKG"@
    } else if k == 11 {
        "BOX"@
    } else {
        "TXT"@
    }
}

/// The colour a palette has where its section does not set `color_key(k)`.
pub open spec fn default_color(k: int) -> Seq<u8> {
    if k == 0 {
        seq![0x00u8, 0x00, 0x00, 0xFF]
    } else if k == 1 {
        seq![0x00u8, 0xD0, 0xFF, 0xFF]
    } else if k == 2 {
        seq![0x40u8, 0x80, 0xFF, 0xFF]
    } else if k == 3 {
        seq![0x40u8, 0xD0, 0x40, 0xFF]
    } else if k == 4 {
        seq![0xFFu8, 0xE0, 0x20, 0xFF]
    } else if k == 5 {
        seq![0xFFu8, 0x40, 0x20, 0xFF]
    } else if k == 6 {
        seq![0xFFu8, 0x80, 0x20, 0xFF]
    } else if k == 7 {
        seq![0xA0u8, 0x40, 0xF0, 0xFF]
    } else if k == 8 {
        seq![0xCCu8, 0xCC, 0xCC, 0xFF]
    } else if k == 9 {
        seq![0x2Fu8, 0x31, 0x36, 0xFF]
    } else if k == 10 {
        seq![0x2Fu8, 0x31, 0x36, 0xFF]
    } else if k == 11 {
        seq![0x00u8, 0x00, 0x00, 0xFF]
    } else {
        seq![0xFFu8, 0xFF, 0xFF, 0xFF]
    }
}

/// The number of colours a palette has.
pub const PALETTE_COLORS: usize = 13;

fn color_key_chars(k: usize) -> (r: Vec<char>)
    ensures
        r@ == color_key(k as int),
{
    let text = if k == 0 {
        "E"
    } else if k == 1 {
        "I"
    } else if k == 2 {
        "J"
    } else if k == 3 {
        "S"
    } else if k == 4 {
        "O"
    } else if k == 5 {
        "Z"
    } else if k == 6 {
        "L"
    } else if k == 7 {
        "T"
    } else if k == 8 {
        "G"
    } else if k == 9 {
        "F"
    } else if k == 10 {
        "BKG"
    } else if k == 11 {
        "BOX"
    } else {
        "TXT"
    };
    str_chars(text)
}

fn default_color_of(k: usize) -> (r: [u8; 4])
    ensures
        r@ == default_color(k as int),
{
    let r: [u8; 4] = if k == 0 {
        [0x00, 0x00, 0x00, 0xFF]
    } else if k == 1 {
        [0x00, 0xD0, 0xFF, 0xFF]
    } else if k == 2 {
        [0x40, 0x80, 0xFF, 0xFF]
    } else if k == 3 {
        [0x40, 0xD0, 0x40, 0xFF]
    } else if k == 4 {
        [0xFF, 0xE0, 0x20, 0xFF]
    } else if k == 5 {
        [0xFF, 0x40, 0x20, 0xFF]
    } else if k == 6 {
        [0xFF, 0x80, 0x20, 0xFF]
    } else if k == 7 {
        [0xA0, 0x40, 0xF0, 0xFF]
    } else if k == 8 {
        [0xCC, 0xCC, 0xCC, 0xFF]
    } else if k == 9 {
        [0x2F, 0x31, 0x36, 0xFF]
    } else if k == 10 {
        [0x2F, 0x31, 0x36, 0xFF]
    } else if k == 11 {
        [0x00, 0x00, 0x00, 0xFF]
    } else {
        [0xFF, 0xFF, 0xFF, 0xFF]
    };
    assert(r@ =~= default_color(k as int));
    r
}

/// The six hexadecimal digit values of a colour, or `None` where the text
/// is no colour. A leading `+` counts as a zero digit, as the standard
/// radix parser accepts it.
pub open spec fn color_digits_valid(hex: Seq<char>) -> bool {
    &&& hex.len() == 6
    &&& forall|k: int|
        0 <= k < 6 ==> (k == 0 && hex[0] == '+') || #[trigger] hex_value(hex[k]) is Some
}

/// The value of digit `k` of a valid colour text.
pub open spec fn color_digit(hex: Seq<char>, k: int) -> int {
    if k == 0 && hex[0] == '+' {
        0
    } else {
        hex_value(hex[k])->0
    }
}

/// The text of a colour value without its `0x` prefix.
pub open spec fn color_hex(value: Seq<char>) -> Seq<char> {
    if value.len() >= 2 && value[0] == '0' && value[1] == 'x' {
        value.subrange(2, value.len() as int)
    } else {
        value
    }
}

/// The colour a value such as `0x2F3136` gives, opaque.
pub open spec fn spec_parse_color(value: Seq<char>) -> Option<Seq<u8>> {
    let hex = color_hex(value);
    if color_digits_valid(hex) {
        Some(
            seq![
                (color_digit(hex, 0) * 16 + color_digit(hex, 1)) as u8,
                (color_digit(hex, 2) * 16 + color_digit(hex, 3)) as u8,
                (color_digit(hex, 4) * 16 + color_digit(hex, 5)) as u8,
                0xFFu8,
            ],
        )
    } else {
        None
    }
}

fn hex_digit(ch: char) -> (r: Option<u8>)
    ensures
        r is Some <==> hex_value(ch) is Some,
        r is Some ==> r->0 == hex_value(ch)->0,
{
    if '0' <= ch && ch <= '9' {
        Some((ch as u32 - '0' as u32) as u8)
    } else if 'a' <= ch && ch <= 'f' {
        Some((ch as u32 - 'a' as u32 + 10) as u8)
    } else if 'A' <= ch && ch <= 'F' {
        Some((ch as u32 - 'A' as u32 + 10) as u8)
    } else {
        None
    }
}

/// The colour a value such as `0x2F3136` gives, if it is one.
fn parse_ini_color(value: &Vec<char>) -> (r: Option<[u8; 4]>)
    ensures
        match spec_parse_color(value@) {
            Some(c) => r matches Some(a) && a@ == c,
            None => r is None,
        },
{
    let start: usize = if value.len() >= 2 && value[0] == '0' && value[1] == 'x' {
        2
    } else {
        0
    };
    let ghost hex = color_hex(value@);
    assert(hex =~= value@.subrange(start as int, value@.len() as int));
    if value.len() - start != 6 {
        return None;
    }
    let mut d: Vec<u8> = Vec::new();
    let mut k: usize = 0;
    while k < 6
        invariant
            hex =~= value@.subrange(start as int, value@.len() as int),
            hex.len() == 6,
            start + 6 == value@.len(),
            k <= 6,
            d@.len() == k,
            forall|m: int|
                0 <= m < k ==> ((m == 0 && hex[0] == '+') || #[trigger] hex_value(hex[m]) is Some),
            forall|m: int| 0 <= m < k ==> #[trigger] d@[m] == color_digit(hex, m),
        decreases 6 - k,
    {
        assert(start + k < value.len());
        let ch = value[start + k];
        assert(ch == hex[k as int]);
        if k == 0 && ch == '+' {
            d.push(0);
        } else {
            match hex_digit(ch) {
                Some(v) => d.push(v),
                None => {
                    assert(!color_digits_valid(hex));
                    return None;
                },
            }
        }
        k += 1;
    }
    assert(color_digits_valid(hex));
    let r: [u8; 4] = [d[0] * 16 + d[1], d[2] * 16 + d[3], d[4] * 16 + d[5], 0xFF];
    assert(r@ =~= spec_parse_color(value@)->0);
    Some(r)
}

/// An entry of a palette section as values: its key and its value.
pub open spec fn entries_value(entries: Seq<(Vec<char>, Vec<char>)>) -> Seq<(Seq<char>, Seq<char>)> {
    entries.map_values(|e: (Vec<char>, Vec<char>)| (e.0@, e.1@))
}

/// The value of the last entry with the given key.
pub open spec fn last_value(entries: Seq<(Seq<char>, Seq<char>)>, key: Seq<char>) -> Option<Seq<char>>
    decreases entries.len(),
{
    if entries.len() == 0 {
        None
    } else if entries.last().0 == key {
        Some(entries.last().1)
    } else {
        last_value(entries.drop_last(), key)
    }
}

/// The message for a `STYLE` value that names no style.
pub open spec fn style_message(name: Seq<char>, value: Seq<char>) -> Seq<char> {
    "["@ + name + "] invalid STYLE value: "@ + value
}

/// The message for a colour value that is no colour.
pub open spec fn color_message(name: Seq<char>, key: Seq<char>, value: Seq<char>) -> Seq<char> {
    "["@ + name + "] invalid "@ + key + " color: "@ + value
}

/// Colour `k` of a section: its last entry under `color_key(k)`, or the
/// default; the message where that entry is no colour.
pub open spec fn section_color(
    name: Seq<char>,
    entries: Seq<(Seq<char>, Seq<char>)>,
    k: int,
) -> Result<Seq<u8>, Seq<char>> {
    match last_value(entries, color_key(k)) {
        None => Ok(default_color(k)),
        Some(v) => match spec_parse_color(v) {
            Some(c) => Ok(c),
            None => Err(color_message(name, color_key(k), v)),
        },
    }
}

/// Colours `k..13` of a section, or the message for the first that fails.
pub open spec fn section_colors(
    name: Seq<char>,
    entries: Seq<(Seq<char>, Seq<char>)>,
    k: int,
) -> Result<Seq<Seq<u8>>, Seq<char>>
    decreases 13 - k,
{
    if k >= 13 || k < 0 {
        Ok(Seq::empty())
    } else {
        match section_color(name, entries, k) {
            Err(m) => Err(m),
            Ok(c) => match section_colors(name, entries, k + 1) {
                Err(m) => Err(m),
                Ok(rest) => Ok(seq![c] + rest),
            },
        }
    }
}

/// The style of a section: its last `STYLE` entry, inset where it has none.
pub open spec fn section_style(name: Seq<char>, entries: Seq<(Seq<char>, Seq<char>)>) -> Result<
    BlockStyle,
    Seq<char>,
> {
    match last_value(entries, "STYLE"@) {
        None => Ok(BlockStyle::Inset),
        Some(v) => match BlockStyle::spec_from_ini_value(v) {
            Some(s) => Ok(s),
            None => Err(style_message(name, v)),
        },
    }
}

/// The palette a section gives: the style is checked first, then the
/// colours in order.
pub open spec fn spec_build_palette(name: Seq<char>, entries: Seq<(Seq<char>, Seq<char>)>) -> Result<
    PaletteValue,
    Seq<char>,
> {
    match section_style(name, entries) {
        Err(m) => Err(m),
        Ok(style) => match section_colors(name, entries, 0) {
            Err(m) => Err(m),
            Ok(colors) => Ok((name, colors, style)),
        },
    }
}

fn last_entry(entries: &Vec<(Vec<char>, Vec<char>)>, key: &Vec<char>) -> (r: Option<usize>)
    ensures
        match last_value(entries_value(entries@), key@) {
            None => r is None,
            Some(v) => r matches Some(i) && i < entries@.len() && entries@[i as int].1@ == v,
        },
{
    let ghost all = entries_value(entries@);
    let mut i: usize = entries.len();
    assert(all.subrange(0, i as int) =~= all);
    while i > 0
        invariant
            all == entries_value(entries@),
            i <= entries@.len(),
            last_value(all, key@) == last_value(all.subrange(0, i as int), key@),
        decreases i,
    {
        let ghost pre = all.subrange(0, i as int);
        assert(pre.last() == (entries@[i - 1].0@, entries@[i - 1].1@));
        if same_chars(&entries[i - 1].0, key) {
            return Some(i - 1);
        }
        assert(pre.drop_last() =~= all.subrange(0, i - 1));
        i -= 1;
    }
    None
}

fn entry_color(name: &Vec<char>, entries: &Vec<(Vec<char>, Vec<char>)>, k: usize) -> (r: Result<
    [u8; 4],
    String,
>)
    requires
        k < 13,
    ensures
        match section_color(name@, entries_value(entries@), k as int) {
            Ok(c) => r matches Ok(a) && a@ == c,
            Err(m) => r matches Err(e) && e@ == m,
        },
{
    let key = color_key_chars(k);
    match last_entry(entries, &key) {
        None => Ok(default_color_of(k)),
        Some(i) => {
            let value = &entries[i].1;
            match parse_ini_color(value) {
                Some(c) => Ok(c),
                None => {
                    let mut m = String::new();
                    push_str(&mut m, "[");
                    push_chars(&mut m, name);
                    push_str(&mut m, "] invalid ");
                    push_chars(&mut m, &key);
                    push_str(&mut m, " color: ");
                    push_chars(&mut m, value);
                    Err(m)
                },
            }
        },
    }
}

/// Builds the palette of a section from its entries, or gives the message
/// of its first fault.
fn build_palette(name: &Vec<char>, entries: &Vec<(Vec<char>, Vec<char>)>) -> (r: Result<
    SkinPalette,
    String,
>)
    ensures
        match spec_build_palette(name@, entries_value(entries@)) {
            Ok(p) => r matches Ok(q) && palette_value(q) == p,
            Err(m) => r matches Err(e) && e@ == m,
        },
{
    let style_key = str_chars("STYLE");
    let style = match last_entry(entries, &style_key) {
        None => BlockStyle::Inset,
        Some(i) => {
            let value = &entries[i].1;
            match BlockStyle::from_ini_value(value) {
                Some(s) => s,
                None => {
                    let mut m = String::new();
                    push_str(&mut m, "[");
                    push_chars(&mut m, name);
                    push_str(&mut m, "] invalid STYLE value: ");
                    push_chars(&mut m, value);
                    return Err(m);
                },
            }
        },
    };
    let ghost ev = entries_value(entries@);
    let mut colors: Vec<[u8; 4]> = Vec::new();
    let mut k: usize = 0;
    while k < PALETTE_COLORS
        invariant
            ev == entries_value(entries@),
            k <= 13,
            colors@.len() == k,
            section_style(name@, ev) == Ok::<BlockStyle, Seq<char>>(style),
            section_colors(name@, ev, 0) == match section_colors(name@, ev, k as int) {
                Err(m) => Err(m),
                Ok(rest) => Ok(colors@.map_values(|a: [u8; 4]| a@) + rest),
            },
        decreases 13 - k,
    {
        match entry_color(name, entries, k) {
            Ok(c) => {
                proof {
                    let prev = colors@.map_values(|a: [u8; 4]| a@);
                    let next = colors@.push(c).map_values(|a: [u8; 4]| a@);
                    assert(next =~= prev + seq![c@]);
                    match section_colors(name@, ev, k + 1) {
                        Err(m) => {},
                        Ok(rest) => {
                            assert(prev + (seq![c@] + rest) =~= next + rest);
                        },
                    }
                }
                colors.push(c);
            },
            Err(m) => {
                return Err(m);
            },
        }
        k += 1;
    }
    let ghost cv = colors@.map_values(|a: [u8; 4]| a@);
    assert(cv + Seq::<Seq<u8>>::empty() =~= cv);
    let p = SkinPalette {
        name: chars_text(name),
        empty: colors[0],
        i: colors[1],
        j: colors[2],
        s: colors[3],
        o: colors[4],
        z: colors[5],
        l: colors[6],
        t: colors[7],
        gray: colors[8],
        field: colors[9],
        background: colors[10],
        box_color: colors[11],
        text: colors[12],
        style,
    };
    assert(palette_value(p).1 =~= cv);
    Ok(p)
}

/// The palettes so far with the section being read closed; the message of
/// its fault where it has one.
pub open spec fn finish_section(
    cur: Option<Seq<char>>,
    entries: Seq<(Seq<char>, Seq<char>)>,
    done: Seq<PaletteValue>,
) -> Result<Seq<PaletteValue>, (int, Seq<char>)> {
    match cur {
        None => Ok(done),
        Some(n) => match spec_build_palette(n, entries) {
            Ok(p) => Ok(done.push(p)),
            Err(m) => Err((0, m)),
        },
    }
}

/// The first index from `k` on where `s` holds `c`.
pub open spec fn char_index(s: Seq<char>, c: char, k: int) -> Option<int>
    decreases s.len() - k,
{
    if k < 0 || k >= s.len() {
        None
    } else if s[k] == c {
        Some(k)
    } else {
        char_index(s, c, k + 1)
    }
}

/// The palettes of a palette file whose lines are `lines`, read from line
/// `i` on, given the section being read (`cur`, with its `entries` so far)
/// and the palettes finished before it; or the line number and message of
/// the first fault.
pub open spec fn scan_ini(
    lines: Seq<Seq<char>>,
    i: int,
    cur: Option<Seq<char>>,
    entries: Seq<(Seq<char>, Seq<char>)>,
    done: Seq<PaletteValue>,
) -> Result<Seq<PaletteValue>, (int, Seq<char>)>
    decreases lines.len() - i,
{
    if i < 0 || i >= lines.len() {
        finish_section(cur, entries, done)
    } else {
        let line = trimmed(lines[i]);
        if line.len() == 0 || line[0] == ';' || line[0] == '#' {
            scan_ini(lines, i + 1, cur, entries, done)
        } else if line[0] == '[' {
            if line.last() != ']' {
                Err((i + 1, "unterminated section header"@))
            } else {
                match finish_section(cur, entries, done) {
                    Err(e) => Err(e),
                    Ok(d) => {
                        let name = trimmed(line.subrange(1, line.len() - 1));
                        if name.len() == 0 {
                            Err((i + 1, "empty section name"@))
                        } else {
                            scan_ini(lines, i + 1, Some(name), Seq::empty(), d)
                        }
                    },
                }
            }
        } else {
            match char_index(line, '=', 0) {
                None => Err((i + 1, "expected key=value entry"@)),
                Some(p) => if cur is None {
                    Err((i + 1, "entry appears before any section header"@))
                } else {
                    scan_ini(
                        lines,
                        i + 1,
                        cur,
                        entries.push(
                            (
                                trimmed(line.subrange(0, p)),
                                trimmed(line.subrange(p + 1, line.len() as int)),
                            ),
                        ),
                        done,
                    )
                },
            }
        }
    }
}

/// The palettes a palette file's text describes, or the line number and
/// message of its first fault.
pub open spec fn spec_load_palettes(raw: Seq<char>) -> Result<Seq<PaletteValue>, (int, Seq<char>)> {
    scan_ini(split_at_char(raw, '\n'), 0, None, Seq::empty(), Seq::empty())
}

/// The palettes as values.
pub open spec fn palettes_value(v: Seq<SkinPalette>) -> Seq<PaletteValue> {
    v.map_values(|p: SkinPalette| palette_value(p))
}

/// The section being read as a value.
pub open spec fn section_name(cur: Option<Vec<char>>) -> Option<Seq<char>> {
    match cur {
        Some(n) => Some(n@),
        None => None,
    }
}

fn close_section(
    cur: &Option<Vec<char>>,
    entries: &Vec<(Vec<char>, Vec<char>)>,
    palettes: &mut Vec<SkinPalette>,
) -> (r: Result<(), String>)
    ensures
        match finish_section(section_name(*cur), entries_value(entries@), palettes_value(old(palettes)@)) {
            Ok(d) => r is Ok && palettes_value(final(palettes)@) == d,
            Err((_, m)) => r matches Err(e) && e@ == m,
        },
{
    match cur {
        None => Ok(()),
        Some(name) => match build_palette(name, entries) {
            Ok(p) => {
                palettes.push(p);
                assert(palettes_value(palettes@) =~= palettes_value(old(palettes)@).push(palette_value(p)));
                Ok(())
            },
            Err(m) => Err(m),
        },
    }
}

/// What `char_index` finds lies in `s` and holds `c`.
proof fn lemma_char_index(s: Seq<char>, c: char, k: int)
    ensures
        char_index(s, c, k) matches Some(p) ==> 0 <= k <= p < s.len() && s[p] == c,
    decreases s.len() - k,
{
    if 0 <= k < s.len() && s[k] != c {
        lemma_char_index(s, c, k + 1);
    }
}

fn find_char(s: &Vec<char>, c: char) -> (r: Option<usize>)
    ensures
        r matches Some(p) ==> p < s@.len(),
        match char_index(s@, c, 0) {
            Some(p) => r == Some(p as usize),
            None => r is None,
        },
{
    let mut k: usize = 0;
    while k < s.len()
        invariant
            k <= s@.len(),
            char_index(s@, c, 0) == char_index(s@, c, k as int),
        decreases s@.len() - k,
    {
        if s[k] == c {
            return Some(k);
        }
        k += 1;
    }
    None
}


fn parse_error(path: &str, line: usize, message: &str) -> (r: ConfigError)
    ensures
        r matches ConfigError::Parse { path: p, line: l, message: m } && p@ == path@ && l == line
            && m@ == message@,
{
    ConfigError::Parse { path: path.to_owned(), line, message: message.to_owned() }
}

/// Reads the palettes of a palette file's text. `path` names the file in
/// error reports.
#[verifier::rlimit(40)]
pub fn load_skin_palettes_from_text(path: &str, raw: &str) -> (r: Result<Vec<SkinPalette>, ConfigError>)
    ensures
        match spec_load_palettes(raw@) {
            Ok(ps) => r matches Ok(v) && palettes_value(v@) == ps,
            Err((line, m)) => r matches Err(ConfigError::Parse { path: p, line: l, message })
                && p@ == path@ && l == line && message@ == m,
        },
{
    let chars = str_chars(raw);
    let lines = split_chars(&chars, '\n');
    let ghost ls = split_at_char(raw@, '\n');
    assert(lines@.len() == ls.len());
    let mut palettes: Vec<SkinPalette> = Vec::new();
    let mut cur: Option<Vec<char>> = None;
    let mut entries: Vec<(Vec<char>, Vec<char>)> = Vec::new();
    assert(palettes_value(palettes@) =~= Seq::<PaletteValue>::empty());
    assert(entries_value(entries@) =~= Seq::<(Seq<char>, Seq<char>)>::empty());
    let mut i: usize = 0;
    while i < lines.len()
        invariant
            ls == split_at_char(raw@, '\n'),
            lines@.len() == ls.len(),
            forall|k: int| 0 <= k < lines@.len() ==> #[trigger] lines@[k]@ == ls[k],
            i <= lines@.len(),
            spec_load_palettes(raw@) == scan_ini(
                ls,
                i as int,
                section_name(cur),
                entries_value(entries@),
                palettes_value(palettes@),
            ),
        decreases lines@.len() - i,
    {
        let raw_line = &lines[i];
        let line = trim_chars(raw_line, 0, raw_line.len());
        proof {
            assert(raw_line@.subrange(0, raw_line@.len() as int) =~= raw_line@);
            assert(line@ == trimmed(ls[i as int]));
        }
        if line.len() == 0 || line[0] == ';' || line[0] == '#' {
            i += 1;
            continue;
        }
        if line[0] == '[' {
            if line[line.len() - 1] != ']' {
                return Err(parse_error(path, i + 1, "unterminated section header"));
            }
            match close_section(&cur, &entries, &mut palettes) {
                Ok(()) => {},
                Err(m) => {
                    return Err(ConfigError::Parse { path: path.to_owned(), line: 0, message: m });
                },
            }
            let name = trim_chars(&line, 1, line.len() - 1);
            if name.len() == 0 {
                return Err(parse_error(path, i + 1, "empty section name"));
            }
            cur = Some(name);
            entries = Vec::new();
            assert(entries_value(entries@) =~= Seq::<(Seq<char>, Seq<char>)>::empty());
            i += 1;
            continue;
        }
        match find_char(&line, '=') {
            None => {
                return Err(parse_error(path, i + 1, "expected key=value entry"));
            },
            Some(p) => {
                if cur.is_none() {
                    return Err(parse_error(path, i + 1, "entry appears before any section header"));
                }
                proof {
                    lemma_char_index(line@, '=', 0);
                }
                let key = trim_chars(&line, 0, p);
                let value = trim_chars(&line, p + 1, line.len());
                proof {
                    let before = entries_value(entries@);
                    assert(entries_value(entries@.push((key, value))) =~= before.push((key@, value@)));
                }
                entries.push((key, value));
            },
        }
        i += 1;
    }
    match close_section(&cur, &entries, &mut palettes) {
        Ok(()) => Ok(palettes),
        Err(m) => Err(ConfigError::Parse { path: path.to_owned(), line: 0, message: m }),
    }
}

/// The text of the palette file that ships with the game.
pub open spec fn builtin_colors() -> Seq<char> {
    "[DEFAULT]\nE=0x000000\nI=0x00D0FF\nJ=0x4080FF\nS=0x40D040\nO=0xFFE020\nZ=0xFF4020\nL=0xFF8020\nT=0xA040F0\nG=0xBBBBBB\nF=0x202020\nBKG=0x2F3136\nBOX=0x000000\nTXT=0xFFFFFF\nSTYLE=1\n\n[CHROMA]\nE=0x000000\nI=0x2DC1FF\nJ=0x2E55FF\nS=0x81FF06\nO=0xFFC12C\nZ=0xFF2D59\nL=0xFF802C\nT=0xFF22C3\nG=0xB2B2B2\nF=0x222222\nBKG=0x222222\nBOX=0x000000\nTXT=0xFFFFFF\nSTYLE=0\n"@
}

/// The text of the palette file that ships with the game.
pub fn builtin_colors_ini() -> (r: &'static str)
    ensures
        r@ == builtin_colors(),
{
    "[DEFAULT]\nE=0x000000\nI=0x00D0FF\nJ=0x4080FF\nS=0x40D040\nO=0xFFE020\nZ=0xFF4020\nL=0xFF8020\nT=0xA040F0\nG=0xBBBBBB\nF=0x202020\nBKG=0x2F3136\nBOX=0x000000\nTXT=0xFFFFFF\nSTYLE=1\n\n[CHROMA]\nE=0x000000\nI=0x2DC1FF\nJ=0x2E55FF\nS=0x81FF06\nO=0xFFC12C\nZ=0xFF2D59\nL=0xFF802C\nT=0xFF22C3\nG=0xB2B2B2\nF=0x222222\nBKG=0x222222\nBOX=0x000000\nTXT=0xFFFFFF\nSTYLE=0\n"
}

/// The palettes that ship with the game.
pub fn load_builtin_skin_palettes() -> (r: Result<Vec<SkinPalette>, ConfigError>)
    ensures
        match spec_load_palettes(builtin_colors()) {
            Ok(ps) => r matches Ok(v) && palettes_value(v@) == ps,
            Err((line, m)) => r matches Err(ConfigError::Parse { path: p, line: l, message })
                && p@ == "<embedded colors.ini>"@ && l == line && message@ == m,
        },
{
    load_skin_palettes_from_text("<embedded colors.ini>", builtin_colors_ini())
}

} // verus!
