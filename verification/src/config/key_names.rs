use vstd::prelude::*;

use crate::game::text::{is_white, str_chars, trim_chars, trimmed};

verus! {

/// The keys that can be bound to actions.
#[derive(Debug, Clone, Copy, PartialEq, Eq, Hash, Structural)]
pub enum KeyName {
    Escape,
    F1,
    F2,
    F3,
    F4,
    F5,
    F6,
    F7,
    R,
    Left,
    Right,
    Down,
    Up,
    Comma,
    Period,
    Slash,
    Space,
    Z,
    X,
    A,
    C,
    Y,
}

/// The ASCII lower-case form of a character.
pub open spec fn lower_ascii(ch: char) -> char {
    if 'A' <= ch <= 'Z' {
        ((ch as int) + 32) as char
    } else {
        ch
    }
}

/// Every character of `s` in ASCII lower case.
pub open spec fn lower_text(s: Seq<char>) -> Seq<char> {
    s.map_values(|c: char| lower_ascii(c))
}

/// Whether the characters are exactly those of `text`.
fn same_text(chars: &Vec<char>, text: &str) -> (r: bool)
    ensures
        r == (chars@ == text@),
{
    let other = str_chars(text);
    if chars.len() != other.len() {
        return false;
    }
    let mut i: usize = 0;
    while i < chars.len()
        invariant
            other@ == text@,
            chars@.len() == other@.len(),
            i <= chars@.len(),
            forall|k: int| 0 <= k < i ==> chars@[k] == other@[k],
        decreases chars@.len() - i,
    {
        if chars[i] != other[i] {
            return false;
        }
        i += 1;
    }
    assert(chars@ =~= other@);
    true
}

impl KeyName {
    /// Every key, in menu order.
    pub fn all() -> (r: Vec<KeyName>)
        ensures
            r@.len() == 22,
            forall|k: KeyName| r@.contains(k),
    {
        let r = vec![KeyName::Escape, KeyName::F1, KeyName::F2, KeyName::F3, KeyName::F4, KeyName::F5, KeyName::F6, KeyName::F7, KeyName::R, KeyName::Left, KeyName::Right, KeyName::Down, KeyName::Up, KeyName::Comma, KeyName::Period, KeyName::Slash, KeyName::Space, KeyName::Z, KeyName::X, KeyName::A, KeyName::C, KeyName::Y];
        proof {
            assert forall|k: KeyName| r@.contains(k) by {
                match k {
                    KeyName::Escape => assert(r@[0] == k),
                    KeyName::F1 => assert(r@[1] == k),
                    KeyName::F2 => assert(r@[2] == k),
                    KeyName::F3 => assert(r@[3] == k),
                    KeyName::F4 => assert(r@[4] == k),
                    KeyName::F5 => assert(r@[5] == k),
                    KeyName::F6 => assert(r@[6] == k),
                    KeyName::F7 => assert(r@[7] == k),
                    KeyName::R => assert(r@[8] == k),
                    KeyName::Left => assert(r@[9] == k),
                    KeyName::Right => assert(r@[10] == k),
                    KeyName::Down => assert(r@[11] == k),
                    KeyName::Up => assert(r@[12] == k),
                    KeyName::Comma => assert(r@[13] == k),
                    KeyName::Period => assert(r@[14] == k),
                    KeyName::Slash => assert(r@[15] == k),
                    KeyName::Space => assert(r@[16] == k),
                    KeyName::Z => assert(r@[17] == k),
                    KeyName::X => assert(r@[18] == k),
                    KeyName::A => assert(r@[19] == k),
                    KeyName::C => assert(r@[20] == k),
                    KeyName::Y => assert(r@[21] == k),
                }
            }
        }
        r
    }

    /// The name a key is saved under.
    pub open spec fn spec_serialized_name(self) -> Seq<char> {
        match self {
            KeyName::Escape => "escape"@,
            KeyName::F1 => "f1"@,
            KeyName::F2 => "f2"@,
            KeyName::F3 => "f3"@,
            KeyName::F4 => "f4"@,
            KeyName::F5 => "f5"@,
            KeyName::F6 => "f6"@,
            KeyName::F7 => "f7"@,
            KeyName::R => "r"@,
            KeyName::Left => "left"@,
            KeyName::Right => "right"@,
            KeyName::Down => "down"@,
            KeyName::Up => "up"@,
            KeyName::Comma => "comma"@,
            KeyName::Period => "period"@,
            KeyName::Slash => "slash"@,
            KeyName::Space => "space"@,
            KeyName::Z => "z"@,
            KeyName::X => "x"@,
            KeyName::A => "a"@,
            KeyName::C => "c"@,
            KeyName::Y => "y"@,
        }
    }

    /// The name a key is shown with.
    pub open spec fn spec_display_name(self) -> Seq<char> {
        match self {
            KeyName::Escape => "Esc"@,
            KeyName::F1 => "F1"@,
            KeyName::F2 => "F2"@,
            KeyName::F3 => "F3"@,
            KeyName::F4 => "F4"@,
            KeyName::F5 => "F5"@,
            KeyName::F6 => "F6"@,
            KeyName::F7 => "F7"@,
            KeyName::R => "R"@,
            KeyName::Left => "Left"@,
            KeyName::Right => "Right"@,
            KeyName::Down => "Down"@,
            KeyName::Up => "Up"@,
            KeyName::Comma => ","@,
            KeyName::Period => "."@,
            KeyName::Slash => "/"@,
            KeyName::Space => "Space"@,
            KeyName::Z => "Z"@,
            KeyName::X => "X"@,
            KeyName::A => "A"@,
            KeyName::C => "C"@,
            KeyName::Y => "Y"@,
        }
    }

    /// The name a key is saved under.
    pub fn serialized_name(self) -> (r: &'static str)
        ensures
            r@ == self.spec_serialized_name(),
    {
        match self {
            KeyName::Escape => "escape",
            KeyName::F1 => "f1",
            KeyName::F2 => "f2",
            KeyName::F3 => "f3",
            KeyName::F4 => "f4",
            KeyName::F5 => "f5",
            KeyName::F6 => "f6",
            KeyName::F7 => "f7",
            KeyName::R => "r",
            KeyName::Left => "left",
            KeyName::Right => "right",
            KeyName::Down => "down",
            KeyName::Up => "up",
            KeyName::Comma => "comma",
            KeyName::Period => "period",
            KeyName::Slash => "slash",
            KeyName::Space => "space",
            KeyName::Z => "z",
            KeyName::X => "x",
            KeyName::A => "a",
            KeyName::C => "c",
            KeyName::Y => "y",
        }
    }

    /// The name a key is shown with.
    pub fn display_name(self) -> (r: &'static str)
        ensures
            r@ == self.spec_display_name(),
    {
        match self {
            KeyName::Escape => "Esc",
            KeyName::F1 => "F1",
            KeyName::F2 => "F2",
            KeyName::F3 => "F3",
            KeyName::F4 => "F4",
            KeyName::F5 => "F5",
            KeyName::F6 => "F6",
            KeyName::F7 => "F7",
            KeyName::R => "R",
            KeyName::Left => "Left",
            KeyName::Right => "Right",
            KeyName::Down => "Down",
            KeyName::Up => "Up",
            KeyName::Comma => ",",
            KeyName::Period => ".",
            KeyName::Slash => "/",
            KeyName::Space => "Space",
            KeyName::Z => "Z",
            KeyName::X => "X",
            KeyName::A => "A",
            KeyName::C => "C",
            KeyName::Y => "Y",
        }
    }

    /// The key a saved name stands for: white space trimmed, case ignored,
    /// and the aliases `esc`, `arrow_left`/`arrowleft` (and the other arrows),
    /// `,`, `.` and `/` accepted.
    pub open spec fn spec_lookup(name: Seq<char>) -> Option<KeyName> {
        KeyName::lookup_normalized(lower_text(trimmed(name)))
    }

    /// The key a trimmed, lower-cased name stands for.
    pub open spec fn lookup_normalized(n: Seq<char>) -> Option<KeyName> {
        if n == "esc"@ || n == "escape"@ {
            Some(KeyName::Escape)
        } else if n == "f1"@ {
            Some(KeyName::F1)
        } else if n == "f2"@ {
            Some(KeyName::F2)
        } else if n == "f3"@ {
            Some(KeyName::F3)
        } else if n == "f4"@ {
            Some(KeyName::F4)
        } else if n == "f5"@ {
            Some(KeyName::F5)
        } else if n == "f6"@ {
            Some(KeyName::F6)
        } else if n == "f7"@ {
            Some(KeyName::F7)
        } else if n == "r"@ {
            Some(KeyName::R)
        } else if n == "left"@ || n == "arrow_left"@ || n == "arrowleft"@ {
            Some(KeyName::Left)
        } else if n == "right"@ || n == "arrow_right"@ || n == "arrowright"@ {
            Some(KeyName::Right)
        } else if n == "down"@ || n == "arrow_down"@ || n == "arrowdown"@ {
            Some(KeyName::Down)
        } else if n == "up"@ || n == "arrow_up"@ || n == "arrowup"@ {
            Some(KeyName::Up)
        } else if n == ","@ || n == "comma"@ {
            Some(KeyName::Comma)
        } else if n == "."@ || n == "period"@ {
            Some(KeyName::Period)
        } else if n == "/"@ || n == "slash"@ {
            Some(KeyName::Slash)
        } else if n == "space"@ {
            Some(KeyName::Space)
        } else if n == "z"@ {
            Some(KeyName::Z)
        } else if n == "x"@ {
            Some(KeyName::X)
        } else if n == "a"@ {
            Some(KeyName::A)
        } else if n == "c"@ {
            Some(KeyName::C)
        } else if n == "y"@ {
            Some(KeyName::Y)
        } else {
            None
        }
    }

    /// The key a saved name stands for, if any.
    pub fn lookup(name: &str) -> (r: Option<KeyName>)
        ensures
            r == KeyName::spec_lookup(name@),
    {
        let chars = str_chars(name);
        let t = trim_chars(&chars, 0, chars.len());
        proof {
            assert(chars@.subrange(0, chars@.len() as int) =~= chars@);
        }
        let mut n: Vec<char> = Vec::new();
        let mut i: usize = 0;
        while i < t.len()
            invariant
                i <= t@.len(),
                n@ == lower_text(t@.subrange(0, i as int)),
            decreases t@.len() - i,
        {
            let c = t[i];
            let l = if 'A' <= c && c <= 'Z' {
                ((c as u32) + 32) as u8 as char
            } else {
                c
            };
            n.push(l);
            i += 1;
            assert(n@ =~= lower_text(t@.subrange(0, i as int)));
        }
        assert(t@.subrange(0, t@.len() as int) =~= t@);
        if same_text(&n, "esc") || same_text(&n, "escape") {
            Some(KeyName::Escape)
        } else if same_text(&n, "f1") {
            Some(KeyName::F1)
        } else if same_text(&n, "f2") {
            Some(KeyName::F2)
        } else if same_text(&n, "f3") {
            Some(KeyName::F3)
        } else if same_text(&n, "f4") {
            Some(KeyName::F4)
        } else if same_text(&n, "f5") {
            Some(KeyName::F5)
        } else if same_text(&n, "f6") {
            Some(KeyName::F6)
        } else if same_text(&n, "f7") {
            Some(KeyName::F7)
        } else if same_text(&n, "r") {
            Some(KeyName::R)
        } else if same_text(&n, "left") || same_text(&n, "arrow_left") || same_text(&n, "arrowleft") {
            Some(KeyName::Left)
        } else if same_text(&n, "right") || same_text(&n, "arrow_right") || same_text(&n, "arrowright") {
            Some(KeyName::Right)
        } else if same_text(&n, "down") || same_text(&n, "arrow_down") || same_text(&n, "arrowdown") {
            Some(KeyName::Down)
        } else if same_text(&n, "up") || same_text(&n, "arrow_up") || same_text(&n, "arrowup") {
            Some(KeyName::Up)
        } else if same_text(&n, ",") || same_text(&n, "comma") {
            Some(KeyName::Comma)
        } else if same_text(&n, ".") || same_text(&n, "period") {
            Some(KeyName::Period)
        } else if same_text(&n, "/") || same_text(&n, "slash") {
            Some(KeyName::Slash)
        } else if same_text(&n, "space") {
            Some(KeyName::Space)
        } else if same_text(&n, "z") {
            Some(KeyName::Z)
        } else if same_text(&n, "x") {
            Some(KeyName::X)
        } else if same_text(&n, "a") {
            Some(KeyName::A)
        } else if same_text(&n, "c") {
            Some(KeyName::C)
        } else if same_text(&n, "y") {
            Some(KeyName::Y)
        } else {
            None
        }
    }
}

/// Reading back the name a key is saved under gives the key.
pub proof fn law_lookup_serialized_name(k: KeyName)
    ensures
        KeyName::spec_lookup(k.spec_serialized_name()) == Some(k),
{
    reveal_strlit(",");
    reveal_strlit(".");
    reveal_strlit("/");
    reveal_strlit("A");
    reveal_strlit("C");
    reveal_strlit("Down");
    reveal_strlit("Esc");
    reveal_strlit("F1");
    reveal_strlit("F2");
    reveal_strlit("F3");
    reveal_strlit("F4");
    reveal_strlit("F5");
    reveal_strlit("F6");
    reveal_strlit("F7");
    reveal_strlit("Left");
    reveal_strlit("R");
    reveal_strlit("Right");
    reveal_strlit("Space");
    reveal_strlit("Up");
    reveal_strlit("X");
    reveal_strlit("Y");
    reveal_strlit("Z");
    reveal_strlit("a");
    reveal_strlit("arrow_down");
    reveal_strlit("arrow_left");
    reveal_strlit("arrow_right");
    reveal_strlit("arrow_up");
    reveal_strlit("arrowdown");
    reveal_strlit("arrowleft");
    reveal_strlit("arrowright");
    reveal_strlit("arrowup");
    reveal_strlit("c");
    reveal_strlit("comma");
    reveal_strlit("down");
    reveal_strlit("esc");
    reveal_strlit("escape");
    reveal_strlit("f1");
    reveal_strlit("f2");
    reveal_strlit("f3");
    reveal_strlit("f4");
    reveal_strlit("f5");
    reveal_strlit("f6");
    reveal_strlit("f7");
    reveal_strlit("left");
    reveal_strlit("period");
    reveal_strlit("r");
    reveal_strlit("right");
    reveal_strlit("slash");
    reveal_strlit("space");
    reveal_strlit("up");
    reveal_strlit("x");
    reveal_strlit("y");
    reveal_strlit("z");
    let s = k.spec_serialized_name();
    assert(trimmed(s) == s) by {
        assert(s.len() > 0 && !is_white(s[0]) && !is_white(s.last()));
    }
    assert(lower_text(s) =~= s);
}

/// The punctuation keys are found by their symbols.
proof fn lemma_lookup_symbols()
    ensures
        KeyName::lookup_normalized(","@) == Some(KeyName::Comma),
        KeyName::lookup_normalized("."@) == Some(KeyName::Period),
        KeyName::lookup_normalized("/"@) == Some(KeyName::Slash),
{
    reveal_strlit(",");
    reveal_strlit(".");
    reveal_strlit("/");
    reveal_strlit("A");
    reveal_strlit("C");
    reveal_strlit("Down");
    reveal_strlit("Esc");
    reveal_strlit("F1");
    reveal_strlit("F2");
    reveal_strlit("F3");
    reveal_strlit("F4");
    reveal_strlit("F5");
    reveal_strlit("F6");
    reveal_strlit("F7");
    reveal_strlit("Left");
    reveal_strlit("R");
    reveal_strlit("Right");
    reveal_strlit("Space");
    reveal_strlit("Up");
    reveal_strlit("X");
    reveal_strlit("Y");
    reveal_strlit("Z");
    reveal_strlit("a");
    reveal_strlit("arrow_down");
    reveal_strlit("arrow_left");
    reveal_strlit("arrow_right");
    reveal_strlit("arrow_up");
    reveal_strlit("arrowdown");
    reveal_strlit("arrowleft");
    reveal_strlit("arrowright");
    reveal_strlit("arrowup");
    reveal_strlit("c");
    reveal_strlit("comma");
    reveal_strlit("down");
    reveal_strlit("esc");
    reveal_strlit("escape");
    reveal_strlit("f1");
    reveal_strlit("f2");
    reveal_strlit("f3");
    reveal_strlit("f4");
    reveal_strlit("f5");
    reveal_strlit("f6");
    reveal_strlit("f7");
    reveal_strlit("left");
    reveal_strlit("period");
    reveal_strlit("r");
    reveal_strlit("right");
    reveal_strlit("slash");
    reveal_strlit("space");
    reveal_strlit("up");
    reveal_strlit("x");
    reveal_strlit("y");
    reveal_strlit("z");
    assert(","@[0] != "r"@[0]);
    assert("."@[0] != "r"@[0]);
    assert("."@[0] != ","@[0]);
    assert("/"@[0] != "r"@[0]);
}

/// The short display name of Escape is found again by lookup.
proof fn lemma_lookup_short_escape()
    ensures
        KeyName::spec_lookup("Esc"@) == Some(KeyName::Escape),
{
    reveal_strlit("Esc");
    reveal_strlit("esc");
    let s = "Esc"@;
    assert(trimmed(s) == s) by {
        assert(s.len() > 0 && !is_white(s[0]) && !is_white(s.last()));
    }
    assert(lower_text(s) =~= "esc"@);
}

/// Reading back the name a key is shown with gives the key.
pub proof fn law_lookup_display_name(k: KeyName)
    ensures
        KeyName::spec_lookup(k.spec_display_name()) == Some(k),
{
    law_lookup_serialized_name(k);
    let s = k.spec_display_name();
    let t = k.spec_serialized_name();
    match k {
        KeyName::Escape => {
            lemma_lookup_short_escape();
        },
        KeyName::F1 => {
            reveal_strlit("F1");
            reveal_strlit("f1");
            assert(trimmed(s) == s) by {
                assert(s.len() > 0 && !is_white(s[0]) && !is_white(s.last()));
            }
            assert(trimmed(t) == t) by {
                assert(t.len() > 0 && !is_white(t[0]) && !is_white(t.last()));
            }
            assert(lower_text(s) =~= lower_text(t));
        },
        KeyName::F2 => {
            reveal_strlit("F2");
            reveal_strlit("f2");
            assert(trimmed(s) == s) by {
                assert(s.len() > 0 && !is_white(s[0]) && !is_white(s.last()));
            }
            assert(trimmed(t) == t) by {
                assert(t.len() > 0 && !is_white(t[0]) && !is_white(t.last()));
            }
            assert(lower_text(s) =~= lower_text(t));
        },
        KeyName::F3 => {
            reveal_strlit("F3");
            reveal_strlit("f3");
            assert(trimmed(s) == s) by {
                assert(s.len() > 0 && !is_white(s[0]) && !is_white(s.last()));
            }
            assert(trimmed(t) == t) by {
                assert(t.len() > 0 && !is_white(t[0]) && !is_white(t.last()));
            }
            assert(lower_text(s) =~= lower_text(t));
        },
        KeyName::F4 => {
            reveal_strlit("F4");
            reveal_strlit("f4");
            assert(trimmed(s) == s) by {
                assert(s.len() > 0 && !is_white(s[0]) && !is_white(s.last()));
            }
            assert(trimmed(t) == t) by {
                assert(t.len() > 0 && !is_white(t[0]) && !is_white(t.last()));
            }
            assert(lower_text(s) =~= lower_text(t));
        },
        KeyName::F5 => {
            reveal_strlit("F5");
            reveal_strlit("f5");
            assert(trimmed(s) == s) by {
                assert(s.len() > 0 && !is_white(s[0]) && !is_white(s.last()));
            }
            assert(trimmed(t) == t) by {
                assert(t.len() > 0 && !is_white(t[0]) && !is_white(t.last()));
            }
            assert(lower_text(s) =~= lower_text(t));
        },
        KeyName::F6 => {
            reveal_strlit("F6");
            reveal_strlit("f6");
            assert(trimmed(s) == s) by {
                assert(s.len() > 0 && !is_white(s[0]) && !is_white(s.last()));
            }
            assert(trimmed(t) == t) by {
                assert(t.len() > 0 && !is_white(t[0]) && !is_white(t.last()));
            }
            assert(lower_text(s) =~= lower_text(t));
        },
        KeyName::F7 => {
            reveal_strlit("F7");
            reveal_strlit("f7");
            assert(trimmed(s) == s) by {
                assert(s.len() > 0 && !is_white(s[0]) && !is_white(s.last()));
            }
            assert(trimmed(t) == t) by {
                assert(t.len() > 0 && !is_white(t[0]) && !is_white(t.last()));
            }
            assert(lower_text(s) =~= lower_text(t));
        },
        KeyName::R => {
            reveal_strlit("R");
            reveal_strlit("r");
            assert(trimmed(s) == s) by {
                assert(s.len() > 0 && !is_white(s[0]) && !is_white(s.last()));
            }
            assert(trimmed(t) == t) by {
                assert(t.len() > 0 && !is_white(t[0]) && !is_white(t.last()));
            }
            assert(lower_text(s) =~= lower_text(t));
        },
        KeyName::Left => {
            reveal_strlit("Left");
            reveal_strlit("left");
            assert(trimmed(s) == s) by {
                assert(s.len() > 0 && !is_white(s[0]) && !is_white(s.last()));
            }
            assert(trimmed(t) == t) by {
                assert(t.len() > 0 && !is_white(t[0]) && !is_white(t.last()));
            }
            assert(lower_text(s) =~= lower_text(t));
        },
        KeyName::Right => {
            reveal_strlit("Right");
            reveal_strlit("right");
            assert(trimmed(s) == s) by {
                assert(s.len() > 0 && !is_white(s[0]) && !is_white(s.last()));
            }
            assert(trimmed(t) == t) by {
                assert(t.len() > 0 && !is_white(t[0]) && !is_white(t.last()));
            }
            assert(lower_text(s) =~= lower_text(t));
        },
        KeyName::Down => {
            reveal_strlit("Down");
            reveal_strlit("down");
            assert(trimmed(s) == s) by {
                assert(s.len() > 0 && !is_white(s[0]) && !is_white(s.last()));
            }
            assert(trimmed(t) == t) by {
                assert(t.len() > 0 && !is_white(t[0]) && !is_white(t.last()));
            }
            assert(lower_text(s) =~= lower_text(t));
        },
        KeyName::Up => {
            reveal_strlit("Up");
            reveal_strlit("up");
            assert(trimmed(s) == s) by {
                assert(s.len() > 0 && !is_white(s[0]) && !is_white(s.last()));
            }
            assert(trimmed(t) == t) by {
                assert(t.len() > 0 && !is_white(t[0]) && !is_white(t.last()));
            }
            assert(lower_text(s) =~= lower_text(t));
        },
        KeyName::Comma => {
            reveal_strlit(",");
            reveal_strlit(",");
            assert(trimmed(s) == s) by {
                assert(s.len() > 0 && !is_white(s[0]) && !is_white(s.last()));
            }
            assert(lower_text(s) =~= ","@);
            lemma_lookup_symbols();
        },
        KeyName::Period => {
            reveal_strlit(".");
            reveal_strlit(".");
            assert(trimmed(s) == s) by {
                assert(s.len() > 0 && !is_white(s[0]) && !is_white(s.last()));
            }
            assert(lower_text(s) =~= "."@);
            lemma_lookup_symbols();
        },
        KeyName::Slash => {
            reveal_strlit("/");
            reveal_strlit("/");
            assert(trimmed(s) == s) by {
                assert(s.len() > 0 && !is_white(s[0]) && !is_white(s.last()));
            }
            assert(lower_text(s) =~= "/"@);
            lemma_lookup_symbols();
        },
        KeyName::Space => {
            reveal_strlit("Space");
            reveal_strlit("space");
            assert(trimmed(s) == s) by {
                assert(s.len() > 0 && !is_white(s[0]) && !is_white(s.last()));
            }
            assert(trimmed(t) == t) by {
                assert(t.len() > 0 && !is_white(t[0]) && !is_white(t.last()));
            }
            assert(lower_text(s) =~= lower_text(t));
        },
        KeyName::Z => {
            reveal_strlit("Z");
            reveal_strlit("z");
            assert(trimmed(s) == s) by {
                assert(s.len() > 0 && !is_white(s[0]) && !is_white(s.last()));
            }
            assert(trimmed(t) == t) by {
                assert(t.len() > 0 && !is_white(t[0]) && !is_white(t.last()));
            }
            assert(lower_text(s) =~= lower_text(t));
        },
        KeyName::X => {
            reveal_strlit("X");
            reveal_strlit("x");
            assert(trimmed(s) == s) by {
                assert(s.len() > 0 && !is_white(s[0]) && !is_white(s.last()));
            }
            assert(trimmed(t) == t) by {
                assert(t.len() > 0 && !is_white(t[0]) && !is_white(t.last()));
            }
            assert(lower_text(s) =~= lower_text(t));
        },
        KeyName::A => {
            reveal_strlit("A");
            reveal_strlit("a");
            assert(trimmed(s) == s) by {
                assert(s.len() > 0 && !is_white(s[0]) && !is_white(s.last()));
            }
            assert(trimmed(t) == t) by {
                assert(t.len() > 0 && !is_white(t[0]) && !is_white(t.last()));
            }
            assert(lower_text(s) =~= lower_text(t));
        },
        KeyName::C => {
            reveal_strlit("C");
            reveal_strlit("c");
            assert(trimmed(s) == s) by {
                assert(s.len() > 0 && !is_white(s[0]) && !is_white(s.last()));
            }
            assert(trimmed(t) == t) by {
                assert(t.len() > 0 && !is_white(t[0]) && !is_white(t.last()));
            }
            assert(lower_text(s) =~= lower_text(t));
        },
        KeyName::Y => {
            reveal_strlit("Y");
            reveal_strlit("y");
            assert(trimmed(s) == s) by {
                assert(s.len() > 0 && !is_white(s[0]) && !is_white(s.last()));
            }
            assert(trimmed(t) == t) by {
                assert(t.len() > 0 && !is_white(t[0]) && !is_white(t.last()));
            }
            assert(lower_text(s) =~= lower_text(t));
        },
    }
}

} // verus!
