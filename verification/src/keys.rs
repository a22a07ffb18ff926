//! Key and terminal input events, the values that the keymap resolver and the
//! compositor dispatch on. Keys are written as short names ("esc", "C-w");
//! this module formats and parses that notation.
use vstd::prelude::*;

use crate::text::{char_to_string, chars_eq_str, str_chars};
use crate::width::{char_display_width, char_width_of};

verus! {

/// A key on the keyboard, without modifiers.
#[derive(Debug, Clone, Copy, PartialEq, Eq, Structural, Hash)]
pub enum KeyCode {
    Backspace,
    Enter,
    Left,
    Right,
    Up,
    Down,
    Home,
    End,
    PageUp,
    PageDown,
    Tab,
    Delete,
    Insert,
    Null,
    Esc,
    CapsLock,
    ScrollLock,
    NumLock,
    PrintScreen,
    Pause,
    Menu,
    KeypadBegin,
    F(u8),
    Char(char),
}

/// Modifier keys held together with a key press.
#[derive(Debug, Clone, Copy, PartialEq, Eq, Structural, Hash)]
pub struct KeyModifiers {
    pub shift: bool,
    pub alt: bool,
    pub control: bool,
}

impl KeyModifiers {
    /// No modifier held.
    pub open spec fn spec_none() -> KeyModifiers {
        KeyModifiers { shift: false, alt: false, control: false }
    }

    #[verifier::when_used_as_spec(spec_none)]
    pub fn none() -> (r: KeyModifiers)
        ensures
            r == KeyModifiers::spec_none(),
    {
        KeyModifiers { shift: false, alt: false, control: false }
    }
}

/// A key press: a key code together with the modifiers held.
#[derive(Debug, Clone, Copy, PartialEq, Eq, Structural, Hash)]
pub struct KeyEvent {
    pub code: KeyCode,
    pub modifiers: KeyModifiers,
}

impl KeyEvent {
    /// A plain, unmodified key press.
    pub open spec fn spec_plain(code: KeyCode) -> KeyEvent {
        KeyEvent { code, modifiers: KeyModifiers::spec_none() }
    }

    #[verifier::when_used_as_spec(spec_plain)]
    pub fn plain(code: KeyCode) -> (r: KeyEvent)
        ensures
            r == KeyEvent::spec_plain(code),
    {
        KeyEvent { code, modifiers: KeyModifiers::none() }
    }

    /// If a character was pressed, return it.
    pub fn char(&self) -> (r: Option<char>)
        ensures
            r == (match self.code {
                KeyCode::Char(ch) => Some(ch),
                _ => None::<char>,
            }),
    {
        match self.code {
            KeyCode::Char(ch) => Some(ch),
            _ => None,
        }
    }
}

/// The decimal digit characters, written out so that no cast is involved.
pub open spec fn spec_digit_char(d: nat) -> char {
    if d == 0 {
        '0'
    } else if d == 1 {
        '1'
    } else if d == 2 {
        '2'
    } else if d == 3 {
        '3'
    } else if d == 4 {
        '4'
    } else if d == 5 {
        '5'
    } else if d == 6 {
        '6'
    } else if d == 7 {
        '7'
    } else if d == 8 {
        '8'
    } else {
        '9'
    }
}

/// Decimal digits of a number, most significant first.
pub open spec fn spec_dec_digits(n: nat) -> Seq<char>
    decreases n,
{
    if n < 10 {
        seq![spec_digit_char(n)]
    } else {
        spec_dec_digits(n / 10) + seq![spec_digit_char(n % 10)]
    }
}

/// The short name of a character key: a few characters have a spelled-out
/// name so that sequences of keys stay readable; any other character stands
/// for itself.
pub open spec fn spec_char_name(c: char) -> Seq<char> {
    if c == ' ' {
        "space"@
    } else if c == '-' {
        "minus"@
    } else if c == '<' {
        "lt"@
    } else if c == '>' {
        "gt"@
    } else {
        seq![c]
    }
}

/// The short name of a key code.
pub open spec fn spec_key_name(code: KeyCode) -> Seq<char> {
    match code {
        KeyCode::Backspace => "backspace"@,
        KeyCode::Enter => "ret"@,
        KeyCode::Left => "left"@,
        KeyCode::Right => "right"@,
        KeyCode::Up => "up"@,
        KeyCode::Down => "down"@,
        KeyCode::Home => "home"@,
        KeyCode::End => "end"@,
        KeyCode::PageUp => "pageup"@,
        KeyCode::PageDown => "pagedown"@,
        KeyCode::Tab => "tab"@,
        KeyCode::Delete => "del"@,
        KeyCode::Insert => "ins"@,
        KeyCode::Null => "null"@,
        KeyCode::Esc => "esc"@,
        KeyCode::CapsLock => "capslock"@,
        KeyCode::ScrollLock => "scrolllock"@,
        KeyCode::NumLock => "numlock"@,
        KeyCode::PrintScreen => "printscreen"@,
        KeyCode::Pause => "pause"@,
        KeyCode::Menu => "menu"@,
        KeyCode::KeypadBegin => "keypadbegin"@,
        KeyCode::F(n) => seq!['F'] + spec_dec_digits(n as nat),
        KeyCode::Char(c) => spec_char_name(c),
    }
}

/// Modifier prefix of a formatted key: "S-", "A-", "C-", in that order.
pub open spec fn spec_mods_prefix(m: KeyModifiers) -> Seq<char> {
    (if m.shift {
        "S-"@
    } else {
        Seq::<char>::empty()
    }) + (if m.alt {
        "A-"@
    } else {
        Seq::<char>::empty()
    }) + (if m.control {
        "C-"@
    } else {
        Seq::<char>::empty()
    })
}

/// A key event written in key notation: modifier prefixes, then the key name.
pub open spec fn spec_key_string(e: KeyEvent) -> Seq<char> {
    spec_mods_prefix(e.modifiers) + spec_key_name(e.code)
}

/// Key notation as it stands inside a concatenated sequence of keys: names
/// longer than one character are wrapped in angle brackets.
pub open spec fn spec_key_sequence_format(e: KeyEvent) -> Seq<char> {
    let s = spec_key_string(e);
    if s.len() > 1 {
        seq!['<'] + s + seq!['>']
    } else {
        s
    }
}

/// Display width of a key written in key notation: the name's length (its
/// display width for a plain character), plus two columns per modifier.
pub open spec fn spec_key_width(e: KeyEvent) -> nat {
    (match e.code {
        KeyCode::F(n) => if 1 <= n && n <= 9 {
            2
        } else {
            3
        },
        KeyCode::Char(c) => if c == ' ' {
            "space"@.len()
        } else if c == '-' {
            "minus"@.len()
        } else {
            char_width_of(c)
        },
        _ => spec_key_name(e.code).len(),
    }) + (if e.modifiers.shift {
        2nat
    } else {
        0nat
    }) + (if e.modifiers.alt {
        2nat
    } else {
        0nat
    }) + (if e.modifiers.control {
        2nat
    } else {
        0nat
    })
}

/// A terminal input event as the event loop hands it to the compositor.
#[derive(Debug, Clone, PartialEq, Eq, Structural)]
pub enum Event {
    FocusGained,
    FocusLost,
    Key(KeyEvent),
    Resize(u16, u16),
    IdleTimeout,
}

/// One decimal digit as a string.
fn digit_str(d: u8) -> (r: String)
    requires
        d < 10,
    ensures
        r@ == seq![spec_digit_char(d as nat)],
{
    let r = match d {
        0 => String::from_str("0"),
        1 => String::from_str("1"),
        2 => String::from_str("2"),
        3 => String::from_str("3"),
        4 => String::from_str("4"),
        5 => String::from_str("5"),
        6 => String::from_str("6"),
        7 => String::from_str("7"),
        8 => String::from_str("8"),
        _ => String::from_str("9"),
    };
    proof {
        reveal_strlit("0");
        reveal_strlit("1");
        reveal_strlit("2");
        reveal_strlit("3");
        reveal_strlit("4");
        reveal_strlit("5");
        reveal_strlit("6");
        reveal_strlit("7");
        reveal_strlit("8");
        reveal_strlit("9");
        assert(r@ =~= seq![spec_digit_char(d as nat)]);
    }
    r
}

/// The decimal digits of a function-key number.
fn dec_digits_str(n: u8) -> (r: String)
    ensures
        r@ == spec_dec_digits(n as nat),
{
    let mut r = String::new();
    if n >= 100 {
        let d = digit_str(n / 100);
        r.append(d.as_str());
    }
    if n >= 10 {
        let d = digit_str((n / 10) % 10);
        r.append(d.as_str());
    }
    let d = digit_str(n % 10);
    r.append(d.as_str());
    proof {
        reveal_with_fuel(spec_dec_digits, 4);
        if n >= 100 {
            assert((n as nat) / 10 / 10 == (n as nat) / 100) by (nonlinear_arith);
            assert((n as nat) / 10 % 10 == (n as nat) / 10 % 10);
            assert(r@ =~= spec_dec_digits(n as nat));
        } else if n >= 10 {
            assert((n as nat) / 10 < 10);
            assert((n as nat) / 10 % 10 == (n as nat) / 10);
            assert(r@ =~= spec_dec_digits(n as nat));
        } else {
            assert(r@ =~= spec_dec_digits(n as nat));
        }
    }
    r
}

impl KeyCode {
    /// The short name of this key.
    pub fn name(&self) -> (r: String)
        ensures
            r@ == spec_key_name(*self),
    {
        match *self {
            KeyCode::Backspace => String::from_str("backspace"),
            KeyCode::Enter => String::from_str("ret"),
            KeyCode::Left => String::from_str("left"),
            KeyCode::Right => String::from_str("right"),
            KeyCode::Up => String::from_str("up"),
            KeyCode::Down => String::from_str("down"),
            KeyCode::Home => String::from_str("home"),
            KeyCode::End => String::from_str("end"),
            KeyCode::PageUp => String::from_str("pageup"),
            KeyCode::PageDown => String::from_str("pagedown"),
            KeyCode::Tab => String::from_str("tab"),
            KeyCode::Delete => String::from_str("del"),
            KeyCode::Insert => String::from_str("ins"),
            KeyCode::Null => String::from_str("null"),
            KeyCode::Esc => String::from_str("esc"),
            KeyCode::CapsLock => String::from_str("capslock"),
            KeyCode::ScrollLock => String::from_str("scrolllock"),
            KeyCode::NumLock => String::from_str("numlock"),
            KeyCode::PrintScreen => String::from_str("printscreen"),
            KeyCode::Pause => String::from_str("pause"),
            KeyCode::Menu => String::from_str("menu"),
            KeyCode::KeypadBegin => String::from_str("keypadbegin"),
            KeyCode::F(n) => {
                let mut s = String::from_str("F");
                let digits = dec_digits_str(n);
                s.append(digits.as_str());
                proof {
                    reveal_strlit("F");
                    assert(s@ =~= seq!['F'] + spec_dec_digits(n as nat));
                }
                s
            },
            KeyCode::Char(c) => {
                if c == ' ' {
                    String::from_str("space")
                } else if c == '-' {
                    String::from_str("minus")
                } else if c == '<' {
                    String::from_str("lt")
                } else if c == '>' {
                    String::from_str("gt")
                } else {
                    char_to_string(c)
                }
            },
        }
    }
}

impl KeyEvent {
    /// This key event in key notation: "S-", "A-", "C-" prefixes for the
    /// modifiers held, then the key's short name.
    pub fn to_key_string(&self) -> (r: String)
        ensures
            r@ == spec_key_string(*self),
    {
        let mut r = String::new();
        if self.modifiers.shift {
            r.append("S-");
        }
        if self.modifiers.alt {
            r.append("A-");
        }
        if self.modifiers.control {
            r.append("C-");
        }
        let name = self.code.name();
        r.append(name.as_str());
        proof {
            assert(r@ =~= spec_key_string(*self));
        }
        r
    }

    /// Format the key so that a concatenated sequence of keys can be read
    /// easily: names wider than one character are wrapped in angle brackets.
    pub fn key_sequence_format(&self) -> (r: String)
        ensures
            r@ == spec_key_sequence_format(*self),
    {
        let s = self.to_key_string();
        if s.as_str().unicode_len() > 1 {
            let mut r = String::from_str("<");
            r.append(s.as_str());
            r.append(">");
            proof {
                reveal_strlit("<");
                reveal_strlit(">");
                assert(r@ =~= seq!['<'] + spec_key_string(*self) + seq!['>']);
            }
            r
        } else {
            s
        }
    }

    /// Display width of this key in key notation.
    pub fn width(&self) -> (r: usize)
        ensures
            r == spec_key_width(*self),
    {
        proof {
            reveal_strlit("backspace");
            reveal_strlit("ret");
            reveal_strlit("left");
            reveal_strlit("right");
            reveal_strlit("up");
            reveal_strlit("down");
            reveal_strlit("home");
            reveal_strlit("end");
            reveal_strlit("pageup");
            reveal_strlit("pagedown");
            reveal_strlit("tab");
            reveal_strlit("del");
            reveal_strlit("ins");
            reveal_strlit("null");
            reveal_strlit("esc");
            reveal_strlit("capslock");
            reveal_strlit("scrolllock");
            reveal_strlit("numlock");
            reveal_strlit("printscreen");
            reveal_strlit("pause");
            reveal_strlit("menu");
            reveal_strlit("keypadbegin");
            reveal_strlit("space");
            reveal_strlit("minus");
        }
        let mut w: usize = match self.code {
            KeyCode::Backspace => 9,
            KeyCode::Enter => 3,
            KeyCode::Left => 4,
            KeyCode::Right => 5,
            KeyCode::Up => 2,
            KeyCode::Down => 4,
            KeyCode::Home => 4,
            KeyCode::End => 3,
            KeyCode::PageUp => 6,
            KeyCode::PageDown => 8,
            KeyCode::Tab => 3,
            KeyCode::Delete => 3,
            KeyCode::Insert => 3,
            KeyCode::Null => 4,
            KeyCode::Esc => 3,
            KeyCode::CapsLock => 8,
            KeyCode::ScrollLock => 10,
            KeyCode::NumLock => 7,
            KeyCode::PrintScreen => 11,
            KeyCode::Pause => 5,
            KeyCode::Menu => 4,
            KeyCode::KeypadBegin => 11,
            KeyCode::F(n) => if 1 <= n && n <= 9 {
                2
            } else {
                3
            },
            KeyCode::Char(c) => {
                if c == ' ' {
                    5
                } else if c == '-' {
                    5
                } else {
                    char_display_width(c)
                }
            },
        };
        if self.modifiers.shift {
            w = w + 2;
        }
        if self.modifiers.alt {
            w = w + 2;
        }
        if self.modifiers.control {
            w = w + 2;
        }
        w
    }
}

/// Why a string failed to parse as a key event.
#[derive(Debug, Clone, Copy, PartialEq, Eq, Structural)]
pub enum KeyParseError {
    /// The last token names no key.
    InvalidKeyCode,
    /// An "F..." token whose number is not 1 to 24.
    InvalidFunctionKey,
    /// A modifier token other than "S", "A" or "C".
    InvalidKeyModifier,
    /// The same modifier token twice.
    RepeatedKeyModifier,
}

/// The tokens of a string split on '-'; always at least one token.
pub open spec fn split_dash(s: Seq<char>) -> Seq<Seq<char>>
    decreases s.len(),
{
    if s.len() == 0 {
        seq![s]
    } else if s[0] == '-' {
        seq![Seq::<char>::empty()] + split_dash(s.drop_first())
    } else {
        let rest = split_dash(s.drop_first());
        seq![seq![s[0]] + rest[0]] + rest.drop_first()
    }
}

proof fn lemma_split_dash_len(s: Seq<char>)
    ensures
        split_dash(s).len() >= 1,
    decreases s.len(),
{
    if s.len() > 0 && s[0] != '-' {
        lemma_split_dash_len(s.drop_first());
    }
}

/// Splitting `a + b` where `a` holds no dash: `a` is glued onto `b`'s first
/// token.
proof fn lemma_split_dash_prepend(a: Seq<char>, b: Seq<char>)
    requires
        forall|i: int| 0 <= i < a.len() ==> a[i] != '-',
    ensures
        split_dash(a + b) == seq![a + split_dash(b)[0]] + split_dash(b).drop_first(),
    decreases a.len(),
{
    lemma_split_dash_len(b);
    if a.len() == 0 {
        assert(a + b =~= b);
        assert(a + split_dash(b)[0] =~= split_dash(b)[0]);
        assert(seq![split_dash(b)[0]] + split_dash(b).drop_first() =~= split_dash(b));
    } else {
        let ab = a + b;
        assert(ab[0] == a[0]);
        assert(ab.drop_first() =~= a.drop_first() + b);
        lemma_split_dash_prepend(a.drop_first(), b);
        let rest = split_dash(ab.drop_first());
        assert(seq![a[0]] + rest[0] =~= a + split_dash(b)[0]);
        assert(rest.drop_first() =~= split_dash(b).drop_first());
        assert(split_dash(ab) =~= seq![a + split_dash(b)[0]] + split_dash(b).drop_first());
    }
}

/// Split a character vector on '-'.
fn split_dash_exec(chars: &Vec<char>) -> (r: Vec<Vec<char>>)
    ensures
        r@.map_values(|t: Vec<char>| t@) == split_dash(chars@),
        r@.len() >= 1,
{
    let n: usize = chars.len();
    let mut toks: Vec<Vec<char>> = Vec::new();
    let mut cur: Vec<char> = Vec::new();
    let mut i: usize = 0;
    proof {
        assert(toks@.map_values(|t: Vec<char>| t@) =~= Seq::<Seq<char>>::empty());
        assert(cur@ + chars@.skip(0) =~= chars@);
    }
    while i < n
        invariant
            n == chars@.len(),
            i <= n,
            forall|j: int| 0 <= j < cur@.len() ==> cur@[j] != '-',
            split_dash(chars@) == toks@.map_values(|t: Vec<char>| t@) + split_dash(
                cur@ + chars@.skip(i as int),
            ),
        decreases n - i,
    {
        let c = chars[i];
        proof {
            let tail = chars@.skip(i as int);
            assert(tail[0] == c);
            assert(tail.drop_first() =~= chars@.skip(i as int + 1));
        }
        if c == '-' {
            proof {
                let tail = chars@.skip(i as int);
                lemma_split_dash_prepend(cur@, tail);
                lemma_split_dash_len(tail.drop_first());
                assert(split_dash(tail) == seq![Seq::<char>::empty()] + split_dash(
                    tail.drop_first(),
                ));
                assert(cur@ + split_dash(tail)[0] =~= cur@);
                assert(split_dash(cur@ + tail) =~= seq![cur@] + split_dash(
                    chars@.skip(i as int + 1),
                ));
                assert(Seq::<char>::empty() + chars@.skip(i as int + 1) =~= chars@.skip(
                    i as int + 1,
                ));
                assert((toks@.push(cur)).map_values(|t: Vec<char>| t@) =~= toks@.map_values(
                    |t: Vec<char>| t@,
                ).push(cur@));
            }
            toks.push(cur);
            cur = Vec::new();
        } else {
            proof {
                assert((cur@.push(c)) + chars@.skip(i as int + 1) =~= cur@ + chars@.skip(i as int));
            }
            cur.push(c);
        }
        i = i + 1;
    }
    proof {
        assert(chars@.skip(n as int) =~= Seq::<char>::empty());
        assert(cur@ + Seq::<char>::empty() =~= cur@);
        lemma_split_dash_prepend(cur@, Seq::<char>::empty());
        assert(split_dash(Seq::<char>::empty()) == seq![Seq::<char>::empty()]);
        assert(cur@ + split_dash(Seq::<char>::empty())[0] =~= cur@);
        assert(split_dash(cur@) =~= seq![cur@]);
        assert((toks@.push(cur)).map_values(|t: Vec<char>| t@) =~= toks@.map_values(
            |t: Vec<char>| t@,
        ).push(cur@));
        assert(toks@.map_values(|t: Vec<char>| t@).push(cur@) =~= toks@.map_values(
            |t: Vec<char>| t@,
        ) + seq![cur@]);
    }
    toks.push(cur);
    toks
}

/// The value of a decimal digit character; None for any other character.
pub open spec fn spec_digit_of(c: char) -> Option<nat> {
    if c == '0' {
        Some(0nat)
    } else if c == '1' {
        Some(1nat)
    } else if c == '2' {
        Some(2nat)
    } else if c == '3' {
        Some(3nat)
    } else if c == '4' {
        Some(4nat)
    } else if c == '5' {
        Some(5nat)
    } else if c == '6' {
        Some(6nat)
    } else if c == '7' {
        Some(7nat)
    } else if c == '8' {
        Some(8nat)
    } else if c == '9' {
        Some(9nat)
    } else {
        None
    }
}

/// Parsing the digits of a number at most 255, left to right, as the
/// standard library's integer parse accepts them (any number of leading
/// zeros; overflow fails).
pub open spec fn spec_parse_u8_loop(t: Seq<char>, acc: nat) -> Option<nat>
    decreases t.len(),
{
    if acc > 255 {
        None
    } else if t.len() == 0 {
        Some(acc)
    } else {
        match spec_digit_of(t[0]) {
            None => None,
            Some(d) => spec_parse_u8_loop(t.drop_first(), acc * 10 + d),
        }
    }
}

/// The value of a decimal digit character.
fn digit_of(c: char) -> (r: Option<u8>)
    ensures
        r == (match spec_digit_of(c) {
            Some(d) => Some(d as u8),
            None => None::<u8>,
        }),
        r is Some <==> spec_digit_of(c) is Some,
{
    match c {
        '0' => Some(0),
        '1' => Some(1),
        '2' => Some(2),
        '3' => Some(3),
        '4' => Some(4),
        '5' => Some(5),
        '6' => Some(6),
        '7' => Some(7),
        '8' => Some(8),
        '9' => Some(9),
        _ => None,
    }
}

/// The uppercase letter for a lowercase ASCII letter; None otherwise.
pub open spec fn spec_shift_upper(c: char) -> Option<char> {
    if c == 'a' {
        Some('A')
    } else if c == 'b' {
        Some('B')
    } else if c == 'c' {
        Some('C')
    } else if c == 'd' {
        Some('D')
    } else if c == 'e' {
        Some('E')
    } else if c == 'f' {
        Some('F')
    } else if c == 'g' {
        Some('G')
    } else if c == 'h' {
        Some('H')
    } else if c == 'i' {
        Some('I')
    } else if c == 'j' {
        Some('J')
    } else if c == 'k' {
        Some('K')
    } else if c == 'l' {
        Some('L')
    } else if c == 'm' {
        Some('M')
    } else if c == 'n' {
        Some('N')
    } else if c == 'o' {
        Some('O')
    } else if c == 'p' {
        Some('P')
    } else if c == 'q' {
        Some('Q')
    } else if c == 'r' {
        Some('R')
    } else if c == 's' {
        Some('S')
    } else if c == 't' {
        Some('T')
    } else if c == 'u' {
        Some('U')
    } else if c == 'v' {
        Some('V')
    } else if c == 'w' {
        Some('W')
    } else if c == 'x' {
        Some('X')
    } else if c == 'y' {
        Some('Y')
    } else if c == 'z' {
        Some('Z')
    } else {
        None
    }
}

/// The uppercase letter for a lowercase ASCII letter.
fn shift_upper(c: char) -> (r: Option<char>)
    ensures
        r == spec_shift_upper(c),
{
    match c {
        'a' => Some('A'),
        'b' => Some('B'),
        'c' => Some('C'),
        'd' => Some('D'),
        'e' => Some('E'),
        'f' => Some('F'),
        'g' => Some('G'),
        'h' => Some('H'),
        'i' => Some('I'),
        'j' => Some('J'),
        'k' => Some('K'),
        'l' => Some('L'),
        'm' => Some('M'),
        'n' => Some('N'),
        'o' => Some('O'),
        'p' => Some('P'),
        'q' => Some('Q'),
        'r' => Some('R'),
        's' => Some('S'),
        't' => Some('T'),
        'u' => Some('U'),
        'v' => Some('V'),
        'w' => Some('W'),
        'x' => Some('X'),
        'y' => Some('Y'),
        'z' => Some('Z'),
        _ => None,
    }
}

pub open spec fn spec_parse_u8(t: Seq<char>) -> Option<nat> {
    if t.len() == 0 {
        None
    } else {
        spec_parse_u8_loop(t, 0)
    }
}

/// The key code named by one token: a spelled-out key name, a single
/// character, or "F" followed by a function-key number.
pub open spec fn spec_parse_code(t: Seq<char>) -> Result<KeyCode, KeyParseError> {
    if t == "backspace"@ {
        Ok(KeyCode::Backspace)
    } else if t == "ret"@ {
        Ok(KeyCode::Enter)
    } else if t == "left"@ {
        Ok(KeyCode::Left)
    } else if t == "right"@ {
        Ok(KeyCode::Right)
    } else if t == "up"@ {
        Ok(KeyCode::Up)
    } else if t == "down"@ {
        Ok(KeyCode::Down)
    } else if t == "home"@ {
        Ok(KeyCode::Home)
    } else if t == "end"@ {
        Ok(KeyCode::End)
    } else if t == "pageup"@ {
        Ok(KeyCode::PageUp)
    } else if t == "pagedown"@ {
        Ok(KeyCode::PageDown)
    } else if t == "tab"@ {
        Ok(KeyCode::Tab)
    } else if t == "del"@ {
        Ok(KeyCode::Delete)
    } else if t == "ins"@ {
        Ok(KeyCode::Insert)
    } else if t == "null"@ {
        Ok(KeyCode::Null)
    } else if t == "esc"@ {
        Ok(KeyCode::Esc)
    } else if t == "space"@ {
        Ok(KeyCode::Char(' '))
    } else if t == "minus"@ {
        Ok(KeyCode::Char('-'))
    } else if t == "lt"@ {
        Ok(KeyCode::Char('<'))
    } else if t == "gt"@ {
        Ok(KeyCode::Char('>'))
    } else if t == "capslock"@ {
        Ok(KeyCode::CapsLock)
    } else if t == "scrolllock"@ {
        Ok(KeyCode::ScrollLock)
    } else if t == "numlock"@ {
        Ok(KeyCode::NumLock)
    } else if t == "printscreen"@ {
        Ok(KeyCode::PrintScreen)
    } else if t == "pause"@ {
        Ok(KeyCode::Pause)
    } else if t == "menu"@ {
        Ok(KeyCode::Menu)
    } else if t == "keypadbegin"@ {
        Ok(KeyCode::KeypadBegin)
    } else if t.len() == 1 {
        Ok(KeyCode::Char(t[0]))
    } else if t.len() > 1 && t[0] == 'F' {
        match spec_parse_u8(t.drop_first()) {
            Some(n) => if 1 <= n && n < 25 {
                Ok(KeyCode::F(n as u8))
            } else {
                Err(KeyParseError::InvalidFunctionKey)
            },
            None => Err(KeyParseError::InvalidFunctionKey),
        }
    } else {
        Err(KeyParseError::InvalidKeyCode)
    }
}

/// The modifiers named by the tokens before the key: "S", "A" or "C", each at
/// most once.
pub open spec fn spec_parse_mods(toks: Seq<Seq<char>>, acc: KeyModifiers) -> Result<
    KeyModifiers,
    KeyParseError,
>
    decreases toks.len(),
{
    if toks.len() == 0 {
        Ok(acc)
    } else if toks[0] == "S"@ {
        if acc.shift {
            Err(KeyParseError::RepeatedKeyModifier)
        } else {
            spec_parse_mods(toks.drop_first(), KeyModifiers { shift: true, ..acc })
        }
    } else if toks[0] == "A"@ {
        if acc.alt {
            Err(KeyParseError::RepeatedKeyModifier)
        } else {
            spec_parse_mods(toks.drop_first(), KeyModifiers { alt: true, ..acc })
        }
    } else if toks[0] == "C"@ {
        if acc.control {
            Err(KeyParseError::RepeatedKeyModifier)
        } else {
            spec_parse_mods(toks.drop_first(), KeyModifiers { control: true, ..acc })
        }
    } else {
        Err(KeyParseError::InvalidKeyModifier)
    }
}

/// Normalisation: a shifted lowercase ASCII letter is the uppercase letter,
/// so that "C-S-r" and "C-R" name the same key event.
pub open spec fn spec_normalize_key(code: KeyCode, mods: KeyModifiers) -> KeyEvent {
    match code {
        KeyCode::Char(c) => match spec_shift_upper(c) {
            Some(up) => if mods.shift {
                KeyEvent { code: KeyCode::Char(up), modifiers: KeyModifiers { shift: false, ..mods } }
            } else {
                KeyEvent { code, modifiers: mods }
            },
            None => KeyEvent { code, modifiers: mods },
        },
        _ => KeyEvent { code, modifiers: mods },
    }
}

/// What parsing a whole key string yields: the last '-'-separated token names
/// the key, the tokens before it name modifiers, and the result is
/// normalised.
pub open spec fn spec_parse_key(s: Seq<char>) -> Result<KeyEvent, KeyParseError> {
    let toks = split_dash(s);
    match spec_parse_code(toks.last()) {
        Err(e) => Err(e),
        Ok(code) => match spec_parse_mods(toks.drop_last(), KeyModifiers::spec_none()) {
            Err(e) => Err(e),
            Ok(mods) => Ok(spec_normalize_key(code, mods)),
        },
    }
}

/// The key code named by one token.
#[verifier::loop_isolation(false)]
fn parse_code_token(t: &Vec<char>) -> (r: Result<KeyCode, KeyParseError>)
    ensures
        r == spec_parse_code(t@),
{
    if chars_eq_str(t, "backspace") {
        Ok(KeyCode::Backspace)
    } else if chars_eq_str(t, "ret") {
        Ok(KeyCode::Enter)
    } else if chars_eq_str(t, "left") {
        Ok(KeyCode::Left)
    } else if chars_eq_str(t, "right") {
        Ok(KeyCode::Right)
    } else if chars_eq_str(t, "up") {
        Ok(KeyCode::Up)
    } else if chars_eq_str(t, "down") {
        Ok(KeyCode::Down)
    } else if chars_eq_str(t, "home") {
        Ok(KeyCode::Home)
    } else if chars_eq_str(t, "end") {
        Ok(KeyCode::End)
    } else if chars_eq_str(t, "pageup") {
        Ok(KeyCode::PageUp)
    } else if chars_eq_str(t, "pagedown") {
        Ok(KeyCode::PageDown)
    } else if chars_eq_str(t, "tab") {
        Ok(KeyCode::Tab)
    } else if chars_eq_str(t, "del") {
        Ok(KeyCode::Delete)
    } else if chars_eq_str(t, "ins") {
        Ok(KeyCode::Insert)
    } else if chars_eq_str(t, "null") {
        Ok(KeyCode::Null)
    } else if chars_eq_str(t, "esc") {
        Ok(KeyCode::Esc)
    } else if chars_eq_str(t, "space") {
        Ok(KeyCode::Char(' '))
    } else if chars_eq_str(t, "minus") {
        Ok(KeyCode::Char('-'))
    } else if chars_eq_str(t, "lt") {
        Ok(KeyCode::Char('<'))
    } else if chars_eq_str(t, "gt") {
        Ok(KeyCode::Char('>'))
    } else if chars_eq_str(t, "capslock") {
        Ok(KeyCode::CapsLock)
    } else if chars_eq_str(t, "scrolllock") {
        Ok(KeyCode::ScrollLock)
    } else if chars_eq_str(t, "numlock") {
        Ok(KeyCode::NumLock)
    } else if chars_eq_str(t, "printscreen") {
        Ok(KeyCode::PrintScreen)
    } else if chars_eq_str(t, "pause") {
        Ok(KeyCode::Pause)
    } else if chars_eq_str(t, "menu") {
        Ok(KeyCode::Menu)
    } else if chars_eq_str(t, "keypadbegin") {
        Ok(KeyCode::KeypadBegin)
    } else if t.len() == 1 {
        Ok(KeyCode::Char(t[0]))
    } else if t.len() > 1 && t[0] == 'F' {
        let mut acc: u32 = 0;
        let mut i: usize = 1;
        let n: usize = t.len();
        proof {
            assert(t@.drop_first() =~= t@.skip(1));
        }
        while i < n
            invariant
                n == t@.len(),
                1 <= i <= n,
                acc <= 255,
                spec_parse_u8_loop(t@.drop_first(), 0) == spec_parse_u8_loop(
                    t@.skip(i as int),
                    acc as nat,
                ),
            decreases n - i,
        {
            let ghost i0 = i as int;
            let ghost acc0 = acc as nat;
            let c = t[i];
            proof {
                assert(t@.skip(i0)[0] == c);
                assert(t@.skip(i0).drop_first() =~= t@.skip(i0 + 1));
            }
            let d = match digit_of(c) {
                Some(d) => d,
                None => {
                    return Err(KeyParseError::InvalidFunctionKey);
                },
            };
            acc = acc * 10 + (d as u32);
            i = i + 1;
            proof {
                assert(spec_parse_u8_loop(t@.skip(i0), acc0) == spec_parse_u8_loop(
                    t@.skip(i as int),
                    acc as nat,
                ));
            }
            if acc > 255 {
                proof {
                    assert(spec_parse_u8_loop(t@.skip(i as int), acc as nat) is None);
                }
                return Err(KeyParseError::InvalidFunctionKey);
            }
        }
        proof {
            assert(t@.skip(n as int) =~= Seq::<char>::empty());
        }
        if 1 <= acc && acc < 25 {
            Ok(KeyCode::F(acc as u8))
        } else {
            Err(KeyParseError::InvalidFunctionKey)
        }
    } else {
        Err(KeyParseError::InvalidKeyCode)
    }
}

/// Parse a key written in key notation ("j", "C-w", "S-tab", "F5"): the last
/// '-'-separated token names the key, the tokens before it the modifiers, and
/// a shifted lowercase letter is normalised to the uppercase letter.
#[verifier::loop_isolation(false)]
pub fn str_to_keycode(s: &str) -> (r: Result<KeyEvent, KeyParseError>)
    ensures
        r == spec_parse_key(s@),
{
    let chars = str_chars(s);
    let toks = split_dash_exec(&chars);
    let ghost tv = toks@.map_values(|t: Vec<char>| t@);
    proof {
        assert(tv.last() == toks@.last()@);
    }
    let code = match parse_code_token(&toks[toks.len() - 1]) {
        Ok(code) => code,
        Err(e) => {
            return Err(e);
        },
    };
    let mut mods = KeyModifiers::none();
    let mut i: usize = 0;
    let n: usize = toks.len() - 1;
    proof {
        assert(tv.drop_last().skip(0) =~= tv.drop_last());
    }
    while i < n
        invariant
            n == tv.len() - 1,
            tv == toks@.map_values(|t: Vec<char>| t@),
            toks@.len() == tv.len(),
            i <= n,
            spec_parse_mods(tv.drop_last(), KeyModifiers::spec_none()) == spec_parse_mods(
                tv.drop_last().skip(i as int),
                mods,
            ),
        decreases n - i,
    {
        proof {
            assert(tv.drop_last().skip(i as int)[0] == tv[i as int]);
            assert(tv[i as int] == toks@[i as int]@);
            assert(tv.drop_last().skip(i as int).drop_first() =~= tv.drop_last().skip(i as int + 1));
        }
        if chars_eq_str(&toks[i], "S") {
            if mods.shift {
                return Err(KeyParseError::RepeatedKeyModifier);
            }
            mods = KeyModifiers { shift: true, ..mods };
        } else if chars_eq_str(&toks[i], "A") {
            if mods.alt {
                return Err(KeyParseError::RepeatedKeyModifier);
            }
            mods = KeyModifiers { alt: true, ..mods };
        } else if chars_eq_str(&toks[i], "C") {
            if mods.control {
                return Err(KeyParseError::RepeatedKeyModifier);
            }
            mods = KeyModifiers { control: true, ..mods };
        } else {
            return Err(KeyParseError::InvalidKeyModifier);
        }
        i = i + 1;
    }
    proof {
        assert(tv.drop_last().skip(n as int) =~= Seq::<Seq<char>>::empty());
    }
    match code {
        KeyCode::Char(c) => {
            match shift_upper(c) {
                Some(up) => if mods.shift {
                    Ok(
                        KeyEvent {
                            code: KeyCode::Char(up),
                            modifiers: KeyModifiers { shift: false, ..mods },
                        },
                    )
                } else {
                    Ok(KeyEvent { code: KeyCode::Char(c), modifiers: mods })
                },
                None => Ok(KeyEvent { code: KeyCode::Char(c), modifiers: mods }),
            }
        },
        _ => Ok(KeyEvent { code, modifiers: mods }),
    }
}

} // verus!
