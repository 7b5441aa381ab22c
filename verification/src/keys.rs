//! Key names of the grid and hotkey configuration, and the macOS virtual
//! keycodes and modifier bits they stand for (QWERTY layout).

use vstd::prelude::*;
use vstd::string::*;
use vstd::utf8::is_ascii_chars;

verus! {

/// What `str::to_lowercase` returns for a string, as a sequence of chars.
pub uninterp spec fn lowercase(s: Seq<char>) -> Seq<char>;

/// Lower case of one ASCII char: `A`..`Z` become `a`..`z`, the rest stay.
pub open spec fn ascii_lower_char(c: char) -> char {
    if 'A' <= c && c <= 'Z' {
        ((c as u32) + 32) as char
    } else {
        c
    }
}

/// Char-by-char ASCII lower case of a sequence.
pub open spec fn ascii_lowercase(s: Seq<char>) -> Seq<char> {
    s.map_values(|c: char| ascii_lower_char(c))
}

/// Calls `str::to_lowercase`. The result is named by `lowercase`; beside
/// that the contract states only what Unicode's lower-case mapping does on
/// ASCII text: `A`..`Z` become `a`..`z` and every other ASCII char stays.
/// Nothing is stated of non-ASCII text.
#[verifier::external_body]
fn to_lowercase(s: &str) -> (r: String)
    ensures
        r@ == lowercase(s@),
        is_ascii_chars(s@) ==> r@ == ascii_lowercase(s@),
{
    s.to_lowercase()
}

/// Whether two strings hold the same chars.
pub fn str_eq(a: &str, b: &str) -> (r: bool)
    ensures
        r == (a@ == b@),
{
    let n: usize = a.unicode_len();
    let m: usize = b.unicode_len();
    if n != m {
        return false;
    }
    let mut i: usize = 0;
    while i < n
        invariant
            n == a@.len(),
            m == b@.len(),
            n == m,
            i <= n,
            forall|j: int| 0 <= j < i ==> a@[j] == b@[j],
        decreases n - i,
    {
        let ca = a.get_char(i);
        let cb = b.get_char(i);
        if ca != cb {
            assert(a@[i as int] != b@[i as int]);
            return false;
        }
        i = i + 1;
    }
    assert(a@ =~= b@);
    true
}

/// The keycode of a key named by one char, already in lower case.
pub open spec fn char_key_code(c: char) -> Option<u16> {
    match c {
        'a' => Some(0u16),
        's' => Some(1u16),
        'd' => Some(2u16),
        'f' => Some(3u16),
        'h' => Some(4u16),
        'g' => Some(5u16),
        'z' => Some(6u16),
        'x' => Some(7u16),
        'c' => Some(8u16),
        'v' => Some(9u16),
        'b' => Some(11u16),
        'q' => Some(12u16),
        'w' => Some(13u16),
        'e' => Some(14u16),
        'r' => Some(15u16),
        'y' => Some(16u16),
        't' => Some(17u16),
        '1' => Some(18u16),
        '2' => Some(19u16),
        '3' => Some(20u16),
        '4' => Some(21u16),
        '5' => Some(23u16),
        '6' => Some(22u16),
        '7' => Some(26u16),
        '8' => Some(28u16),
        '9' => Some(25u16),
        '0' => Some(29u16),
        'o' => Some(31u16),
        'u' => Some(32u16),
        'i' => Some(34u16),
        'p' => Some(35u16),
        'l' => Some(37u16),
        'j' => Some(38u16),
        'k' => Some(40u16),
        'n' => Some(45u16),
        'm' => Some(46u16),
        _ => None,
    }
}

/// The keycode of a key named by a word, already in lower case.
pub open spec fn word_key_code(name: Seq<char>) -> Option<u16> {
    if name == "space"@ {
        Some(49u16)
    } else if name == "return"@ {
        Some(36u16)
    } else if name == "enter"@ {
        Some(36u16)
    } else if name == "tab"@ {
        Some(48u16)
    } else if name == "escape"@ {
        Some(53u16)
    } else if name == "esc"@ {
        Some(53u16)
    } else if name == "backspace"@ {
        Some(51u16)
    } else if name == "delete"@ {
        Some(51u16)
    } else if name == "minus"@ {
        Some(27u16)
    } else if name == "equal"@ {
        Some(24u16)
    } else if name == "equals"@ {
        Some(24u16)
    } else if name == "leftbracket"@ {
        Some(33u16)
    } else if name == "rightbracket"@ {
        Some(30u16)
    } else if name == "semicolon"@ {
        Some(41u16)
    } else if name == "quote"@ {
        Some(39u16)
    } else if name == "comma"@ {
        Some(43u16)
    } else if name == "period"@ {
        Some(47u16)
    } else if name == "slash"@ {
        Some(44u16)
    } else if name == "backslash"@ {
        Some(42u16)
    } else if name == "backtick"@ {
        Some(50u16)
    } else if name == "grave"@ {
        Some(50u16)
    } else {
        None
    }
}

/// The macOS virtual keycode of a key name that is already in lower case.
pub open spec fn lowercase_key_code(name: Seq<char>) -> Option<u16> {
    if name.len() == 1 {
        char_key_code(name[0])
    } else {
        word_key_code(name)
    }
}

/// The keycode of a key name, matched without regard to case: through
/// ASCII lower case for an ASCII name, else through `str::to_lowercase`.
pub open spec fn key_code(name: Seq<char>) -> Option<u16> {
    if is_ascii_chars(name) {
        lowercase_key_code(ascii_lowercase(name))
    } else {
        lowercase_key_code(lowercase(name))
    }
}

/// The keycode of a key named by one char, already in lower case.
fn keycode_for_char(c: char) -> (r: Option<u16>)
    ensures
        r == char_key_code(c),
{
    match c {
        'a' => Some(0),
        's' => Some(1),
        'd' => Some(2),
        'f' => Some(3),
        'h' => Some(4),
        'g' => Some(5),
        'z' => Some(6),
        'x' => Some(7),
        'c' => Some(8),
        'v' => Some(9),
        'b' => Some(11),
        'q' => Some(12),
        'w' => Some(13),
        'e' => Some(14),
        'r' => Some(15),
        'y' => Some(16),
        't' => Some(17),
        '1' => Some(18),
        '2' => Some(19),
        '3' => Some(20),
        '4' => Some(21),
        '5' => Some(23),
        '6' => Some(22),
        '7' => Some(26),
        '8' => Some(28),
        '9' => Some(25),
        '0' => Some(29),
        'o' => Some(31),
        'u' => Some(32),
        'i' => Some(34),
        'p' => Some(35),
        'l' => Some(37),
        'j' => Some(38),
        'k' => Some(40),
        'n' => Some(45),
        'm' => Some(46),
        _ => None,
    }
}

/// Looks up the keycode of a key name that is already in lower case.
pub fn keycode_for_lowercase_name(name: &str) -> (r: Option<u16>)
    ensures
        r == lowercase_key_code(name@),
{
    if name.unicode_len() == 1 {
        return keycode_for_char(name.get_char(0));
    }
    if str_eq(name, "space") {
        return Some(49);
    }
    if str_eq(name, "return") {
        return Some(36);
    }
    if str_eq(name, "enter") {
        return Some(36);
    }
    if str_eq(name, "tab") {
        return Some(48);
    }
    if str_eq(name, "escape") {
        return Some(53);
    }
    if str_eq(name, "esc") {
        return Some(53);
    }
    if str_eq(name, "backspace") {
        return Some(51);
    }
    if str_eq(name, "delete") {
        return Some(51);
    }
    if str_eq(name, "minus") {
        return Some(27);
    }
    if str_eq(name, "equal") {
        return Some(24);
    }
    if str_eq(name, "equals") {
        return Some(24);
    }
    if str_eq(name, "leftbracket") {
        return Some(33);
    }
    if str_eq(name, "rightbracket") {
        return Some(30);
    }
    if str_eq(name, "semicolon") {
        return Some(41);
    }
    if str_eq(name, "quote") {
        return Some(39);
    }
    if str_eq(name, "comma") {
        return Some(43);
    }
    if str_eq(name, "period") {
        return Some(47);
    }
    if str_eq(name, "slash") {
        return Some(44);
    }
    if str_eq(name, "backslash") {
        return Some(42);
    }
    if str_eq(name, "backtick") {
        return Some(50);
    }
    if str_eq(name, "grave") {
        return Some(50);
    }
    None
}

/// The macOS virtual keycode of a key name, matched without regard to case.
/// For an ASCII name this is the keycode of its ASCII lower case.
pub fn key_name_to_keycode(name: &str) -> (r: Option<u16>)
    ensures
        r == key_code(name@),
{
    let lower = to_lowercase(name);
    keycode_for_lowercase_name(lower.as_str())
}

/// Event-flag bit of the shift key (`CGEventFlagShift`).
pub const SHIFT_BIT: u64 = 0x0002_0000;
/// Event-flag bit of the control key (`CGEventFlagControl`).
pub const CONTROL_BIT: u64 = 0x0004_0000;
/// Event-flag bit of the option key (`CGEventFlagAlternate`).
pub const ALTERNATE_BIT: u64 = 0x0008_0000;
/// Event-flag bit of the command key (`CGEventFlagCommand`).
pub const COMMAND_BIT: u64 = 0x0010_0000;
/// The four modifier bits that a hotkey can ask for.
pub const MODIFIER_MASK: u64 = 0x001e_0000;

/// A set of keyboard-event flags, held as the bits of a Quartz event's
/// flag word.
#[derive(Clone, Copy, Debug, PartialEq, Eq, Structural)]
pub struct ModifierFlags {
    pub bits: u64,
}

impl ModifierFlags {
    /// No flag set.
    pub fn empty() -> (r: Self)
        ensures
            r.bits == 0,
    {
        ModifierFlags { bits: 0 }
    }

    /// The option (alt) key.
    pub fn alternate() -> (r: Self)
        ensures
            r.bits == ALTERNATE_BIT,
    {
        ModifierFlags { bits: ALTERNATE_BIT }
    }

    /// The command key.
    pub fn command() -> (r: Self)
        ensures
            r.bits == COMMAND_BIT,
    {
        ModifierFlags { bits: COMMAND_BIT }
    }

    /// The shift key.
    pub fn shift() -> (r: Self)
        ensures
            r.bits == SHIFT_BIT,
    {
        ModifierFlags { bits: SHIFT_BIT }
    }

    /// The control key.
    pub fn control() -> (r: Self)
        ensures
            r.bits == CONTROL_BIT,
    {
        ModifierFlags { bits: CONTROL_BIT }
    }

    /// The union of two flag sets.
    pub fn union(self, other: Self) -> (r: Self)
        ensures
            r.bits == self.bits | other.bits,
    {
        ModifierFlags { bits: self.bits | other.bits }
    }

    /// Whether every flag of `other` is set in `self`.
    pub fn contains(&self, other: Self) -> (r: bool)
        ensures
            r == (self.bits & other.bits == other.bits),
    {
        self.bits & other.bits == other.bits
    }
}

/// The modifier flag of a modifier name that is already in lower case.
pub open spec fn lowercase_modifier_bits(name: Seq<char>) -> Option<u64> {
    if name == "alt"@ || name == "option"@ || name == "opt"@ {
        Some(ALTERNATE_BIT)
    } else if name == "cmd"@ || name == "command"@ {
        Some(COMMAND_BIT)
    } else if name == "shift"@ {
        Some(SHIFT_BIT)
    } else if name == "ctrl"@ || name == "control"@ {
        Some(CONTROL_BIT)
    } else {
        None
    }
}

/// The modifier flag of a modifier name, matched without regard to case.
pub open spec fn modifier_bits(name: Seq<char>) -> Option<u64> {
    if is_ascii_chars(name) {
        lowercase_modifier_bits(ascii_lowercase(name))
    } else {
        lowercase_modifier_bits(lowercase(name))
    }
}

/// Looks up the modifier flag of a modifier name already in lower case.
pub fn modifier_for_lowercase_name(name: &str) -> (r: Option<ModifierFlags>)
    ensures
        r matches Some(f) ==> lowercase_modifier_bits(name@) == Some(f.bits),
        r is None ==> lowercase_modifier_bits(name@) is None,
{
    if str_eq(name, "alt") || str_eq(name, "option") || str_eq(name, "opt") {
        Some(ModifierFlags::alternate())
    } else if str_eq(name, "cmd") || str_eq(name, "command") {
        Some(ModifierFlags::command())
    } else if str_eq(name, "shift") {
        Some(ModifierFlags::shift())
    } else if str_eq(name, "ctrl") || str_eq(name, "control") {
        Some(ModifierFlags::control())
    } else {
        None
    }
}

/// The modifier flag of a modifier name, matched without regard to case.
/// For an ASCII name this is the flag of its ASCII lower case.
pub fn modifier_name_to_flag(name: &str) -> (r: Option<ModifierFlags>)
    ensures
        r matches Some(f) ==> modifier_bits(name@) == Some(f.bits),
        r is None ==> modifier_bits(name@) is None,
{
    let lower = to_lowercase(name);
    modifier_for_lowercase_name(lower.as_str())
}

/// A name in lower-case ASCII is its own ASCII lower case.
proof fn lemma_lowercase_word(s: Seq<char>)
    requires
        forall|i: int| 0 <= i < s.len() ==> 'a' <= #[trigger] s[i] <= 'z',
    ensures
        is_ascii_chars(s),
        ascii_lowercase(s) == s,
{
    assert(ascii_lowercase(s) =~= s);
}

proof fn lemma_lowercase_char(c: char)
    requires
        ('a' <= c <= 'z') || ('0' <= c <= '9'),
    ensures
        is_ascii_chars(seq![c]),
        ascii_lowercase(seq![c]) == seq![c],
{
    assert(ascii_lowercase(seq![c]) =~= seq![c]);
}

/// For ASCII names, case does not matter: two names with the same ASCII
/// lower case name the same key and the same modifier, and a name names
/// what its lower case names.
pub proof fn law_ascii_names_ignore_case(a: Seq<char>, b: Seq<char>)
    requires
        is_ascii_chars(a),
        is_ascii_chars(b),
        ascii_lowercase(a) == ascii_lowercase(b),
    ensures
        key_code(a) == key_code(b),
        modifier_bits(a) == modifier_bits(b),
        key_code(ascii_lowercase(a)) == key_code(a),
        modifier_bits(ascii_lowercase(a)) == modifier_bits(a),
{
    let l = ascii_lowercase(a);
    assert(is_ascii_chars(l));
    assert(ascii_lowercase(l) =~= l);
}

/// Every keycode is at most 53 and is neither 10 nor 52.
pub proof fn law_keycode_range(name: Seq<char>)
    ensures
        key_code(name) matches Some(k) ==> k <= 53 && k != 10 && k != 52,
{
}

/// Every keycode from 0 to 53 but 10 and 52 has a name.
pub proof fn law_every_keycode_named(k: u16)
    requires
        k <= 53,
        k != 10,
        k != 52,
    ensures
        exists|name: Seq<char>| #[trigger] key_code(name) == Some(k),
{
    reveal_strlit("space");
    reveal_strlit("return");
    reveal_strlit("enter");
    reveal_strlit("tab");
    reveal_strlit("escape");
    reveal_strlit("esc");
    reveal_strlit("backspace");
    reveal_strlit("delete");
    reveal_strlit("minus");
    reveal_strlit("equal");
    reveal_strlit("equals");
    reveal_strlit("leftbracket");
    reveal_strlit("rightbracket");
    reveal_strlit("semicolon");
    reveal_strlit("quote");
    reveal_strlit("comma");
    reveal_strlit("period");
    reveal_strlit("slash");
    reveal_strlit("backslash");
    reveal_strlit("backtick");
    reveal_strlit("grave");
    if false {
    } else if k == 0 {
        lemma_lowercase_char('a');
        assert(key_code(seq!['a']) == Some(0u16));
    } else if k == 1 {
        lemma_lowercase_char('s');
        assert(key_code(seq!['s']) == Some(1u16));
    } else if k == 2 {
        lemma_lowercase_char('d');
        assert(key_code(seq!['d']) == Some(2u16));
    } else if k == 3 {
        lemma_lowercase_char('f');
        assert(key_code(seq!['f']) == Some(3u16));
    } else if k == 4 {
        lemma_lowercase_char('h');
        assert(key_code(seq!['h']) == Some(4u16));
    } else if k == 5 {
        lemma_lowercase_char('g');
        assert(key_code(seq!['g']) == Some(5u16));
    } else if k == 6 {
        lemma_lowercase_char('z');
        assert(key_code(seq!['z']) == Some(6u16));
    } else if k == 7 {
        lemma_lowercase_char('x');
        assert(key_code(seq!['x']) == Some(7u16));
    } else if k == 8 {
        lemma_lowercase_char('c');
        assert(key_code(seq!['c']) == Some(8u16));
    } else if k == 9 {
        lemma_lowercase_char('v');
        assert(key_code(seq!['v']) == Some(9u16));
    } else if k == 11 {
        lemma_lowercase_char('b');
        assert(key_code(seq!['b']) == Some(11u16));
    } else if k == 12 {
        lemma_lowercase_char('q');
        assert(key_code(seq!['q']) == Some(12u16));
    } else if k == 13 {
        lemma_lowercase_char('w');
        assert(key_code(seq!['w']) == Some(13u16));
    } else if k == 14 {
        lemma_lowercase_char('e');
        assert(key_code(seq!['e']) == Some(14u16));
    } else if k == 15 {
        lemma_lowercase_char('r');
        assert(key_code(seq!['r']) == Some(15u16));
    } else if k == 16 {
        lemma_lowercase_char('y');
        assert(key_code(seq!['y']) == Some(16u16));
    } else if k == 17 {
        lemma_lowercase_char('t');
        assert(key_code(seq!['t']) == Some(17u16));
    } else if k == 18 {
        lemma_lowercase_char('1');
        assert(key_code(seq!['1']) == Some(18u16));
    } else if k == 19 {
        lemma_lowercase_char('2');
        assert(key_code(seq!['2']) == Some(19u16));
    } else if k == 20 {
        lemma_lowercase_char('3');
        assert(key_code(seq!['3']) == Some(20u16));
    } else if k == 21 {
        lemma_lowercase_char('4');
        assert(key_code(seq!['4']) == Some(21u16));
    } else if k == 22 {
        lemma_lowercase_char('6');
        assert(key_code(seq!['6']) == Some(22u16));
    } else if k == 23 {
        lemma_lowercase_char('5');
        assert(key_code(seq!['5']) == Some(23u16));
    } else if k == 25 {
        lemma_lowercase_char('9');
        assert(key_code(seq!['9']) == Some(25u16));
    } else if k == 26 {
        lemma_lowercase_char('7');
        assert(key_code(seq!['7']) == Some(26u16));
    } else if k == 28 {
        lemma_lowercase_char('8');
        assert(key_code(seq!['8']) == Some(28u16));
    } else if k == 29 {
        lemma_lowercase_char('0');
        assert(key_code(seq!['0']) == Some(29u16));
    } else if k == 31 {
        lemma_lowercase_char('o');
        assert(key_code(seq!['o']) == Some(31u16));
    } else if k == 32 {
        lemma_lowercase_char('u');
        assert(key_code(seq!['u']) == Some(32u16));
    } else if k == 34 {
        lemma_lowercase_char('i');
        assert(key_code(seq!['i']) == Some(34u16));
    } else if k == 35 {
        lemma_lowercase_char('p');
        assert(key_code(seq!['p']) == Some(35u16));
    } else if k == 37 {
        lemma_lowercase_char('l');
        assert(key_code(seq!['l']) == Some(37u16));
    } else if k == 38 {
        lemma_lowercase_char('j');
        assert(key_code(seq!['j']) == Some(38u16));
    } else if k == 40 {
        lemma_lowercase_char('k');
        assert(key_code(seq!['k']) == Some(40u16));
    } else if k == 45 {
        lemma_lowercase_char('n');
        assert(key_code(seq!['n']) == Some(45u16));
    } else if k == 46 {
        lemma_lowercase_char('m');
        assert(key_code(seq!['m']) == Some(46u16));
    } else if k == 24 {
        lemma_lowercase_word("equal"@);
        assert("equal"@[0] != "space"@[0]);
        assert("equal"@[1] != "enter"@[1]);
        assert("equal"@[0] != "minus"@[0]);
        assert(key_code("equal"@) == Some(24u16));
    } else if k == 27 {
        lemma_lowercase_word("minus"@);
        assert("minus"@[0] != "space"@[0]);
        assert("minus"@[0] != "enter"@[0]);
        assert(key_code("minus"@) == Some(27u16));
    } else if k == 30 {
        lemma_lowercase_word("rightbracket"@);
        assert(key_code("rightbracket"@) == Some(30u16));
    } else if k == 33 {
        lemma_lowercase_word("leftbracket"@);
        assert(key_code("leftbracket"@) == Some(33u16));
    } else if k == 36 {
        lemma_lowercase_word("return"@);
        assert(key_code("return"@) == Some(36u16));
    } else if k == 39 {
        lemma_lowercase_word("quote"@);
        assert("quote"@[0] != "space"@[0]);
        assert("quote"@[0] != "enter"@[0]);
        assert("quote"@[0] != "minus"@[0]);
        assert("quote"@[0] != "equal"@[0]);
        assert(key_code("quote"@) == Some(39u16));
    } else if k == 41 {
        lemma_lowercase_word("semicolon"@);
        assert("semicolon"@[0] != "backspace"@[0]);
        assert(key_code("semicolon"@) == Some(41u16));
    } else if k == 42 {
        lemma_lowercase_word("backslash"@);
        assert("backslash"@[5] != "backspace"@[5]);
        assert("backslash"@[0] != "semicolon"@[0]);
        assert(key_code("backslash"@) == Some(42u16));
    } else if k == 43 {
        lemma_lowercase_word("comma"@);
        assert("comma"@[0] != "space"@[0]);
        assert("comma"@[0] != "enter"@[0]);
        assert("comma"@[0] != "minus"@[0]);
        assert("comma"@[0] != "equal"@[0]);
        assert("comma"@[0] != "quote"@[0]);
        assert(key_code("comma"@) == Some(43u16));
    } else if k == 44 {
        lemma_lowercase_word("slash"@);
        assert("slash"@[1] != "space"@[1]);
        assert("slash"@[0] != "enter"@[0]);
        assert("slash"@[0] != "minus"@[0]);
        assert("slash"@[0] != "equal"@[0]);
        assert("slash"@[0] != "quote"@[0]);
        assert("slash"@[0] != "comma"@[0]);
        assert(key_code("slash"@) == Some(44u16));
    } else if k == 47 {
        lemma_lowercase_word("period"@);
        assert("period"@[0] != "return"@[0]);
        assert("period"@[0] != "escape"@[0]);
        assert("period"@[0] != "delete"@[0]);
        assert("period"@[0] != "equals"@[0]);
        assert(key_code("period"@) == Some(47u16));
    } else if k == 48 {
        lemma_lowercase_word("tab"@);
        assert(key_code("tab"@) == Some(48u16));
    } else if k == 49 {
        lemma_lowercase_word("space"@);
        assert(key_code("space"@) == Some(49u16));
    } else if k == 50 {
        lemma_lowercase_word("backtick"@);
        assert(key_code("backtick"@) == Some(50u16));
    } else if k == 51 {
        lemma_lowercase_word("backspace"@);
        assert(key_code("backspace"@) == Some(51u16));
    } else if k == 53 {
        lemma_lowercase_word("escape"@);
        assert("escape"@[0] != "return"@[0]);
        assert(key_code("escape"@) == Some(53u16));
    }
}

/// The names that share a keycode are the alias pairs return and enter,
/// escape and esc, backspace and delete, equal and equals, backtick and
/// grave.
pub open spec fn alias_pair(a: Seq<char>, b: Seq<char>) -> bool {
    ||| a == "return"@ && b == "enter"@
    ||| a == "escape"@ && b == "esc"@
    ||| a == "backspace"@ && b == "delete"@
    ||| a == "equal"@ && b == "equals"@
    ||| a == "backtick"@ && b == "grave"@
}

/// Two different lower-case names share a keycode only where they are an
/// alias pair.
pub proof fn law_shared_keycodes_are_aliases(a: Seq<char>, b: Seq<char>)
    requires
        lowercase_key_code(a) is Some,
        lowercase_key_code(a) == lowercase_key_code(b),
        a != b,
    ensures
        alias_pair(a, b) || alias_pair(b, a),
{
    if a.len() == 1 && b.len() == 1 {
        assert(a[0] == b[0]);
        assert(a =~= b);
    }
}

/// A name of lower-case letters and digits is ASCII and its own lower case.
proof fn lemma_plain_name(s: Seq<char>)
    requires
        forall|i: int| 0 <= i < s.len() ==> ('a' <= #[trigger] s[i] <= 'z') || ('0' <= s[i] <= '9'),
    ensures
        is_ascii_chars(s),
        ascii_lowercase(s) == s,
{
    assert(ascii_lowercase(s) =~= s);
}

/// The macOS virtual keycode of each key name (ANSI layout): the letters,
/// the digits, and the named keys.
pub proof fn law_key_table()
    ensures
        key_code("a"@) == Some(0u16),
        key_code("s"@) == Some(1u16),
        key_code("d"@) == Some(2u16),
        key_code("f"@) == Some(3u16),
        key_code("h"@) == Some(4u16),
        key_code("g"@) == Some(5u16),
        key_code("z"@) == Some(6u16),
        key_code("x"@) == Some(7u16),
        key_code("c"@) == Some(8u16),
        key_code("v"@) == Some(9u16),
        key_code("b"@) == Some(11u16),
        key_code("q"@) == Some(12u16),
        key_code("w"@) == Some(13u16),
        key_code("e"@) == Some(14u16),
        key_code("r"@) == Some(15u16),
        key_code("y"@) == Some(16u16),
        key_code("t"@) == Some(17u16),
        key_code("1"@) == Some(18u16),
        key_code("2"@) == Some(19u16),
        key_code("3"@) == Some(20u16),
        key_code("4"@) == Some(21u16),
        key_code("5"@) == Some(23u16),
        key_code("6"@) == Some(22u16),
        key_code("7"@) == Some(26u16),
        key_code("8"@) == Some(28u16),
        key_code("9"@) == Some(25u16),
        key_code("0"@) == Some(29u16),
        key_code("o"@) == Some(31u16),
        key_code("u"@) == Some(32u16),
        key_code("i"@) == Some(34u16),
        key_code("p"@) == Some(35u16),
        key_code("l"@) == Some(37u16),
        key_code("j"@) == Some(38u16),
        key_code("k"@) == Some(40u16),
        key_code("n"@) == Some(45u16),
        key_code("m"@) == Some(46u16),
        key_code("space"@) == Some(49u16),
        key_code("return"@) == Some(36u16),
        key_code("enter"@) == Some(36u16),
        key_code("tab"@) == Some(48u16),
        key_code("escape"@) == Some(53u16),
        key_code("esc"@) == Some(53u16),
        key_code("backspace"@) == Some(51u16),
        key_code("delete"@) == Some(51u16),
        key_code("minus"@) == Some(27u16),
        key_code("equal"@) == Some(24u16),
        key_code("equals"@) == Some(24u16),
        key_code("leftbracket"@) == Some(33u16),
        key_code("rightbracket"@) == Some(30u16),
        key_code("semicolon"@) == Some(41u16),
        key_code("quote"@) == Some(39u16),
        key_code("comma"@) == Some(43u16),
        key_code("period"@) == Some(47u16),
        key_code("slash"@) == Some(44u16),
        key_code("backslash"@) == Some(42u16),
        key_code("backtick"@) == Some(50u16),
        key_code("grave"@) == Some(50u16),
{
    reveal_strlit("a");
    reveal_strlit("s");
    reveal_strlit("d");
    reveal_strlit("f");
    reveal_strlit("h");
    reveal_strlit("g");
    reveal_strlit("z");
    reveal_strlit("x");
    reveal_strlit("c");
    reveal_strlit("v");
    reveal_strlit("b");
    reveal_strlit("q");
    reveal_strlit("w");
    reveal_strlit("e");
    reveal_strlit("r");
    reveal_strlit("y");
    reveal_strlit("t");
    reveal_strlit("1");
    reveal_strlit("2");
    reveal_strlit("3");
    reveal_strlit("4");
    reveal_strlit("5");
    reveal_strlit("6");
    reveal_strlit("7");
    reveal_strlit("8");
    reveal_strlit("9");
    reveal_strlit("0");
    reveal_strlit("o");
    reveal_strlit("u");
    reveal_strlit("i");
    reveal_strlit("p");
    reveal_strlit("l");
    reveal_strlit("j");
    reveal_strlit("k");
    reveal_strlit("n");
    reveal_strlit("m");
    reveal_strlit("space");
    reveal_strlit("return");
    reveal_strlit("enter");
    reveal_strlit("tab");
    reveal_strlit("escape");
    reveal_strlit("esc");
    reveal_strlit("backspace");
    reveal_strlit("delete");
    reveal_strlit("minus");
    reveal_strlit("equal");
    reveal_strlit("equals");
    reveal_strlit("leftbracket");
    reveal_strlit("rightbracket");
    reveal_strlit("semicolon");
    reveal_strlit("quote");
    reveal_strlit("comma");
    reveal_strlit("period");
    reveal_strlit("slash");
    reveal_strlit("backslash");
    reveal_strlit("backtick");
    reveal_strlit("grave");
    lemma_plain_name("a"@);
    assert(key_code("a"@) == Some(0u16));
    lemma_plain_name("s"@);
    assert(key_code("s"@) == Some(1u16));
    lemma_plain_name("d"@);
    assert(key_code("d"@) == Some(2u16));
    lemma_plain_name("f"@);
    assert(key_code("f"@) == Some(3u16));
    lemma_plain_name("h"@);
    assert(key_code("h"@) == Some(4u16));
    lemma_plain_name("g"@);
    assert(key_code("g"@) == Some(5u16));
    lemma_plain_name("z"@);
    assert(key_code("z"@) == Some(6u16));
    lemma_plain_name("x"@);
    assert(key_code("x"@) == Some(7u16));
    lemma_plain_name("c"@);
    assert(key_code("c"@) == Some(8u16));
    lemma_plain_name("v"@);
    assert(key_code("v"@) == Some(9u16));
    lemma_plain_name("b"@);
    assert(key_code("b"@) == Some(11u16));
    lemma_plain_name("q"@);
    assert(key_code("q"@) == Some(12u16));
    lemma_plain_name("w"@);
    assert(key_code("w"@) == Some(13u16));
    lemma_plain_name("e"@);
    assert(key_code("e"@) == Some(14u16));
    lemma_plain_name("r"@);
    assert(key_code("r"@) == Some(15u16));
    lemma_plain_name("y"@);
    assert(key_code("y"@) == Some(16u16));
    lemma_plain_name("t"@);
    assert(key_code("t"@) == Some(17u16));
    lemma_plain_name("1"@);
    assert(key_code("1"@) == Some(18u16));
    lemma_plain_name("2"@);
    assert(key_code("2"@) == Some(19u16));
    lemma_plain_name("3"@);
    assert(key_code("3"@) == Some(20u16));
    lemma_plain_name("4"@);
    assert(key_code("4"@) == Some(21u16));
    lemma_plain_name("5"@);
    assert(key_code("5"@) == Some(23u16));
    lemma_plain_name("6"@);
    assert(key_code("6"@) == Some(22u16));
    lemma_plain_name("7"@);
    assert(key_code("7"@) == Some(26u16));
    lemma_plain_name("8"@);
    assert(key_code("8"@) == Some(28u16));
    lemma_plain_name("9"@);
    assert(key_code("9"@) == Some(25u16));
    lemma_plain_name("0"@);
    assert(key_code("0"@) == Some(29u16));
    lemma_plain_name("o"@);
    assert(key_code("o"@) == Some(31u16));
    lemma_plain_name("u"@);
    assert(key_code("u"@) == Some(32u16));
    lemma_plain_name("i"@);
    assert(key_code("i"@) == Some(34u16));
    lemma_plain_name("p"@);
    assert(key_code("p"@) == Some(35u16));
    lemma_plain_name("l"@);
    assert(key_code("l"@) == Some(37u16));
    lemma_plain_name("j"@);
    assert(key_code("j"@) == Some(38u16));
    lemma_plain_name("k"@);
    assert(key_code("k"@) == Some(40u16));
    lemma_plain_name("n"@);
    assert(key_code("n"@) == Some(45u16));
    lemma_plain_name("m"@);
    assert(key_code("m"@) == Some(46u16));
    lemma_plain_name("space"@);
    assert(key_code("space"@) == Some(49u16));
    lemma_plain_name("return"@);
    assert(key_code("return"@) == Some(36u16));
    lemma_plain_name("enter"@);
    assert("enter"@[0] != "space"@[0]);
    assert(key_code("enter"@) == Some(36u16));
    lemma_plain_name("tab"@);
    assert(key_code("tab"@) == Some(48u16));
    lemma_plain_name("escape"@);
    assert("escape"@[0] != "return"@[0]);
    assert(key_code("escape"@) == Some(53u16));
    lemma_plain_name("esc"@);
    assert("esc"@[0] != "tab"@[0]);
    assert(key_code("esc"@) == Some(53u16));
    lemma_plain_name("backspace"@);
    assert(key_code("backspace"@) == Some(51u16));
    lemma_plain_name("delete"@);
    assert("delete"@[0] != "return"@[0]);
    assert("delete"@[0] != "escape"@[0]);
    assert(key_code("delete"@) == Some(51u16));
    lemma_plain_name("minus"@);
    assert("minus"@[0] != "space"@[0]);
    assert("minus"@[0] != "enter"@[0]);
    assert(key_code("minus"@) == Some(27u16));
    lemma_plain_name("equal"@);
    assert("equal"@[0] != "space"@[0]);
    assert("equal"@[1] != "enter"@[1]);
    assert("equal"@[0] != "minus"@[0]);
    assert(key_code("equal"@) == Some(24u16));
    lemma_plain_name("equals"@);
    assert("equals"@[0] != "return"@[0]);
    assert("equals"@[1] != "escape"@[1]);
    assert("equals"@[0] != "delete"@[0]);
    assert(key_code("equals"@) == Some(24u16));
    lemma_plain_name("leftbracket"@);
    assert(key_code("leftbracket"@) == Some(33u16));
    lemma_plain_name("rightbracket"@);
    assert(key_code("rightbracket"@) == Some(30u16));
    lemma_plain_name("semicolon"@);
    assert("semicolon"@[0] != "backspace"@[0]);
    assert(key_code("semicolon"@) == Some(41u16));
    lemma_plain_name("quote"@);
    assert("quote"@[0] != "space"@[0]);
    assert("quote"@[0] != "enter"@[0]);
    assert("quote"@[0] != "minus"@[0]);
    assert("quote"@[0] != "equal"@[0]);
    assert(key_code("quote"@) == Some(39u16));
    lemma_plain_name("comma"@);
    assert("comma"@[0] != "space"@[0]);
    assert("comma"@[0] != "enter"@[0]);
    assert("comma"@[0] != "minus"@[0]);
    assert("comma"@[0] != "equal"@[0]);
    assert("comma"@[0] != "quote"@[0]);
    assert(key_code("comma"@) == Some(43u16));
    lemma_plain_name("period"@);
    assert("period"@[0] != "return"@[0]);
    assert("period"@[0] != "escape"@[0]);
    assert("period"@[0] != "delete"@[0]);
    assert("period"@[0] != "equals"@[0]);
    assert(key_code("period"@) == Some(47u16));
    lemma_plain_name("slash"@);
    assert("slash"@[1] != "space"@[1]);
    assert("slash"@[0] != "enter"@[0]);
    assert("slash"@[0] != "minus"@[0]);
    assert("slash"@[0] != "equal"@[0]);
    assert("slash"@[0] != "quote"@[0]);
    assert("slash"@[0] != "comma"@[0]);
    assert(key_code("slash"@) == Some(44u16));
    lemma_plain_name("backslash"@);
    assert("backslash"@[5] != "backspace"@[5]);
    assert("backslash"@[0] != "semicolon"@[0]);
    assert(key_code("backslash"@) == Some(42u16));
    lemma_plain_name("backtick"@);
    assert(key_code("backtick"@) == Some(50u16));
    lemma_plain_name("grave"@);
    assert("grave"@[0] != "space"@[0]);
    assert("grave"@[0] != "enter"@[0]);
    assert("grave"@[0] != "minus"@[0]);
    assert("grave"@[0] != "equal"@[0]);
    assert("grave"@[0] != "quote"@[0]);
    assert("grave"@[0] != "comma"@[0]);
    assert("grave"@[0] != "slash"@[0]);
    assert(key_code("grave"@) == Some(50u16));
}

/// The event flag of each modifier name: alt, option and opt are the
/// option key (0x80000), cmd and command the command key (0x100000), shift
/// the shift key (0x20000), ctrl and control the control key (0x40000).
pub proof fn law_modifier_table()
    ensures
        modifier_bits("alt"@) == Some(0x0008_0000u64),
        modifier_bits("option"@) == Some(0x0008_0000u64),
        modifier_bits("opt"@) == Some(0x0008_0000u64),
        modifier_bits("cmd"@) == Some(0x0010_0000u64),
        modifier_bits("command"@) == Some(0x0010_0000u64),
        modifier_bits("shift"@) == Some(0x0002_0000u64),
        modifier_bits("ctrl"@) == Some(0x0004_0000u64),
        modifier_bits("control"@) == Some(0x0004_0000u64),
{
    reveal_strlit("alt");
    reveal_strlit("option");
    reveal_strlit("opt");
    reveal_strlit("cmd");
    reveal_strlit("command");
    reveal_strlit("shift");
    reveal_strlit("ctrl");
    reveal_strlit("control");
    lemma_plain_name("alt"@);
    assert(modifier_bits("alt"@) == Some(0x0008_0000u64));
    lemma_plain_name("option"@);
    assert(modifier_bits("option"@) == Some(0x0008_0000u64));
    lemma_plain_name("opt"@);
    assert("opt"@[0] != "alt"@[0]);
    assert(modifier_bits("opt"@) == Some(0x0008_0000u64));
    lemma_plain_name("cmd"@);
    assert("cmd"@[0] != "alt"@[0]);
    assert("cmd"@[0] != "opt"@[0]);
    assert(modifier_bits("cmd"@) == Some(0x0010_0000u64));
    lemma_plain_name("command"@);
    assert(modifier_bits("command"@) == Some(0x0010_0000u64));
    lemma_plain_name("shift"@);
    assert(modifier_bits("shift"@) == Some(0x0002_0000u64));
    lemma_plain_name("ctrl"@);
    assert(modifier_bits("ctrl"@) == Some(0x0004_0000u64));
    lemma_plain_name("control"@);
    assert("control"@[2] != "command"@[2]);
    assert(modifier_bits("control"@) == Some(0x0004_0000u64));
}

/// Only the names of the key table have a keycode: one letter or digit, or
/// one of the named keys.
pub proof fn law_only_table_names(name: Seq<char>)
    ensures
        lowercase_key_code(name) is Some ==> (name.len() == 1 && (name[0] == 'a' || name[0] == 's' || name[0] == 'd' || name[0] == 'f' || name[0] == 'h' || name[0] == 'g' || name[0] == 'z' || name[0] == 'x' || name[0] == 'c' || name[0] == 'v' || name[0] == 'b' || name[0] == 'q' || name[0] == 'w' || name[0] == 'e' || name[0] == 'r' || name[0] == 'y' || name[0] == 't' || name[0] == '1' || name[0] == '2' || name[0] == '3' || name[0] == '4' || name[0] == '5' || name[0] == '6' || name[0] == '7' || name[0] == '8' || name[0] == '9' || name[0] == '0' || name[0] == 'o' || name[0] == 'u' || name[0] == 'i' || name[0] == 'p' || name[0] == 'l' || name[0] == 'j' || name[0] == 'k' || name[0] == 'n' || name[0] == 'm')) || name == "space"@
            || name == "return"@
            || name == "enter"@
            || name == "tab"@
            || name == "escape"@
            || name == "esc"@
            || name == "backspace"@
            || name == "delete"@
            || name == "minus"@
            || name == "equal"@
            || name == "equals"@
            || name == "leftbracket"@
            || name == "rightbracket"@
            || name == "semicolon"@
            || name == "quote"@
            || name == "comma"@
            || name == "period"@
            || name == "slash"@
            || name == "backslash"@
            || name == "backtick"@
            || name == "grave"@,
{
}

/// Only alt, option, opt, cmd, command, shift, ctrl and control are
/// modifier names.
pub proof fn law_only_modifier_names(name: Seq<char>)
    ensures
        lowercase_modifier_bits(name) is Some ==> name == "alt"@ || name == "option"@ || name
            == "opt"@ || name == "cmd"@ || name == "command"@ || name == "shift"@ || name
            == "ctrl"@ || name == "control"@,
{
}

/// An ASCII capital letter names the same key as its small letter
/// (`A` is 0x41, `a` is 0x61), and other ASCII chars are not folded.
pub proof fn law_capital_letters(c: char, d: char)
    requires
        'A' <= c <= 'Z',
        d as u32 == c as u32 + 0x20,
    ensures
        key_code(seq![c]) == key_code(seq![d]),
        ascii_lowercase(seq![c]) == seq![d],
        ascii_lowercase(seq![d]) == seq![d],
{
    assert(ascii_lowercase(seq![c]) =~= seq![d]);
    assert(ascii_lowercase(seq![d]) =~= seq![d]);
}

/// Lower case leaves every ASCII char but a capital letter as it is.
pub proof fn law_lower_case_keeps_others(c: char)
    requires
        c <= '\u{7f}',
        !('A' <= c <= 'Z'),
    ensures
        ascii_lowercase(seq![c]) == seq![c],
{
    assert(ascii_lowercase(seq![c]) =~= seq![c]);
}

} // verus!
