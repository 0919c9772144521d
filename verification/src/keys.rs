//! Global hotkeys: the key-code tables, shortcut strings, the binding table
//! and the decision taken for each key press seen at the HID event tap.
//!
//! Only combinations that carry a modifier are accepted (a bare letter would
//! collide with typing). The binding table can be changed while the tap runs,
//! and a "record" mode captures the next combination the user presses.
use vstd::prelude::*;
use vstd::string::StringExecFns;
use crate::text;

verus! {

broadcast use vstd::string::group_string_axioms;

/// `CGEventFlags` bit of the control key.
pub const F_CTRL: u64 = 0x0004_0000;
/// `CGEventFlags` bit of the shift key.
pub const F_SHIFT: u64 = 0x0002_0000;
/// `CGEventFlags` bit of the command key.
pub const F_CMD: u64 = 0x0010_0000;
/// `CGEventFlags` bit of the option (alt) key.
pub const F_ALT: u64 = 0x0008_0000;
/// All four modifier bits that bindings are matched on.
pub const F_MODS_ALL: u64 = 0x001E_0000;

/// Key code of the Escape key, which cancels record mode.
pub const KC_ESCAPE: u32 = 53;
/// Key code of the V key (command-V is a paste).
pub const KC_V: u32 = 9;

// ---------------------------------------------------------------------------
// Key-code tables
// ---------------------------------------------------------------------------

/// The name of a key code, as the shortcut strings write it.
pub open spec fn key_name(kc: u32) -> Option<Seq<char>> {
    match kc {
        0 => Some(seq!['a']),
        1 => Some(seq!['s']),
        2 => Some(seq!['d']),
        3 => Some(seq!['f']),
        4 => Some(seq!['h']),
        5 => Some(seq!['g']),
        6 => Some(seq!['z']),
        7 => Some(seq!['x']),
        8 => Some(seq!['c']),
        9 => Some(seq!['v']),
        11 => Some(seq!['b']),
        12 => Some(seq!['q']),
        13 => Some(seq!['w']),
        14 => Some(seq!['e']),
        15 => Some(seq!['r']),
        16 => Some(seq!['y']),
        17 => Some(seq!['t']),
        31 => Some(seq!['o']),
        32 => Some(seq!['u']),
        34 => Some(seq!['i']),
        35 => Some(seq!['p']),
        37 => Some(seq!['l']),
        38 => Some(seq!['j']),
        40 => Some(seq!['k']),
        45 => Some(seq!['n']),
        46 => Some(seq!['m']),
        29 => Some(seq!['0']),
        18 => Some(seq!['1']),
        19 => Some(seq!['2']),
        20 => Some(seq!['3']),
        21 => Some(seq!['4']),
        23 => Some(seq!['5']),
        22 => Some(seq!['6']),
        26 => Some(seq!['7']),
        28 => Some(seq!['8']),
        25 => Some(seq!['9']),
        96 => Some(seq!['f', '5']),
        97 => Some(seq!['f', '6']),
        98 => Some(seq!['f', '7']),
        99 => Some(seq!['f', '3']),
        100 => Some(seq!['f', '8']),
        101 => Some(seq!['f', '9']),
        109 => Some(seq!['f', '1', '0']),
        103 => Some(seq!['f', '1', '1']),
        111 => Some(seq!['f', '1', '2']),
        120 => Some(seq!['f', '2']),
        122 => Some(seq!['f', '1']),
        118 => Some(seq!['f', '4']),
        _ => None,
    }
}

/// The key code of a one-character key name.
pub open spec fn single_key_code(c: char) -> Option<u32> {
    match c {
        'a' => Some(0u32),
        's' => Some(1u32),
        'd' => Some(2u32),
        'f' => Some(3u32),
        'h' => Some(4u32),
        'g' => Some(5u32),
        'z' => Some(6u32),
        'x' => Some(7u32),
        'c' => Some(8u32),
        'v' => Some(9u32),
        'b' => Some(11u32),
        'q' => Some(12u32),
        'w' => Some(13u32),
        'e' => Some(14u32),
        'r' => Some(15u32),
        'y' => Some(16u32),
        't' => Some(17u32),
        'o' => Some(31u32),
        'u' => Some(32u32),
        'i' => Some(34u32),
        'p' => Some(35u32),
        'l' => Some(37u32),
        'j' => Some(38u32),
        'k' => Some(40u32),
        'n' => Some(45u32),
        'm' => Some(46u32),
        '0' => Some(29u32),
        '1' => Some(18u32),
        '2' => Some(19u32),
        '3' => Some(20u32),
        '4' => Some(21u32),
        '5' => Some(23u32),
        '6' => Some(22u32),
        '7' => Some(26u32),
        '8' => Some(28u32),
        '9' => Some(25u32),
        _ => None,
    }
}

/// The key code of the function key `f<d>` for one digit `d`.
pub open spec fn f_key_code(d: char) -> Option<u32> {
    match d {
        '1' => Some(122u32),
        '2' => Some(120u32),
        '3' => Some(99u32),
        '4' => Some(118u32),
        '5' => Some(96u32),
        '6' => Some(97u32),
        '7' => Some(98u32),
        '8' => Some(100u32),
        '9' => Some(101u32),
        _ => None,
    }
}

/// The key code of the function key `f1<d>`.
pub open spec fn f1x_key_code(d: char) -> Option<u32> {
    match d {
        '0' => Some(109u32),
        '1' => Some(103u32),
        '2' => Some(111u32),
        _ => None,
    }
}

/// The key code of a key name: a letter, a digit or `f1` to `f12`.
pub open spec fn key_code(k: Seq<char>) -> Option<u32> {
    if k.len() == 1 {
        single_key_code(k[0])
    } else if k.len() == 2 && k[0] == 'f' {
        f_key_code(k[1])
    } else if k.len() == 3 && k[0] == 'f' && k[1] == '1' {
        f1x_key_code(k[2])
    } else {
        None
    }
}

/// The name of a key code, or `None` for a key the table does not know.
pub fn keycode_name(kc: u32) -> (r: Option<&'static str>)
    ensures
        match r {
            Some(n) => key_name(kc) == Some(n@),
            None => key_name(kc) is None,
        },
{
    match kc {
        0 => {
            proof {
                reveal_strlit("a");
            }
            Some("a")
        },
        1 => {
            proof {
                reveal_strlit("s");
            }
            Some("s")
        },
        2 => {
            proof {
                reveal_strlit("d");
            }
            Some("d")
        },
        3 => {
            proof {
                reveal_strlit("f");
            }
            Some("f")
        },
        4 => {
            proof {
                reveal_strlit("h");
            }
            Some("h")
        },
        5 => {
            proof {
                reveal_strlit("g");
            }
            Some("g")
        },
        6 => {
            proof {
                reveal_strlit("z");
            }
            Some("z")
        },
        7 => {
            proof {
                reveal_strlit("x");
            }
            Some("x")
        },
        8 => {
            proof {
                reveal_strlit("c");
            }
            Some("c")
        },
        9 => {
            proof {
                reveal_strlit("v");
            }
            Some("v")
        },
        11 => {
            proof {
                reveal_strlit("b");
            }
            Some("b")
        },
        12 => {
            proof {
                reveal_strlit("q");
            }
            Some("q")
        },
        13 => {
            proof {
                reveal_strlit("w");
            }
            Some("w")
        },
        14 => {
            proof {
                reveal_strlit("e");
            }
            Some("e")
        },
        15 => {
            proof {
                reveal_strlit("r");
            }
            Some("r")
        },
        16 => {
            proof {
                reveal_strlit("y");
            }
            Some("y")
        },
        17 => {
            proof {
                reveal_strlit("t");
            }
            Some("t")
        },
        31 => {
            proof {
                reveal_strlit("o");
            }
            Some("o")
        },
        32 => {
            proof {
                reveal_strlit("u");
            }
            Some("u")
        },
        34 => {
            proof {
                reveal_strlit("i");
            }
            Some("i")
        },
        35 => {
            proof {
                reveal_strlit("p");
            }
            Some("p")
        },
        37 => {
            proof {
                reveal_strlit("l");
            }
            Some("l")
        },
        38 => {
            proof {
                reveal_strlit("j");
            }
            Some("j")
        },
        40 => {
            proof {
                reveal_strlit("k");
            }
            Some("k")
        },
        45 => {
            proof {
                reveal_strlit("n");
            }
            Some("n")
        },
        46 => {
            proof {
                reveal_strlit("m");
            }
            Some("m")
        },
        29 => {
            proof {
                reveal_strlit("0");
            }
            Some("0")
        },
        18 => {
            proof {
                reveal_strlit("1");
            }
            Some("1")
        },
        19 => {
            proof {
                reveal_strlit("2");
            }
            Some("2")
        },
        20 => {
            proof {
                reveal_strlit("3");
            }
            Some("3")
        },
        21 => {
            proof {
                reveal_strlit("4");
            }
            Some("4")
        },
        23 => {
            proof {
                reveal_strlit("5");
            }
            Some("5")
        },
        22 => {
            proof {
                reveal_strlit("6");
            }
            Some("6")
        },
        26 => {
            proof {
                reveal_strlit("7");
            }
            Some("7")
        },
        28 => {
            proof {
                reveal_strlit("8");
            }
            Some("8")
        },
        25 => {
            proof {
                reveal_strlit("9");
            }
            Some("9")
        },
        96 => {
            proof {
                reveal_strlit("f5");
            }
            Some("f5")
        },
        97 => {
            proof {
                reveal_strlit("f6");
            }
            Some("f6")
        },
        98 => {
            proof {
                reveal_strlit("f7");
            }
            Some("f7")
        },
        99 => {
            proof {
                reveal_strlit("f3");
            }
            Some("f3")
        },
        100 => {
            proof {
                reveal_strlit("f8");
            }
            Some("f8")
        },
        101 => {
            proof {
                reveal_strlit("f9");
            }
            Some("f9")
        },
        109 => {
            proof {
                reveal_strlit("f10");
            }
            Some("f10")
        },
        103 => {
            proof {
                reveal_strlit("f11");
            }
            Some("f11")
        },
        111 => {
            proof {
                reveal_strlit("f12");
            }
            Some("f12")
        },
        120 => {
            proof {
                reveal_strlit("f2");
            }
            Some("f2")
        },
        122 => {
            proof {
                reveal_strlit("f1");
            }
            Some("f1")
        },
        118 => {
            proof {
                reveal_strlit("f4");
            }
            Some("f4")
        },
        _ => None,
    }
}

/// The key code of a key name (`"a"`, `"7"`, `"f11"`, ...), or `None`.
pub fn parse_keycode(k: &str) -> (r: Option<u32>)
    ensures
        r == key_code(k@),
{
    let v = text::chars_of(k);
    if v.len() == 1 {
        match v[0] {
            'a' => Some(0),
            's' => Some(1),
            'd' => Some(2),
            'f' => Some(3),
            'h' => Some(4),
            'g' => Some(5),
            'z' => Some(6),
            'x' => Some(7),
            'c' => Some(8),
            'v' => Some(9),
            'b' => Some(11),
            'q' => Some(12),
            'w' => Some(13),
            'e' => Some(14),
            'r' => Some(15),
            'y' => Some(16),
            't' => Some(17),
            'o' => Some(31),
            'u' => Some(32),
            'i' => Some(34),
            'p' => Some(35),
            'l' => Some(37),
            'j' => Some(38),
            'k' => Some(40),
            'n' => Some(45),
            'm' => Some(46),
            '0' => Some(29),
            '1' => Some(18),
            '2' => Some(19),
            '3' => Some(20),
            '4' => Some(21),
            '5' => Some(23),
            '6' => Some(22),
            '7' => Some(26),
            '8' => Some(28),
            '9' => Some(25),
            _ => None,
        }
    } else if v.len() == 2 && v[0] == 'f' {
        match v[1] {
                '1' => Some(122),
                '2' => Some(120),
                '3' => Some(99),
                '4' => Some(118),
                '5' => Some(96),
                '6' => Some(97),
                '7' => Some(98),
                '8' => Some(100),
                '9' => Some(101),
            _ => None,
        }
    } else if v.len() == 3 && v[0] == 'f' && v[1] == '1' {
        match v[2] {
                '0' => Some(109),
                '1' => Some(103),
                '2' => Some(111),
            _ => None,
        }
    } else {
        None
    }
}

/// The modifier words and the `CGEventFlags` bits they name: `alt` and
/// `option` the option key, `shift`, `ctrl` and `control` the control key,
/// `cmd` and `super` the command key; any other word names a key.
pub proof fn lemma_modifier_words()
    ensures
        F_ALT == 0x0008_0000,
        F_SHIFT == 0x0002_0000,
        F_CTRL == 0x0004_0000,
        F_CMD == 0x0010_0000,
        modifier_bit(seq!['a', 'l', 't']) == F_ALT,
        modifier_bit(seq!['o', 'p', 't', 'i', 'o', 'n']) == F_ALT,
        modifier_bit(seq!['s', 'h', 'i', 'f', 't']) == F_SHIFT,
        modifier_bit(seq!['c', 't', 'r', 'l']) == F_CTRL,
        modifier_bit(seq!['c', 'o', 'n', 't', 'r', 'o', 'l']) == F_CTRL,
        modifier_bit(seq!['c', 'm', 'd']) == F_CMD,
        modifier_bit(seq!['s', 'u', 'p', 'e', 'r']) == F_CMD,
        forall|k: Seq<char>| key_code(k) is Some ==> modifier_bit(k) == 0,
{
    assert forall|k: Seq<char>| key_code(k) is Some implies modifier_bit(k) == 0 by {
        lemma_key_code_name(k);
        assert(k.len() <= 3);
        if k.len() == 3 {
            assert(k[0] == 'f');
            assert(k != w_alt() && k != w_cmd());
        }
    }
}

/// The key names and their fixed macOS virtual key codes (`kVK_ANSI_*`
/// and `kVK_F*`): reading a name gives its code, and the table names each
/// code by that name.
pub proof fn lemma_key_table()
    ensures
        key_code(seq!['a']) == Some(0u32),
        key_code(seq!['s']) == Some(1u32),
        key_code(seq!['d']) == Some(2u32),
        key_code(seq!['f']) == Some(3u32),
        key_code(seq!['h']) == Some(4u32),
        key_code(seq!['g']) == Some(5u32),
        key_code(seq!['z']) == Some(6u32),
        key_code(seq!['x']) == Some(7u32),
        key_code(seq!['c']) == Some(8u32),
        key_code(seq!['v']) == Some(9u32),
        key_code(seq!['b']) == Some(11u32),
        key_code(seq!['q']) == Some(12u32),
        key_code(seq!['w']) == Some(13u32),
        key_code(seq!['e']) == Some(14u32),
        key_code(seq!['r']) == Some(15u32),
        key_code(seq!['y']) == Some(16u32),
        key_code(seq!['t']) == Some(17u32),
        key_code(seq!['o']) == Some(31u32),
        key_code(seq!['u']) == Some(32u32),
        key_code(seq!['i']) == Some(34u32),
        key_code(seq!['p']) == Some(35u32),
        key_code(seq!['l']) == Some(37u32),
        key_code(seq!['j']) == Some(38u32),
        key_code(seq!['k']) == Some(40u32),
        key_code(seq!['n']) == Some(45u32),
        key_code(seq!['m']) == Some(46u32),
        key_code(seq!['0']) == Some(29u32),
        key_code(seq!['1']) == Some(18u32),
        key_code(seq!['2']) == Some(19u32),
        key_code(seq!['3']) == Some(20u32),
        key_code(seq!['4']) == Some(21u32),
        key_code(seq!['5']) == Some(23u32),
        key_code(seq!['6']) == Some(22u32),
        key_code(seq!['7']) == Some(26u32),
        key_code(seq!['8']) == Some(28u32),
        key_code(seq!['9']) == Some(25u32),
        key_code(seq!['f', '1']) == Some(122u32),
        key_code(seq!['f', '2']) == Some(120u32),
        key_code(seq!['f', '3']) == Some(99u32),
        key_code(seq!['f', '4']) == Some(118u32),
        key_code(seq!['f', '5']) == Some(96u32),
        key_code(seq!['f', '6']) == Some(97u32),
        key_code(seq!['f', '7']) == Some(98u32),
        key_code(seq!['f', '8']) == Some(100u32),
        key_code(seq!['f', '9']) == Some(101u32),
        key_code(seq!['f', '1', '0']) == Some(109u32),
        key_code(seq!['f', '1', '1']) == Some(103u32),
        key_code(seq!['f', '1', '2']) == Some(111u32),
        key_name(0u32) == Some(seq!['a']),
        key_name(1u32) == Some(seq!['s']),
        key_name(2u32) == Some(seq!['d']),
        key_name(3u32) == Some(seq!['f']),
        key_name(4u32) == Some(seq!['h']),
        key_name(5u32) == Some(seq!['g']),
        key_name(6u32) == Some(seq!['z']),
        key_name(7u32) == Some(seq!['x']),
        key_name(8u32) == Some(seq!['c']),
        key_name(9u32) == Some(seq!['v']),
        key_name(11u32) == Some(seq!['b']),
        key_name(12u32) == Some(seq!['q']),
        key_name(13u32) == Some(seq!['w']),
        key_name(14u32) == Some(seq!['e']),
        key_name(15u32) == Some(seq!['r']),
        key_name(16u32) == Some(seq!['y']),
        key_name(17u32) == Some(seq!['t']),
        key_name(31u32) == Some(seq!['o']),
        key_name(32u32) == Some(seq!['u']),
        key_name(34u32) == Some(seq!['i']),
        key_name(35u32) == Some(seq!['p']),
        key_name(37u32) == Some(seq!['l']),
        key_name(38u32) == Some(seq!['j']),
        key_name(40u32) == Some(seq!['k']),
        key_name(45u32) == Some(seq!['n']),
        key_name(46u32) == Some(seq!['m']),
        key_name(29u32) == Some(seq!['0']),
        key_name(18u32) == Some(seq!['1']),
        key_name(19u32) == Some(seq!['2']),
        key_name(20u32) == Some(seq!['3']),
        key_name(21u32) == Some(seq!['4']),
        key_name(23u32) == Some(seq!['5']),
        key_name(22u32) == Some(seq!['6']),
        key_name(26u32) == Some(seq!['7']),
        key_name(28u32) == Some(seq!['8']),
        key_name(25u32) == Some(seq!['9']),
        key_name(122u32) == Some(seq!['f', '1']),
        key_name(120u32) == Some(seq!['f', '2']),
        key_name(99u32) == Some(seq!['f', '3']),
        key_name(118u32) == Some(seq!['f', '4']),
        key_name(96u32) == Some(seq!['f', '5']),
        key_name(97u32) == Some(seq!['f', '6']),
        key_name(98u32) == Some(seq!['f', '7']),
        key_name(100u32) == Some(seq!['f', '8']),
        key_name(101u32) == Some(seq!['f', '9']),
        key_name(109u32) == Some(seq!['f', '1', '0']),
        key_name(103u32) == Some(seq!['f', '1', '1']),
        key_name(111u32) == Some(seq!['f', '1', '2']),
{
}

/// Every name in the table reads back as its own key code.
pub proof fn lemma_key_name_code(kc: u32)
    requires
        key_name(kc) is Some,
    ensures
        key_code(key_name(kc)->0) == Some(kc),
{
}

/// Every key code read from a name has that name in the table.
pub proof fn lemma_key_code_name(k: Seq<char>)
    requires
        key_code(k) is Some,
    ensures
        key_name(key_code(k)->0) == Some(k),
{
    if k.len() == 1 {
        assert(k =~= seq![k[0]]);
    } else if k.len() == 2 {
        assert(k =~= seq![k[0], k[1]]);
    } else {
        assert(k =~= seq![k[0], k[1], k[2]]);
    }
}

/// Whether a key code belongs to a modifier key (shift, control, option,
/// command, caps lock or fn), which record mode waits past.
pub fn is_modifier_kc(kc: u32) -> (r: bool)
    ensures
        r <==> 54 <= kc <= 63,
{
    54 <= kc && kc <= 63
}


// ---------------------------------------------------------------------------
// Shortcut strings ("alt+shift+s")
// ---------------------------------------------------------------------------

pub open spec fn w_ctrl() -> Seq<char> {
    seq!['c', 't', 'r', 'l']
}

pub open spec fn w_control() -> Seq<char> {
    seq!['c', 'o', 'n', 't', 'r', 'o', 'l']
}

pub open spec fn w_alt() -> Seq<char> {
    seq!['a', 'l', 't']
}

pub open spec fn w_option() -> Seq<char> {
    seq!['o', 'p', 't', 'i', 'o', 'n']
}

pub open spec fn w_shift() -> Seq<char> {
    seq!['s', 'h', 'i', 'f', 't']
}

pub open spec fn w_cmd() -> Seq<char> {
    seq!['c', 'm', 'd']
}

pub open spec fn w_super() -> Seq<char> {
    seq!['s', 'u', 'p', 'e', 'r']
}

/// The modifier bit a shortcut word names (`0` for a word that names a key).
pub open spec fn modifier_bit(w: Seq<char>) -> u64 {
    if w == w_alt() || w == w_option() {
        F_ALT
    } else if w == w_shift() {
        F_SHIFT
    } else if w == w_ctrl() || w == w_control() {
        F_CTRL
    } else if w == w_cmd() || w == w_super() {
        F_CMD
    } else {
        0
    }
}

/// A part of a shortcut string as it is compared: trimmed, then lowercased.
pub open spec fn norm_part(p: Seq<char>) -> Seq<char> {
    text::lowercase_seq(text::trim_seq(p))
}

/// The modifier mask and the key word that a list of parts sets up: each
/// modifier word adds its bit, and every other word replaces the key.
pub open spec fn shortcut_fold(parts: Seq<Seq<char>>) -> (u64, Option<Seq<char>>)
    decreases parts.len(),
{
    if parts.len() == 0 {
        (0u64, None)
    } else {
        let prev = shortcut_fold(parts.drop_last());
        let w = norm_part(parts.last());
        if modifier_bit(w) != 0 {
            (prev.0 | modifier_bit(w), prev.1)
        } else {
            (prev.0, Some(w))
        }
    }
}

/// The binding a shortcut string names: its `+`-separated parts set a
/// modifier mask and a key; the key must be one the table knows, and at
/// least one modifier is needed (a bare key would clash with typing).
pub open spec fn shortcut(s: Seq<char>) -> Option<(u32, u64)> {
    let st = shortcut_fold(text::split_seq(s, '+'));
    match st.1 {
        Some(k) => match key_code(k) {
            Some(kc) => if st.0 == 0 {
                None
            } else {
                Some((kc, st.0))
            },
            None => None,
        },
        None => None,
    }
}

/// The modifier words for the bits set in `flags`, in the order
/// control, option, shift, command.
pub open spec fn modifier_words(flags: u64) -> Seq<Seq<char>> {
    let a: Seq<Seq<char>> = if flags & F_CTRL != 0 {
        seq![w_ctrl()]
    } else {
        seq![]
    };
    let b = if flags & F_ALT != 0 {
        a.push(w_alt())
    } else {
        a
    };
    let c = if flags & F_SHIFT != 0 {
        b.push(w_shift())
    } else {
        b
    };
    if flags & F_CMD != 0 {
        c.push(w_cmd())
    } else {
        c
    }
}

/// The shortcut string record mode writes for a key press: the modifier
/// words, then the key name, joined by `+`; none for a key the table does
/// not know or a press without modifiers.
pub open spec fn combo(kc: u32, flags: u64) -> Option<Seq<char>> {
    match key_name(kc) {
        Some(k) => if modifier_words(flags).len() == 0 {
            None
        } else {
            Some(text::join_seq(modifier_words(flags).push(k), '+'))
        },
        None => None,
    }
}

fn modifier_bit_of(w: &Vec<char>) -> (r: u64)
    ensures
        r == modifier_bit(w@),
{
    if text::seq_eq(w, &vec!['a', 'l', 't']) || text::seq_eq(w, &vec!['o', 'p', 't', 'i', 'o', 'n']) {
        F_ALT
    } else if text::seq_eq(w, &vec!['s', 'h', 'i', 'f', 't']) {
        F_SHIFT
    } else if text::seq_eq(w, &vec!['c', 't', 'r', 'l']) || text::seq_eq(
        w,
        &vec!['c', 'o', 'n', 't', 'r', 'o', 'l'],
    ) {
        F_CTRL
    } else if text::seq_eq(w, &vec!['c', 'm', 'd']) || text::seq_eq(w, &vec!['s', 'u', 'p', 'e', 'r']) {
        F_CMD
    } else {
        0
    }
}

/// `Some(v@)` for `Some(v)`.
pub open spec fn opt_chars(o: Option<Vec<char>>) -> Option<Seq<char>> {
    match o {
        Some(v) => Some(v@),
        None => None,
    }
}

/// `"alt+s"` to its key code and `CGEventFlags` modifier mask; a key
/// without a modifier is refused.
pub fn parse_shortcut(s: &str) -> (r: Option<(u32, u64)>)
    ensures
        r == shortcut(s@),
{
    let v = text::chars_of(s);
    let parts = text::split_chars(&v, '+');
    let ghost sp = text::split_seq(s@, '+');
    let mut mask: u64 = 0;
    let mut key: Option<Vec<char>> = None;
    let mut i: usize = 0;
    while i < parts.len()
        invariant
            parts@.len() == sp.len(),
            forall|j: int| 0 <= j < parts@.len() ==> #[trigger] parts@[j]@ == sp[j],
            i <= parts.len(),
            (mask, opt_chars(key)) == shortcut_fold(sp.take(i as int)),
        decreases parts.len() - i,
    {
        let t = text::trim_chars(&parts[i]);
        let ts = text::string_of(&t);
        let lw = text::to_lowercase(ts.as_str());
        let w = text::chars_of(lw.as_str());
        let bit = modifier_bit_of(&w);
        proof {
            assert(sp.take(i + 1).drop_last() == sp.take(i as int));
            assert(sp.take(i + 1).last() == sp[i as int]);
            assert(w@ == norm_part(sp[i as int]));
        }
        if bit != 0 {
            mask = mask | bit;
        } else {
            key = Some(w);
        }
        i += 1;
    }
    assert(sp.take(parts.len() as int) == sp);
    match key {
        Some(k) => {
            let ks = text::string_of(&k);
            match parse_keycode(ks.as_str()) {
                Some(kc) => if mask == 0 {
                    None
                } else {
                    Some((kc, mask))
                },
                None => None,
            }
        },
        None => None,
    }
}

/// The shortcut string of a key press seen in record mode.
pub fn combo_string(kc: u32, flags: u64) -> (r: Option<String>)
    ensures
        match r {
            Some(c) => combo(kc, flags) == Some(c@),
            None => combo(kc, flags) is None,
        },
{
    let key = match keycode_name(kc) {
        Some(k) => k,
        None => return None,
    };
    let mut parts: Vec<Vec<char>> = Vec::new();
    if flags & F_CTRL != 0 {
        parts.push(vec!['c', 't', 'r', 'l']);
    }
    if flags & F_ALT != 0 {
        parts.push(vec!['a', 'l', 't']);
    }
    if flags & F_SHIFT != 0 {
        parts.push(vec!['s', 'h', 'i', 'f', 't']);
    }
    if flags & F_CMD != 0 {
        parts.push(vec!['c', 'm', 'd']);
    }
    assert(text::char_views(parts@) =~= modifier_words(flags));
    if parts.len() == 0 {
        return None;
    }
    parts.push(text::chars_of(key));
    assert(text::char_views(parts@) =~= modifier_words(flags).push(key_name(kc)->0));
    let j = text::join_chars(&parts, '+');
    Some(text::string_of(&j))
}


/// A lowercase ASCII letter or an ASCII digit.
pub open spec fn plain_char(c: char) -> bool {
    ('a' <= c <= 'z') || ('0' <= c <= '9')
}

/// A non-empty word of lowercase letters and digits reads as itself once
/// trimmed and lowercased.
proof fn lemma_norm_plain(p: Seq<char>)
    requires
        p.len() > 0,
        forall|j: int| 0 <= j < p.len() ==> plain_char(#[trigger] p[j]),
    ensures
        norm_part(p) == p,
        text::lacks(p, '+'),
{
    assert(!text::is_ws(p[0]));
    assert(!text::is_ws(p[p.len() - 1]));
    assert(text::lead_end(p, 0) == 0);
    assert(text::trail_start(p, 0, p.len() as int) == p.len());
    assert(text::trim_seq(p) =~= p);
    assert(text::all_ascii(p));
    assert(text::ascii_lower_seq(p) =~= p);
}

proof fn lemma_fold_push(parts: Seq<Seq<char>>, w: Seq<char>)
    ensures
        shortcut_fold(parts.push(w)) == (if modifier_bit(norm_part(w)) != 0 {
            (shortcut_fold(parts).0 | modifier_bit(norm_part(w)), shortcut_fold(parts).1)
        } else {
            (shortcut_fold(parts).0, Some(norm_part(w)))
        }),
{
    assert(parts.push(w).drop_last() =~= parts);
}

proof fn lemma_mask_bits(flags: u64)
    ensures
        ({
            let m1: u64 = if flags & 0x40000 != 0 { 0u64 | 0x40000u64 } else { 0u64 };
            let m2: u64 = if flags & 0x80000 != 0 { m1 | 0x80000u64 } else { m1 };
            let m3: u64 = if flags & 0x20000 != 0 { m2 | 0x20000u64 } else { m2 };
            let m4: u64 = if flags & 0x100000 != 0 { m3 | 0x100000u64 } else { m3 };
            m4
        }) == flags & 0x1E0000,
        (flags & 0x1E0000 == 0) <==> (flags & 0x40000 == 0 && flags & 0x80000 == 0 && flags
            & 0x20000 == 0 && flags & 0x100000 == 0),
{
    assert(({
        let m1: u64 = if flags & 0x40000 != 0 { 0u64 | 0x40000u64 } else { 0u64 };
        let m2: u64 = if flags & 0x80000 != 0 { m1 | 0x80000u64 } else { m1 };
        let m3: u64 = if flags & 0x20000 != 0 { m2 | 0x20000u64 } else { m2 };
        let m4: u64 = if flags & 0x100000 != 0 { m3 | 0x100000u64 } else { m3 };
        m4
    }) == flags & 0x1E0000) by (bit_vector);
    assert((flags & 0x1E0000 == 0) <==> (flags & 0x40000 == 0 && flags & 0x80000 == 0 && flags
        & 0x20000 == 0 && flags & 0x100000 == 0)) by (bit_vector);
}

/// A combination captured in record mode is a shortcut string that reads
/// back as the binding which matches that same key press: its key code, and
/// the modifier bits of the press.
pub proof fn lemma_combo_parses(kc: u32, flags: u64)
    requires
        combo(kc, flags) is Some,
    ensures
        shortcut(combo(kc, flags)->0) == Some((kc, flags & F_MODS_ALL)),
        flags & F_MODS_ALL != 0,
{
    let k = key_name(kc)->0;
    let words = modifier_words(flags);
    let parts = words.push(k);
    assert(forall|j: int| 0 <= j < k.len() ==> plain_char(#[trigger] k[j]));
    lemma_norm_plain(k);
    lemma_norm_plain(w_ctrl());
    lemma_norm_plain(w_alt());
    lemma_norm_plain(w_shift());
    lemma_norm_plain(w_cmd());
    assert forall|i: int| 0 <= i < parts.len() implies text::lacks(#[trigger] parts[i], '+') by {
        if i == parts.len() - 1 {
            assert(parts[i] == k);
        }
    }
    text::lemma_split_join(parts, '+');
    lemma_key_name_code(kc);
    assert(modifier_bit(k) == 0);
    let e: Seq<Seq<char>> = seq![];
    assert(shortcut_fold(e) == (0u64, Option::<Seq<char>>::None));
    let a: Seq<Seq<char>> = if flags & F_CTRL != 0 { seq![w_ctrl()] } else { e };
    assert(seq![w_ctrl()] =~= e.push(w_ctrl()));
    lemma_fold_push(e, w_ctrl());
    let b = if flags & F_ALT != 0 { a.push(w_alt()) } else { a };
    lemma_fold_push(a, w_alt());
    let c = if flags & F_SHIFT != 0 { b.push(w_shift()) } else { b };
    lemma_fold_push(b, w_shift());
    let d = if flags & F_CMD != 0 { c.push(w_cmd()) } else { c };
    lemma_fold_push(c, w_cmd());
    assert(d == words);
    lemma_fold_push(words, k);
    lemma_mask_bits(flags);
}


// ---------------------------------------------------------------------------
// Binding table and record mode
// ---------------------------------------------------------------------------

/// A hotkey binding: key code and exact modifier mask, to an action
/// (`1` = capture the selection, `2` = box select).
#[derive(Clone, Copy)]
pub struct Binding {
    pub keycode: u32,
    pub mask: u64,
    pub action: u32,
}

/// What the event tap does with a key-down event.
pub enum TapAction {
    /// Let the event through to the focused application.
    Pass,
    /// Swallow the event (record mode takes every key).
    Swallow,
    /// Swallow the event and run the bound action.
    Fire(u32),
}

/// The binding table and the record-mode state that the event tap reads.
pub struct HotkeyTable {
    /// Active bindings, searched from the front.
    pub bindings: Vec<Binding>,
    /// `Some(slot)` while record mode waits for a combination.
    pub capture_slot: Option<u32>,
    /// What record mode caught: a combination, `"__cancel__"` for Escape,
    /// or `"__none__"` for a key pressed without modifiers.
    pub captured: Option<String>,
}

/// `s` without the bindings of `action`, order kept.
pub open spec fn without_action(s: Seq<Binding>, action: u32) -> Seq<Binding>
    decreases s.len(),
{
    if s.len() == 0 {
        s
    } else if s.last().action == action {
        without_action(s.drop_last(), action)
    } else {
        without_action(s.drop_last(), action).push(s.last())
    }
}

/// The action of the first binding of `s` on `keycode` with `mask` that does
/// not belong to `except`.
pub open spec fn first_conflict(s: Seq<Binding>, keycode: u32, mask: u64, except: u32) -> Option<
    u32,
>
    decreases s.len(),
{
    if s.len() == 0 {
        None
    } else if s[0].action != except && s[0].keycode == keycode && s[0].mask == mask {
        Some(s[0].action)
    } else {
        first_conflict(s.drop_first(), keycode, mask, except)
    }
}

/// The action of the first binding of `s` that a key press matches: same key
/// code, and exactly the binding's modifiers among the four modifier bits.
pub open spec fn first_hit(s: Seq<Binding>, keycode: u32, flags: u64) -> Option<u32>
    decreases s.len(),
{
    if s.len() == 0 {
        None
    } else if s[0].keycode == keycode && (flags & F_MODS_ALL) == s[0].mask {
        Some(s[0].action)
    } else {
        first_hit(s.drop_first(), keycode, flags)
    }
}

/// Command-V: a paste.
pub open spec fn is_paste_key(keycode: u32, flags: u64) -> bool {
    flags & F_CMD != 0 && keycode == KC_V
}

/// The text record mode stores for a key press.
pub open spec fn captured_text(keycode: u32, flags: u64) -> Seq<char> {
    match combo(keycode, flags) {
        Some(c) => c,
        None => "__none__"@,
    }
}

/// `Some(s@)` for `Some(s)`.
pub open spec fn opt_string(o: Option<String>) -> Option<Seq<char>> {
    match o {
        Some(s) => Some(s@),
        None => None,
    }
}

/// The bindings that hotkey configuration entries give: one per entry, in
/// order, up to the first entry that does not parse.
pub open spec fn parsed_bindings(hs: Seq<(Seq<char>, u32)>) -> Seq<Binding>
    decreases hs.len(),
{
    if hs.len() == 0 {
        seq![]
    } else {
        match shortcut(hs[0].0) {
            Some((kc, mask)) => seq![Binding { keycode: kc, mask: mask, action: hs[0].1 }]
                + parsed_bindings(hs.drop_first()),
            None => seq![],
        }
    }
}

/// The first entry that does not parse, if any.
pub open spec fn first_unparsable(hs: Seq<(Seq<char>, u32)>) -> Option<Seq<char>>
    decreases hs.len(),
{
    if hs.len() == 0 {
        None
    } else if shortcut(hs[0].0) is None {
        Some(hs[0].0)
    } else {
        first_unparsable(hs.drop_first())
    }
}

/// Hotkey configuration entries as character sequences.
pub open spec fn config_view(hs: Seq<(String, u32)>) -> Seq<(Seq<char>, u32)> {
    hs.map_values(|e: (String, u32)| (e.0@, e.1))
}

impl HotkeyTable {
    /// An empty table, not in record mode.
    pub fn new() -> (t: Self)
        ensures
            t.bindings@.len() == 0,
            t.capture_slot is None,
            t.captured is None,
    {
        HotkeyTable { bindings: Vec::new(), capture_slot: None, captured: None }
    }

    /// Replaces the table with the bindings of the configuration entries;
    /// the first entry that does not parse stops the load with an error, and
    /// the entries before it stay loaded.
    pub fn load_bindings(&mut self, hotkeys: &Vec<(String, u32)>) -> (r: Result<(), String>)
        ensures
            final(self).bindings@ == parsed_bindings(config_view(hotkeys@)),
            final(self).capture_slot == old(self).capture_slot,
            final(self).captured == old(self).captured,
            match r {
                Ok(()) => first_unparsable(config_view(hotkeys@)) is None,
                Err(e) => first_unparsable(config_view(hotkeys@)) matches Some(c) && e@
                    == "无法解析热键配置："@ + c,
            },
    {
        let ghost hs = config_view(hotkeys@);
        self.bindings = Vec::new();
        let mut i: usize = 0;
        assert(hs.skip(0) =~= hs);
        while i < hotkeys.len()
            invariant
                hs == config_view(hotkeys@),
                i <= hotkeys.len(),
                self.bindings@ + parsed_bindings(hs.skip(i as int)) == parsed_bindings(hs),
                first_unparsable(hs.skip(i as int)) == first_unparsable(hs),
                self.capture_slot == old(self).capture_slot,
                self.captured == old(self).captured,
            decreases hotkeys.len() - i,
        {
            let entry = &hotkeys[i];
            let ghost rest = hs.skip(i as int);
            assert(rest[0] == (entry.0@, entry.1));
            assert(rest.drop_first() =~= hs.skip(i + 1));
            match parse_shortcut(entry.0.as_str()) {
                Some((kc, mask)) => {
                    let b = Binding { keycode: kc, mask: mask, action: entry.1 };
                    self.bindings.push(b);
                    assert(self.bindings@ + parsed_bindings(hs.skip(i + 1)) =~= parsed_bindings(
                        hs,
                    ));
                },
                None => {
                    assert(parsed_bindings(rest) =~= seq![]);
                    assert(self.bindings@ =~= parsed_bindings(hs));
                    let msg = String::from_str("无法解析热键配置：");
                    return Err(msg.concat(entry.0.as_str()));
                },
            }
            i += 1;
        }
        assert(hs.skip(i as int) =~= seq![]);
        assert(self.bindings@ =~= parsed_bindings(hs));
        Ok(())
    }

    /// Binds `action` to the combination: any earlier binding of `action` is
    /// dropped and the new one goes last.
    pub fn set_binding(&mut self, keycode: u32, mask: u64, action: u32)
        ensures
            final(self).bindings@ == without_action(old(self).bindings@, action).push(
                Binding { keycode, mask, action },
            ),
            final(self).capture_slot == old(self).capture_slot,
            final(self).captured == old(self).captured,
    {
        let mut kept: Vec<Binding> = Vec::new();
        let mut i: usize = 0;
        while i < self.bindings.len()
            invariant
                i <= self.bindings.len(),
                self.bindings == old(self).bindings,
                kept@ == without_action(self.bindings@.take(i as int), action),
            decreases self.bindings.len() - i,
        {
            let b = self.bindings[i];
            assert(self.bindings@.take(i + 1).drop_last() =~= self.bindings@.take(i as int));
            if b.action != action {
                kept.push(b);
            }
            i += 1;
        }
        assert(self.bindings@.take(self.bindings.len() as int) =~= self.bindings@);
        kept.push(Binding { keycode, mask, action });
        self.bindings = kept;
    }

    /// The action of another binding already on this combination, if any.
    pub fn conflict_with(&self, keycode: u32, mask: u64, except_action: u32) -> (r: Option<u32>)
        ensures
            r == first_conflict(self.bindings@, keycode, mask, except_action),
    {
        let mut i: usize = 0;
        assert(self.bindings@.skip(0) =~= self.bindings@);
        while i < self.bindings.len()
            invariant
                i <= self.bindings.len(),
                first_conflict(self.bindings@.skip(i as int), keycode, mask, except_action)
                    == first_conflict(self.bindings@, keycode, mask, except_action),
            decreases self.bindings.len() - i,
        {
            let b = self.bindings[i];
            assert(self.bindings@.skip(i as int)[0] == b);
            if b.action != except_action && b.keycode == keycode && b.mask == mask {
                return Some(b.action);
            }
            assert(self.bindings@.skip(i as int).drop_first() =~= self.bindings@.skip(i + 1));
            i += 1;
        }
        None
    }

    /// Enters record mode for `slot` and forgets what was caught before.
    pub fn start_capture_mode(&mut self, slot: u32)
        ensures
            final(self).capture_slot == Some(slot),
            final(self).captured is None,
            final(self).bindings@ == old(self).bindings@,
    {
        self.capture_slot = Some(slot);
        self.captured = None;
    }

    /// What record mode caught so far (`None` until a key was pressed).
    pub fn take_captured(&self) -> (r: Option<String>)
        ensures
            opt_string(r) == opt_string(self.captured),
    {
        match &self.captured {
            Some(c) => Some(c.clone()),
            None => None,
        }
    }

    /// Whether the tap reads the typed text of the event (it does for every
    /// key but command-V).
    pub fn wants_typed_text(keycode: u32, flags: u64) -> (r: bool)
        ensures
            r == !is_paste_key(keycode, flags),
    {
        !(flags & F_CMD != 0 && keycode == KC_V)
    }

    /// Whether a key press is a paste signal for the clipboard watcher:
    /// command-V, or a key event that carries more than two characters of
    /// typed text (how dictation tools insert what they transcribed).
    pub fn is_paste_signal(keycode: u32, flags: u64, typed_len: usize) -> (r: bool)
        ensures
            r == (is_paste_key(keycode, flags) || typed_len > 2),
    {
        (flags & F_CMD != 0 && keycode == KC_V) || typed_len > 2
    }

    /// The decision for a key-down event. In record mode every key is
    /// swallowed: Escape cancels, a modifier key alone keeps waiting, and any
    /// other key ends record mode with the combination it forms. Otherwise the
    /// first binding the press matches fires, and other presses pass.
    pub fn on_key_down(&mut self, keycode: u32, flags: u64) -> (r: TapAction)
        ensures
            final(self).bindings@ == old(self).bindings@,
            old(self).capture_slot is Some ==> {
                &&& r is Swallow
                &&& keycode == KC_ESCAPE ==> {
                    &&& final(self).capture_slot is None
                    &&& opt_string(final(self).captured) == Some("__cancel__"@)
                }
                &&& (keycode != KC_ESCAPE && 54 <= keycode <= 63) ==> final(self).capture_slot
                    == old(self).capture_slot && final(self).captured == old(self).captured
                &&& (keycode != KC_ESCAPE && !(54 <= keycode <= 63)) ==> {
                    &&& final(self).capture_slot is None
                    &&& opt_string(final(self).captured) == Some(captured_text(keycode, flags))
                }
            },
            old(self).capture_slot is None ==> {
                &&& final(self).capture_slot is None
                &&& final(self).captured == old(self).captured
                &&& match first_hit(old(self).bindings@, keycode, flags) {
                    Some(a) => r == TapAction::Fire(a),
                    None => r is Pass,
                }
            },
    {
        if self.capture_slot.is_some() {
            if keycode == KC_ESCAPE {
                self.capture_slot = None;
                self.captured = Some(String::from_str("__cancel__"));
            } else if !is_modifier_kc(keycode) {
                let c = match combo_string(keycode, flags) {
                    Some(c) => c,
                    None => String::from_str("__none__"),
                };
                self.capture_slot = None;
                self.captured = Some(c);
            }
            return TapAction::Swallow;
        }
        let mut i: usize = 0;
        assert(self.bindings@.skip(0) =~= self.bindings@);
        while i < self.bindings.len()
            invariant
                i <= self.bindings.len(),
                self.bindings == old(self).bindings,
                self.capture_slot == old(self).capture_slot,
                self.captured == old(self).captured,
                old(self).capture_slot is None,
                first_hit(self.bindings@.skip(i as int), keycode, flags) == first_hit(
                    self.bindings@,
                    keycode,
                    flags,
                ),
            decreases self.bindings.len() - i,
        {
            let b = self.bindings[i];
            assert(self.bindings@.skip(i as int)[0] == b);
            if b.keycode == keycode && (flags & F_MODS_ALL) == b.mask {
                return TapAction::Fire(b.action);
            }
            assert(self.bindings@.skip(i as int).drop_first() =~= self.bindings@.skip(i + 1));
            i += 1;
        }
        TapAction::Pass
    }
}


// ---------------------------------------------------------------------------
// Laws of the binding table
// ---------------------------------------------------------------------------

proof fn lemma_without_action(s: Seq<Binding>, a: u32)
    ensures
        forall|i: int|
            0 <= i < without_action(s, a).len() ==> #[trigger] without_action(s, a)[i].action
                != a,
        forall|i: int|
            0 <= i < without_action(s, a).len() ==> exists|j: int|
                0 <= j < s.len() && s[j] == #[trigger] without_action(s, a)[i],
        forall|j: int|
            0 <= j < s.len() && s[j].action != a ==> exists|i: int|
                0 <= i < without_action(s, a).len() && without_action(s, a)[i] == #[trigger] s[j],
    decreases s.len(),
{
    if s.len() > 0 {
        let p = s.drop_last();
        lemma_without_action(p, a);
        let w = without_action(s, a);
        let wp = without_action(p, a);
        assert forall|i: int| 0 <= i < w.len() implies exists|j: int|
            0 <= j < s.len() && s[j] == #[trigger] w[i] by {
            if i < wp.len() {
                let j = choose|j: int| 0 <= j < p.len() && p[j] == wp[i];
                assert(s[j] == p[j]);
            } else {
                assert(w[i] == s[s.len() - 1]);
            }
        }
        assert forall|j: int| 0 <= j < s.len() && s[j].action != a implies exists|i: int|
            0 <= i < w.len() && w[i] == #[trigger] s[j] by {
            if j < p.len() {
                assert(p[j] == s[j]);
                let i = choose|i: int| 0 <= i < wp.len() && wp[i] == p[j];
                assert(w[i] == wp[i]);
            } else {
                assert(w[w.len() - 1] == s[j]);
            }
        }
    }
}

/// `first_hit` finds nothing exactly when no binding matches the press.
proof fn lemma_first_hit_none(s: Seq<Binding>, keycode: u32, flags: u64)
    ensures
        first_hit(s, keycode, flags) is None <==> forall|j: int|
            0 <= j < s.len() ==> !((#[trigger] s[j]).keycode == keycode && (flags & F_MODS_ALL)
                == s[j].mask),
        first_hit(s, keycode, flags) matches Some(x) ==> exists|j: int|
            0 <= j < s.len() && (#[trigger] s[j]).action == x,
    decreases s.len(),
{
    if s.len() > 0 {
        let t = s.drop_first();
        lemma_first_hit_none(t, keycode, flags);
        if first_hit(s, keycode, flags) is None {
            assert forall|j: int| 0 <= j < s.len() implies !((#[trigger] s[j]).keycode == keycode
                && (flags & F_MODS_ALL) == s[j].mask) by {
                if j > 0 {
                    assert(s[j] == t[j - 1]);
                }
            }
        }
        if forall|j: int|
            0 <= j < s.len() ==> !((#[trigger] s[j]).keycode == keycode && (flags & F_MODS_ALL)
                == s[j].mask) {
            assert forall|j: int| 0 <= j < t.len() implies !((#[trigger] t[j]).keycode == keycode
                && (flags & F_MODS_ALL) == t[j].mask) by {
                assert(s[j + 1] == t[j]);
            }
        }
        if let Some(x) = first_hit(s.drop_first(), keycode, flags) {
            let j = choose|j: int|
                0 <= j < s.drop_first().len() && (#[trigger] s.drop_first()[j]).action == x;
            assert(s[j + 1] == s.drop_first()[j]);
        }
    }
}

/// `first_conflict` finds nothing exactly when no binding of another action
/// sits on the combination.
proof fn lemma_first_conflict_none(s: Seq<Binding>, keycode: u32, mask: u64, except: u32)
    ensures
        first_conflict(s, keycode, mask, except) is None <==> forall|j: int|
            0 <= j < s.len() ==> !((#[trigger] s[j]).action != except && s[j].keycode == keycode
                && s[j].mask == mask),
    decreases s.len(),
{
    if s.len() > 0 {
        let t = s.drop_first();
        lemma_first_conflict_none(t, keycode, mask, except);
        if first_conflict(s, keycode, mask, except) is None {
            assert forall|j: int| 0 <= j < s.len() implies !((#[trigger] s[j]).action != except
                && s[j].keycode == keycode && s[j].mask == mask) by {
                if j > 0 {
                    assert(s[j] == t[j - 1]);
                }
            }
        }
        if forall|j: int|
            0 <= j < s.len() ==> !((#[trigger] s[j]).action != except && s[j].keycode == keycode
                && s[j].mask == mask) {
            assert forall|j: int| 0 <= j < t.len() implies !((#[trigger] t[j]).action != except
                && t[j].keycode == keycode && t[j].mask == mask) by {
                assert(s[j + 1] == t[j]);
            }
        }
    }
}

proof fn lemma_first_hit_push(s: Seq<Binding>, b: Binding, keycode: u32, flags: u64)
    ensures
        first_hit(s.push(b), keycode, flags) == (if first_hit(s, keycode, flags) is Some {
            first_hit(s, keycode, flags)
        } else if b.keycode == keycode && (flags & F_MODS_ALL) == b.mask {
            Some(b.action)
        } else {
            None
        }),
    decreases s.len(),
{
    if s.len() == 0 {
        assert(s.push(b).drop_first() =~= s);
    } else {
        assert(s.push(b).drop_first() =~= s.drop_first().push(b));
        lemma_first_hit_push(s.drop_first(), b, keycode, flags);
    }
}

proof fn lemma_first_conflict_push(s: Seq<Binding>, b: Binding, keycode: u32, mask: u64, except: u32)
    ensures
        first_conflict(s, keycode, mask, except) is None && b.action != except && b.keycode
            == keycode && b.mask == mask ==> first_conflict(s.push(b), keycode, mask, except)
            == Some(b.action),
        first_conflict(s, keycode, mask, except) is Some ==> first_conflict(
            s.push(b),
            keycode,
            mask,
            except,
        ) == first_conflict(s, keycode, mask, except),
    decreases s.len(),
{
    if s.len() == 0 {
        assert(s.push(b).drop_first() =~= s);
    } else {
        assert(s.push(b).drop_first() =~= s.drop_first().push(b));
        lemma_first_conflict_push(s.drop_first(), b, keycode, mask, except);
    }
}

/// After `set_binding(keycode, mask, action)` the table holds exactly one
/// binding of `action`, the new one; every binding of another action stays.
pub proof fn lemma_set_binding_unique(s: Seq<Binding>, keycode: u32, mask: u64, action: u32)
    ensures
        ({
            let r = without_action(s, action).push(Binding { keycode, mask, action });
            &&& forall|i: int| 0 <= i < r.len() && (#[trigger] r[i]).action == action ==> i == r.len()
                - 1
            &&& forall|j: int|
                0 <= j < s.len() && s[j].action != action ==> exists|i: int|
                    0 <= i < r.len() && r[i] == #[trigger] s[j]
        }),
{
    lemma_without_action(s, action);
    let w = without_action(s, action);
    let r = w.push(Binding { keycode, mask, action });
    assert forall|i: int| 0 <= i < r.len() && (#[trigger] r[i]).action == action implies i
        == r.len() - 1 by {
        if i < w.len() {
            assert(r[i] == w[i]);
        }
    }
    assert forall|j: int| 0 <= j < s.len() && s[j].action != action implies exists|i: int|
        0 <= i < r.len() && r[i] == #[trigger] s[j] by {
        let i = choose|i: int| 0 <= i < w.len() && w[i] == s[j];
        assert(r[i] == w[i]);
    }
}

/// A new binding takes effect at once: after `set_binding(keycode, mask,
/// action)`, a press of that combination fires `action` unless another
/// action was already bound to it, and another action asking for the same
/// combination is told it conflicts.
pub proof fn lemma_set_binding_effect(
    s: Seq<Binding>,
    keycode: u32,
    mask: u64,
    action: u32,
    flags: u64,
    other: u32,
)
    requires
        flags & F_MODS_ALL == mask,
    ensures
        ({
            let r = without_action(s, action).push(Binding { keycode, mask, action });
            &&& first_conflict(s, keycode, mask, action) is None ==> first_hit(r, keycode, flags)
                == Some(action)
            &&& first_hit(r, keycode, flags) is Some
            &&& other != action ==> first_conflict(r, keycode, mask, other) is Some
        }),
{
    lemma_without_action(s, action);
    let w = without_action(s, action);
    let b = Binding { keycode, mask, action };
    lemma_first_hit_push(w, b, keycode, flags);
    lemma_first_conflict_push(w, b, keycode, mask, other);
    if first_conflict(s, keycode, mask, action) is None {
        lemma_first_conflict_none(s, keycode, mask, action);
        lemma_first_hit_none(w, keycode, flags);
        assert forall|j: int| 0 <= j < w.len() implies !((#[trigger] w[j]).keycode == keycode && (
        flags & F_MODS_ALL) == w[j].mask) by {
            let k = choose|k: int| 0 <= k < s.len() && s[k] == w[j];
            assert(w[j].action != action);
        }
    }
}

/// Changing a shortcut on the settings page works end to end: the
/// combination record mode caught, read back and bound to `action`, fires
/// `action` when the same keys are pressed again, unless another action
/// already holds that combination.
pub proof fn lemma_recorded_combo_fires(s: Seq<Binding>, kc: u32, flags: u64, action: u32)
    requires
        combo(kc, flags) is Some,
    ensures
        ({
            let parsed = shortcut(combo(kc, flags)->0);
            &&& parsed is Some
            &&& ({
                let (k, m) = parsed->0;
                let r = without_action(s, action).push(Binding { keycode: k, mask: m, action });
                first_conflict(s, k, m, action) is None ==> first_hit(r, kc, flags) == Some(action)
            })
        }),
{
    lemma_combo_parses(kc, flags);
    lemma_set_binding_effect(s, kc, flags & F_MODS_ALL, action, flags, action);
}

} // verus!
