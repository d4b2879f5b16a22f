//! Task-configuration texts: the exact content of a fresh configuration
//! file, the Unicode escaping applied to every stored configuration, and
//! the naming rules of the configuration directory. Reading and writing the
//! files themselves is the caller's.

use vstd::prelude::*;
use crate::text::{chars_of, range_equals, str_eq, string_of_range};

verus! {

/// The lowercase hexadecimal digit of a value below 16.
pub open spec fn hex_digit_of(d: int) -> char {
    if d == 0 {
        '0'
    } else if d == 1 {
        '1'
    } else if d == 2 {
        '2'
    } else if d == 3 {
        '3'
    } else if d == 4 {
        '4'
    } else if d == 5 {
        '5'
    } else if d == 6 {
        '6'
    } else if d == 7 {
        '7'
    } else if d == 8 {
        '8'
    } else if d == 9 {
        '9'
    } else if d == 10 {
        'a'
    } else if d == 11 {
        'b'
    } else if d == 12 {
        'c'
    } else if d == 13 {
        'd'
    } else if d == 14 {
        'e'
    } else {
        'f'
    }
}

/// The lowercase hexadecimal digits of `n`, most significant first, without
/// leading zeros.
pub open spec fn hex_digits_of(n: int) -> Seq<char>
    decreases n,
    when n >= 0
{
    if n < 16 {
        seq![hex_digit_of(n)]
    } else {
        hex_digits_of(n / 16).push(hex_digit_of(n % 16))
    }
}

/// The hexadecimal digits of `n`, zero-padded on the left to at least four.
pub open spec fn hex_pad4(n: int) -> Seq<char> {
    if n < 0x10 {
        seq!['0', '0', '0'] + hex_digits_of(n)
    } else if n < 0x100 {
        seq!['0', '0'] + hex_digits_of(n)
    } else if n < 0x1000 {
        seq!['0'] + hex_digits_of(n)
    } else {
        hex_digits_of(n)
    }
}

/// The hexadecimal digits of `n`, zero-padded on the left to at least two.
pub open spec fn hex_pad2(n: int) -> Seq<char> {
    if n < 0x10 {
        seq!['0'] + hex_digits_of(n)
    } else {
        hex_digits_of(n)
    }
}

/// How one character is written in an escaped configuration file: ASCII
/// stays itself, everything else becomes `\u` and its scalar value in
/// hexadecimal, zero-padded to at least four digits.
pub open spec fn escape_char(c: char) -> Seq<char> {
    if (c as u32) < 128 {
        seq![c]
    } else {
        seq!['\\', 'u'] + hex_pad4(c as u32 as int)
    }
}

/// A text with every non-ASCII character written as its escape.
pub open spec fn escape_all(s: Seq<char>) -> Seq<char>
    decreases s.len(),
{
    if s.len() == 0 {
        Seq::empty()
    } else {
        escape_all(s.drop_last()) + escape_char(s.last())
    }
}

/// The lowercase hexadecimal digit below 16, as text.
fn hex_digit_str(d: u32) -> (r: &'static str)
    requires
        d < 16,
    ensures
        r@ == seq![hex_digit_of(d as int)],
{
    proof {
        reveal_strlit("0");
        reveal_strlit("1");
        reveal_strlit("2");
        reveal_strlit("3");
        reveal_strlit("4");
        reveal_strlit("5");
        reveal_strlit("6");
        reveal_strlit("7");
        reveal_strlit("8");
        reveal_strlit("9");
        reveal_strlit("a");
        reveal_strlit("b");
        reveal_strlit("c");
        reveal_strlit("d");
        reveal_strlit("e");
        reveal_strlit("f");
    }
    if d == 0 {
        "0"
    } else if d == 1 {
        "1"
    } else if d == 2 {
        "2"
    } else if d == 3 {
        "3"
    } else if d == 4 {
        "4"
    } else if d == 5 {
        "5"
    } else if d == 6 {
        "6"
    } else if d == 7 {
        "7"
    } else if d == 8 {
        "8"
    } else if d == 9 {
        "9"
    } else if d == 10 {
        "a"
    } else if d == 11 {
        "b"
    } else if d == 12 {
        "c"
    } else if d == 13 {
        "d"
    } else if d == 14 {
        "e"
    } else {
        "f"
    }
}

/// Appends the hexadecimal digits of `n`, without leading zeros.
fn push_hex(out: &mut String, n: u32)
    ensures
        final(out)@ == old(out)@ + hex_digits_of(n as int),
    decreases n,
{
    if n < 16 {
        out.append(hex_digit_str(n));
    } else {
        push_hex(out, n / 16);
        out.append(hex_digit_str(n % 16));
        proof {
            assert(old(out)@ + hex_digits_of(n as int / 16) + seq![
                hex_digit_of(n as int % 16),
            ] =~= old(out)@ + hex_digits_of(n as int));
        }
    }
}

/// Rewrites a text with every non-ASCII character as a `\u` escape of its
/// scalar value, so stored files hold ASCII only.
pub fn escape_unicode_chars(s: &str) -> (r: String)
    ensures
        r@ == escape_all(s@),
{
    let v = chars_of(s);
    let n = v.len();
    let mut r = String::new();
    let mut i: usize = 0;
    while i < n
        invariant
            i <= n,
            n == v@.len(),
            v@ == s@,
            r@ == escape_all(s@.subrange(0, i as int)),
        decreases n - i,
    {
        let ghost prefix = s@.subrange(0, i as int);
        let c = v[i];
        let u = c as u32;
        if u < 128 {
            r.append(s.substring_char(i, i + 1));
            proof {
                assert(s@.subrange(i as int, i + 1) =~= seq![s@[i as int]]);
                assert(r@ == escape_all(prefix) + escape_char(c));
            }
        } else {
            r.append("\\u");
            if u < 0x10 {
                r.append("000");
            } else if u < 0x100 {
                r.append("00");
            } else if u < 0x1000 {
                r.append("0");
            }
            push_hex(&mut r, u);
            proof {
                reveal_strlit("\\u");
                reveal_strlit("000");
                reveal_strlit("00");
                reveal_strlit("0");
                assert("\\u"@ =~= seq!['\\', 'u']);
                if u < 0x10 {
                    assert("000"@ =~= seq!['0', '0', '0']);
                } else if u < 0x100 {
                    assert("00"@ =~= seq!['0', '0']);
                } else if u < 0x1000 {
                    assert("0"@ =~= seq!['0']);
                }
                assert(r@ =~= escape_all(prefix) + escape_char(c));
            }
        }
        proof {
            assert(s@.subrange(0, i + 1).drop_last() =~= prefix);
            assert(s@.subrange(0, i + 1).last() == s@[i as int]);
        }
        i += 1;
    }
    proof {
        assert(s@.subrange(0, n as int) =~= s@);
    }
    r
}

/// How one character is written inside a JSON string: the two-character
/// escapes for quote, backslash and the named controls, `\u00..` for the
/// other control characters, and the character itself otherwise.
pub open spec fn json_escape_char(c: char) -> Seq<char> {
    if c == '"' {
        seq!['\\', '"']
    } else if c == '\\' {
        seq!['\\', '\\']
    } else if c == '\u{08}' {
        seq!['\\', 'b']
    } else if c == '\u{0C}' {
        seq!['\\', 'f']
    } else if c == '\n' {
        seq!['\\', 'n']
    } else if c == '\r' {
        seq!['\\', 'r']
    } else if c == '\t' {
        seq!['\\', 't']
    } else if (c as u32) < 0x20 {
        seq!['\\', 'u', '0', '0'] + hex_pad2(c as u32 as int)
    } else {
        seq![c]
    }
}

/// A text with every character written as it stands inside a JSON string.
pub open spec fn json_escape_all(s: Seq<char>) -> Seq<char>
    decreases s.len(),
{
    if s.len() == 0 {
        Seq::empty()
    } else {
        json_escape_all(s.drop_last()) + json_escape_char(s.last())
    }
}

/// Writes a text as the body of a JSON string literal.
pub fn json_escape_string(s: &str) -> (r: String)
    ensures
        r@ == json_escape_all(s@),
{
    let v = chars_of(s);
    let n = v.len();
    let mut r = String::new();
    let mut i: usize = 0;
    while i < n
        invariant
            i <= n,
            n == v@.len(),
            v@ == s@,
            r@ == json_escape_all(s@.subrange(0, i as int)),
        decreases n - i,
    {
        let ghost prefix = s@.subrange(0, i as int);
        let c = v[i];
        if c == '"' {
            r.append("\\\"");
            proof {
                reveal_strlit("\\\"");
                assert(r@ =~= json_escape_all(prefix) + json_escape_char(c));
            }
        } else if c == '\\' {
            r.append("\\\\");
            proof {
                reveal_strlit("\\\\");
                assert(r@ =~= json_escape_all(prefix) + json_escape_char(c));
            }
        } else if c == '\u{08}' {
            r.append("\\b");
            proof {
                reveal_strlit("\\b");
                assert(r@ =~= json_escape_all(prefix) + json_escape_char(c));
            }
        } else if c == '\u{0C}' {
            r.append("\\f");
            proof {
                reveal_strlit("\\f");
                assert(r@ =~= json_escape_all(prefix) + json_escape_char(c));
            }
        } else if c == '\n' {
            r.append("\\n");
            proof {
                reveal_strlit("\\n");
                assert(r@ =~= json_escape_all(prefix) + json_escape_char(c));
            }
        } else if c == '\r' {
            r.append("\\r");
            proof {
                reveal_strlit("\\r");
                assert(r@ =~= json_escape_all(prefix) + json_escape_char(c));
            }
        } else if c == '\t' {
            r.append("\\t");
            proof {
                reveal_strlit("\\t");
                assert(r@ =~= json_escape_all(prefix) + json_escape_char(c));
            }
        } else if (c as u32) < 0x20 {
            let u = c as u32;
            r.append("\\u00");
            if u < 0x10 {
                r.append("0");
            }
            push_hex(&mut r, u);
            proof {
                reveal_strlit("\\u00");
                reveal_strlit("0");
                assert("\\u00"@ =~= seq!['\\', 'u', '0', '0']);
                if u < 0x10 {
                    assert("0"@ =~= seq!['0']);
                }
                assert(r@ =~= json_escape_all(prefix) + json_escape_char(c));
            }
        } else {
            r.append(s.substring_char(i, i + 1));
            proof {
                assert(s@.subrange(i as int, i + 1) =~= seq![s@[i as int]]);
                assert(r@ == json_escape_all(prefix) + json_escape_char(c));
            }
        }
        proof {
            assert(s@.subrange(0, i + 1).drop_last() =~= prefix);
            assert(s@.subrange(0, i + 1).last() == s@[i as int]);
        }
        i += 1;
    }
    proof {
        assert(s@.subrange(0, n as int) =~= s@);
    }
    r
}


/// Everything that stands before the configuration's name in a fresh
/// configuration file (two-space pretty form, keys in sorted order).
pub const DEFAULT_CONFIG_HEAD: &'static str = "{\n  \"AfterExitApp\": false,\n  \"AfterExitGame\": false,\n  \"AfterLogout\": false,\n  \"AfterShutdown\": false,\n  \"AfterSleep\": false,\n  \"CurrencyWarsEnable\": false,\n  \"CurrencyWarsPolicy\": 0,\n  \"CurrencyWarsRunTimes\": 0,\n  \"CurrencyWarsUsername\": \"\",\n  \"EnabledTasks\": [\n    false,\n    false,\n    false,\n    false,\n    false\n  ],\n  \"Name\": \"";

/// Everything that stands after the configuration's name in a fresh
/// configuration file.
pub const DEFAULT_CONFIG_TAIL: &'static str = "\",\n  \"ReceiveRewardRedeemCodes\": \"\",\n  \"ReceiveRewards\": [\n    false,\n    false,\n    false,\n    false,\n    false,\n    false,\n    false\n  ],\n  \"SimulatedUniverseEnable\": false,\n  \"SimulatedUniverseMode\": 0,\n  \"SimulatedUniversePolicy\": 0,\n  \"SimulatedUniverseRunTimes\": 0,\n  \"StartGameAlwaysLogin\": false,\n  \"StartGameAutoLogin\": false,\n  \"StartGameChannel\": 0,\n  \"StartGamePassword\": \"\",\n  \"StartGamePath\": \"\",\n  \"StartGameUsername\": \"\",\n  \"TrailblazePowerChangeLineup\": false,\n  \"TrailblazePowerLineupCheck\": false,\n  \"TrailblazePowerReplenishStamina\": false,\n  \"TrailblazePowerReplenishTimes\": 0,\n  \"TrailblazePowerReplenishWay\": 0,\n  \"TrailblazePowerTaskList\": [],\n  \"TrailblazePowerUseAssistant\": false,\n  \"TrailblazePowerUseSkill\": false,\n  \"Version\": 3\n}";

/// The full content of a fresh configuration file carrying `name`: the
/// fixed fields with their defaults, the name written as a JSON string,
/// and the whole escaped to ASCII.
pub open spec fn default_config_text(name: Seq<char>) -> Seq<char> {
    escape_all(DEFAULT_CONFIG_HEAD@ + json_escape_all(name) + DEFAULT_CONFIG_TAIL@)
}

/// Builds the content of a fresh configuration file carrying `name`. The
/// caller stores it under `<name>.json` in the configuration directory.
pub fn default_config_content(name: &str) -> (r: String)
    ensures
        r@ == default_config_text(name@),
{
    let mut body = String::from_str(DEFAULT_CONFIG_HEAD);
    let quoted = json_escape_string(name);
    body.append(quoted.as_str());
    body.append(DEFAULT_CONFIG_TAIL);
    escape_unicode_chars(body.as_str())
}

/// The content of a fresh configuration file named `Default`.
pub fn create_default_config() -> (r: String)
    ensures
        r@ == default_config_text("Default"@),
{
    default_config_content("Default")
}

/// The content of a fresh configuration file carrying the given name.
pub fn create_new_config(name: String) -> (r: String)
    ensures
        r@ == default_config_text(name@),
{
    default_config_content(name.as_str())
}

/// The configuration name a directory entry stands for: the stem of a
/// `.json` file name; other entries carry none.
pub open spec fn json_file_stem(s: Seq<char>) -> Option<Seq<char>> {
    if s.len() > 5 && s.subrange(s.len() - 5, s.len() as int) == ".json"@ {
        Some(s.subrange(0, s.len() - 5))
    } else {
        None
    }
}

/// Reads the configuration name off one directory entry.
pub fn config_name_of_file(file_name: &str) -> (r: Option<String>)
    ensures
        r is Some <==> json_file_stem(file_name@) is Some,
        r matches Some(stem) ==> json_file_stem(file_name@) == Some(stem@),
{
    let v = chars_of(file_name);
    let n = v.len();
    if n <= 5 {
        return None;
    }
    let ext = chars_of(".json");
    if range_equals(&v, n - 5, n, &ext) {
        Some(string_of_range(file_name, 0, n - 5))
    } else {
        None
    }
}

/// The name sequence with every occurrence of `name` dropped, the order of
/// the rest preserved.
pub open spec fn names_without(s: Seq<Seq<char>>, name: Seq<char>) -> Seq<Seq<char>>
    decreases s.len(),
{
    if s.len() == 0 {
        Seq::empty()
    } else if s.last() == name {
        names_without(s.drop_last(), name)
    } else {
        names_without(s.drop_last(), name).push(s.last())
    }
}

/// Drops every occurrence of a deleted configuration's name from the kept
/// task order, preserving the order of the rest.
pub fn retain_other_names(order: Vec<String>, name: &str) -> (r: Vec<String>)
    ensures
        r.deep_view() == names_without(order.deep_view(), name@),
{
    let mut r: Vec<String> = Vec::new();
    let mut i: usize = 0;
    proof {
        assert(r.deep_view() =~= Seq::<Seq<char>>::empty());
        assert(order.deep_view().subrange(0, 0) =~= Seq::<Seq<char>>::empty());
    }
    while i < order.len()
        invariant
            i <= order@.len(),
            r.deep_view() == names_without(order.deep_view().subrange(0, i as int), name@),
        decreases order@.len() - i,
    {
        let ghost prefix = order.deep_view().subrange(0, i as int);
        let ghost next = order.deep_view().subrange(0, i + 1);
        proof {
            assert(next.drop_last() =~= prefix);
            assert(next.last() == order.deep_view()[i as int]);
        }
        if !str_eq(order[i].as_str(), name) {
            let ghost prev = r.deep_view();
            let kept = order[i].clone();
            r.push(kept);
            proof {
                assert(r.deep_view() =~= prev.push(order.deep_view()[i as int]));
            }
        }
        i += 1;
    }
    proof {
        assert(order.deep_view().subrange(0, order@.len() as int) =~= order.deep_view());
    }
    r
}

} // verus!
