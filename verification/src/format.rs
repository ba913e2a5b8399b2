//! Rendering a palette color into the textual forms template tokens ask
//! for, and parsing the hex form back; consumers persist and reload palettes
//! through these.

use vstd::prelude::*;
use vstd::string::StrSliceExecFns;
use vstd::string::StringExecFns;

verus! {

/// The digit character of a value below 16, lower case.
pub open spec fn hex_digit(n: int) -> char {
    if n == 0 {
        '0'
    } else if n == 1 {
        '1'
    } else if n == 2 {
        '2'
    } else if n == 3 {
        '3'
    } else if n == 4 {
        '4'
    } else if n == 5 {
        '5'
    } else if n == 6 {
        '6'
    } else if n == 7 {
        '7'
    } else if n == 8 {
        '8'
    } else if n == 9 {
        '9'
    } else if n == 10 {
        'a'
    } else if n == 11 {
        'b'
    } else if n == 12 {
        'c'
    } else if n == 13 {
        'd'
    } else if n == 14 {
        'e'
    } else {
        'f'
    }
}

/// A byte as two lower-case hex digits.
pub open spec fn hex_pair(b: u8) -> Seq<char> {
    seq![hex_digit(b as int / 16), hex_digit(b as int % 16)]
}

/// A byte in decimal, without leading zeros.
pub open spec fn dec_digits(b: u8) -> Seq<char> {
    if b < 10 {
        seq![hex_digit(b as int)]
    } else if b < 100 {
        seq![hex_digit(b as int / 10), hex_digit(b as int % 10)]
    } else {
        seq![hex_digit(b as int / 100), hex_digit((b as int / 10) % 10), hex_digit(b as int % 10)]
    }
}

fn hex_digit_str(n: u8) -> (r: &'static str)
    requires
        n < 16,
    ensures
        r@ == seq![hex_digit(n as int)],
{
    match n {
        0 => {
            proof {
                reveal_strlit("0");
            }
            "0"
        },
        1 => {
            proof {
                reveal_strlit("1");
            }
            "1"
        },
        2 => {
            proof {
                reveal_strlit("2");
            }
            "2"
        },
        3 => {
            proof {
                reveal_strlit("3");
            }
            "3"
        },
        4 => {
            proof {
                reveal_strlit("4");
            }
            "4"
        },
        5 => {
            proof {
                reveal_strlit("5");
            }
            "5"
        },
        6 => {
            proof {
                reveal_strlit("6");
            }
            "6"
        },
        7 => {
            proof {
                reveal_strlit("7");
            }
            "7"
        },
        8 => {
            proof {
                reveal_strlit("8");
            }
            "8"
        },
        9 => {
            proof {
                reveal_strlit("9");
            }
            "9"
        },
        10 => {
            proof {
                reveal_strlit("a");
            }
            "a"
        },
        11 => {
            proof {
                reveal_strlit("b");
            }
            "b"
        },
        12 => {
            proof {
                reveal_strlit("c");
            }
            "c"
        },
        13 => {
            proof {
                reveal_strlit("d");
            }
            "d"
        },
        14 => {
            proof {
                reveal_strlit("e");
            }
            "e"
        },
        _ => {
            proof {
                reveal_strlit("f");
            }
            "f"
        },
    }
}

fn push_hex(out: &mut String, b: u8)
    ensures
        final(out)@ == old(out)@ + hex_pair(b),
{
    out.append(hex_digit_str(b / 16));
    out.append(hex_digit_str(b % 16));
    proof {
        assert(old(out)@ + seq![hex_digit(b as int / 16)] + seq![hex_digit(b as int % 16)] =~= old(out)@
            + hex_pair(b));
    }
}

fn push_dec(out: &mut String, b: u8)
    ensures
        final(out)@ == old(out)@ + dec_digits(b),
{
    if b < 10 {
        out.append(hex_digit_str(b));
    } else if b < 100 {
        out.append(hex_digit_str(b / 10));
        out.append(hex_digit_str(b % 10));
        proof {
            assert(old(out)@ + seq![hex_digit(b as int / 10)] + seq![hex_digit(b as int % 10)] =~= old(out)@
                + dec_digits(b));
        }
    } else {
        out.append(hex_digit_str(b / 100));
        out.append(hex_digit_str((b / 10) % 10));
        out.append(hex_digit_str(b % 10));
        proof {
            assert(old(out)@ + seq![hex_digit(b as int / 100)] + seq![hex_digit((b as int / 10) % 10)] + seq![
                hex_digit(b as int % 10),
            ] =~= old(out)@ + dec_digits(b));
        }
    }
}

// ---------------------------------------------------------------------------
// Substring search
// ---------------------------------------------------------------------------
/// The needle occurs in the haystack starting at `i`.
pub open spec fn is_match_at(hay: Seq<char>, needle: Seq<char>, i: int) -> bool {
    forall|j: int| 0 <= j < needle.len() ==> hay[i + j] == needle[j]
}

/// The needle occurs somewhere in the haystack.
pub open spec fn contains_seq(hay: Seq<char>, needle: Seq<char>) -> bool {
    exists|i: int| 0 <= i <= hay.len() - needle.len() && is_match_at(hay, needle, i)
}

fn match_at(s: &str, pat: &str, i: usize, ls: usize, lp: usize) -> (r: bool)
    requires
        ls == s@.len(),
        lp == pat@.len(),
        i + lp <= ls,
    ensures
        r == is_match_at(s@, pat@, i as int),
{
    let mut j: usize = 0;
    while j < lp
        invariant
            ls == s@.len(),
            lp == pat@.len(),
            i + lp <= ls,
            j <= lp,
            forall|t: int| 0 <= t < j ==> s@[i + t] == pat@[t],
        decreases lp - j,
    {
        if s.get_char(i + j) != pat.get_char(j) {
            proof {
                assert(s@[i + j] != pat@[j as int]);
            }
            return false;
        }
        j += 1;
    }
    true
}

/// Whether the pattern occurs in the string, by character.
pub fn str_contains(s: &str, pat: &str) -> (r: bool)
    ensures
        r == contains_seq(s@, pat@),
{
    let ls = s.unicode_len();
    let lp = pat.unicode_len();
    if lp > ls {
        return false;
    }
    let mut i: usize = 0;
    while i <= ls - lp
        invariant
            ls == s@.len(),
            lp == pat@.len(),
            lp <= ls,
            i <= ls - lp + 1,
            forall|k: int| 0 <= k < i ==> !is_match_at(s@, pat@, k),
        decreases ls - lp - i + 1,
    {
        if match_at(s, pat, i, ls, lp) {
            return true;
        }
        i += 1;
    }
    false
}

// ---------------------------------------------------------------------------
// Token rendering
// ---------------------------------------------------------------------------
/// The textual form a color takes for a template token, decided by the
/// format suffix the token carries:
/// - `.strip`: bare lower-case hex, `rrggbb`;
/// - `.xrgba`: hex with alpha, `rr/gg/bb/aa`;
/// - `.rgba`: decimal with alpha, `r,g,b,a`;
/// - `.rgb`: decimal, `r,g,b`;
/// - `.alpha_per`: the alpha as an integer percentage;
/// - `.alpha`: `#rrggbbaa`;
/// - anything else: `#rrggbb`.
pub open spec fn change_spec(template: Seq<char>, c: (u8, u8, u8), alpha: u8) -> Seq<char> {
    if contains_seq(template, ".strip"@) {
        hex_pair(c.0) + hex_pair(c.1) + hex_pair(c.2)
    } else if contains_seq(template, ".xrgba"@) {
        hex_pair(c.0) + seq!['/'] + hex_pair(c.1) + seq!['/'] + hex_pair(c.2) + seq!['/']
            + hex_pair(alpha)
    } else if contains_seq(template, ".rgba"@) {
        dec_digits(c.0) + seq![','] + dec_digits(c.1) + seq![','] + dec_digits(c.2) + seq![',']
            + dec_digits(alpha)
    } else if contains_seq(template, ".rgb"@) {
        dec_digits(c.0) + seq![','] + dec_digits(c.1) + seq![','] + dec_digits(c.2)
    } else if contains_seq(template, ".alpha_per"@) {
        dec_digits(((alpha / 255) * 100) as u8)
    } else if contains_seq(template, ".alpha"@) {
        seq!['#'] + hex_pair(c.0) + hex_pair(c.1) + hex_pair(c.2) + hex_pair(alpha)
    } else {
        seq!['#'] + hex_pair(c.0) + hex_pair(c.1) + hex_pair(c.2)
    }
}

fn push_sep(out: &mut String, sep: &str)
    ensures
        final(out)@ == old(out)@ + sep@,
{
    out.append(sep);
}

/// Renders a color and the palette alpha into the textual form the given
/// template token asks for.
pub fn change(template: &str, colors: (u8, u8, u8), alpha: u8) -> (r: String)
    ensures
        r@ == change_spec(template@, colors, alpha),
{
    let (cr, cg, cb) = colors;
    let mut out = String::new();
    if str_contains(template, ".strip") {
        push_hex(&mut out, cr);
        push_hex(&mut out, cg);
        push_hex(&mut out, cb);
        proof {
            assert(out@ =~= change_spec(template@, colors, alpha));
        }
    } else if str_contains(template, ".xrgba") {
        proof {
            reveal_strlit("/");
        }
        push_hex(&mut out, cr);
        push_sep(&mut out, "/");
        push_hex(&mut out, cg);
        push_sep(&mut out, "/");
        push_hex(&mut out, cb);
        push_sep(&mut out, "/");
        push_hex(&mut out, alpha);
        proof {
            assert(out@ =~= change_spec(template@, colors, alpha));
        }
    } else if str_contains(template, ".rgba") {
        proof {
            reveal_strlit(",");
        }
        push_dec(&mut out, cr);
        push_sep(&mut out, ",");
        push_dec(&mut out, cg);
        push_sep(&mut out, ",");
        push_dec(&mut out, cb);
        push_sep(&mut out, ",");
        push_dec(&mut out, alpha);
        proof {
            assert(out@ =~= change_spec(template@, colors, alpha));
        }
    } else if str_contains(template, ".rgb") {
        proof {
            reveal_strlit(",");
        }
        push_dec(&mut out, cr);
        push_sep(&mut out, ",");
        push_dec(&mut out, cg);
        push_sep(&mut out, ",");
        push_dec(&mut out, cb);
        proof {
            assert(out@ =~= change_spec(template@, colors, alpha));
        }
    } else if str_contains(template, ".alpha_per") {
        push_dec(&mut out, (alpha / 255) * 100);
        proof {
            assert(out@ =~= change_spec(template@, colors, alpha));
        }
    } else if str_contains(template, ".alpha") {
        proof {
            reveal_strlit("#");
        }
        push_sep(&mut out, "#");
        push_hex(&mut out, cr);
        push_hex(&mut out, cg);
        push_hex(&mut out, cb);
        push_hex(&mut out, alpha);
        proof {
            assert(out@ =~= change_spec(template@, colors, alpha));
        }
    } else {
        proof {
            reveal_strlit("#");
        }
        push_sep(&mut out, "#");
        push_hex(&mut out, cr);
        push_hex(&mut out, cg);
        push_hex(&mut out, cb);
        proof {
            assert(out@ =~= change_spec(template@, colors, alpha));
        }
    }
    out
}

// ---------------------------------------------------------------------------
// Hex color parsing
// ---------------------------------------------------------------------------
/// The value of a hex digit character, or -1 where it is none.
pub open spec fn hex_val(c: char) -> int {
    if '0' <= c && c <= '9' {
        c as int - '0' as int
    } else if 'a' <= c && c <= 'f' {
        c as int - 'a' as int + 10
    } else if 'A' <= c && c <= 'F' {
        c as int - 'A' as int + 10
    } else {
        -1
    }
}

/// What parsing a persisted palette line yields: the color of a line of the
/// exact shape `#rrggbb` (hex digits of either case), and nothing otherwise.
pub open spec fn parse_hex_spec(s: Seq<char>) -> Option<(u8, u8, u8)> {
    if s.len() == 7 && s[0] == '#' && hex_val(s[1]) >= 0 && hex_val(s[2]) >= 0 && hex_val(s[3])
        >= 0 && hex_val(s[4]) >= 0 && hex_val(s[5]) >= 0 && hex_val(s[6]) >= 0 {
        Some(
            (
                (hex_val(s[1]) * 16 + hex_val(s[2])) as u8,
                (hex_val(s[3]) * 16 + hex_val(s[4])) as u8,
                (hex_val(s[5]) * 16 + hex_val(s[6])) as u8,
            ),
        )
    } else {
        None
    }
}

fn hex_val_exec(c: char) -> (r: Option<u8>)
    ensures
        r is Some <==> hex_val(c) >= 0,
        r matches Some(v) ==> v as int == hex_val(c) && v < 16,
{
    let v = c as u32;
    if v >= 48 && v <= 57 {
        Some((v - 48) as u8)
    } else if v >= 97 && v <= 102 {
        Some((v - 97 + 10) as u8)
    } else if v >= 65 && v <= 70 {
        Some((v - 65 + 10) as u8)
    } else {
        None
    }
}

fn hex_byte_at(s: &str, i: usize) -> (r: Option<u8>)
    requires
        i + 2 <= s@.len(),
        s@.len() <= usize::MAX,
    ensures
        r is Some <==> hex_val(s@[i as int]) >= 0 && hex_val(s@[i + 1]) >= 0,
        r matches Some(v) ==> v as int == hex_val(s@[i as int]) * 16 + hex_val(s@[i + 1]),
{
    let hi = match hex_val_exec(s.get_char(i)) {
        Some(v) => v,
        None => {
            return None;
        },
    };
    let lo = match hex_val_exec(s.get_char(i + 1)) {
        Some(v) => v,
        None => {
            return None;
        },
    };
    Some(hi * 16 + lo)
}

/// Parses a persisted palette line of the shape `#rrggbb` back into a color.
pub fn parse_hex_color(line: &str) -> (r: Option<(u8, u8, u8)>)
    ensures
        r == parse_hex_spec(line@),
{
    if line.unicode_len() != 7 {
        return None;
    }
    if line.get_char(0) != '#' {
        return None;
    }
    let red = match hex_byte_at(line, 1) {
        Some(v) => v,
        None => {
            return None;
        },
    };
    let green = match hex_byte_at(line, 3) {
        Some(v) => v,
        None => {
            return None;
        },
    };
    let blue = match hex_byte_at(line, 5) {
        Some(v) => v,
        None => {
            return None;
        },
    };
    Some((red, green, blue))
}

} // verus!
