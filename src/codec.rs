//! The text token that carries a filter configuration across a stateless
//! round trip, and its parser.
//!
//! A token is fifteen `-`-separated fields: the prefix `darken`, the update
//! flag, invert, hue rotation, sepia, nord, background erase, the erase
//! threshold with two decimals, auto-adjust, start, the model id, the
//! activation id, the slot index, the background colour (`#rrggbb` or
//! `None`) and the id of the message the options belong to.

use vstd::prelude::*;
use crate::color::RgbColor;
use crate::model::{
    ActivationFunction,
    activation_from_id,
    activation_id,
    lemma_activation_id_round_trip,
    lemma_model_id_round_trip,
    model_from_id,
    model_id,
};
use crate::options::NordOptions;

verus! {

pub open spec fn digit_char(d: int) -> char {
    if d == 0 {
        '0'
    } else if d == 1 {
        '1'
    } else if d == 2 {
        '2'
    } else if d == 3 {
        '3'
    } else if d == 4 {
        '4'
    } else if d == 5 {
        '5'
    } else if d == 6 {
        '6'
    } else if d == 7 {
        '7'
    } else if d == 8 {
        '8'
    } else {
        '9'
    }
}

pub open spec fn is_digit(c: char) -> bool {
    c == '0' || c == '1' || c == '2' || c == '3' || c == '4' || c == '5' || c == '6' || c == '7'
        || c == '8' || c == '9'
}

pub open spec fn digit_value(c: char) -> int {
    if c == '0' {
        0
    } else if c == '1' {
        1
    } else if c == '2' {
        2
    } else if c == '3' {
        3
    } else if c == '4' {
        4
    } else if c == '5' {
        5
    } else if c == '6' {
        6
    } else if c == '7' {
        7
    } else if c == '8' {
        8
    } else {
        9
    }
}

/// The decimal digits of `n`, most significant first, without leading zeros.
pub open spec fn decimal(n: nat) -> Seq<char>
    decreases n,
{
    if n < 10 {
        seq![digit_char(n as int)]
    } else {
        decimal(n / 10).push(digit_char((n % 10) as int))
    }
}

pub open spec fn all_digits(s: Seq<char>) -> bool {
    forall|i: int| 0 <= i < s.len() ==> is_digit(#[trigger] s[i])
}

/// The number that a string of decimal digits spells.
pub open spec fn digits_value(s: Seq<char>) -> nat
    decreases s.len(),
{
    if s.len() == 0 {
        0
    } else {
        digits_value(s.drop_last()) * 10 + digit_value(s.last()) as nat
    }
}

/// A non-empty string of decimal digits whose value is at most `max`.
pub open spec fn parse_nat(s: Seq<char>, max: nat) -> Option<nat> {
    if s.len() > 0 && all_digits(s) && digits_value(s) <= max {
        Some(digits_value(s))
    } else {
        None
    }
}

pub open spec fn bool_text(b: bool) -> Seq<char> {
    if b {
        "true"@
    } else {
        "false"@
    }
}

pub open spec fn parse_bool(s: Seq<char>) -> Option<bool> {
    if s == "true"@ {
        Some(true)
    } else if s == "false"@ {
        Some(false)
    } else {
        None
    }
}

/// A percentage as a fraction with two decimals: 30 is `0.30`.
pub open spec fn percent_text(p: u32) -> Seq<char> {
    decimal((p / 100) as nat) + seq!['.', digit_char(((p % 100) / 10) as int), digit_char((p % 10) as int)]
}

pub open spec fn parse_percent(s: Seq<char>) -> Option<u32> {
    if s.len() >= 4 && s[s.len() - 3] == '.' && is_digit(s[s.len() - 2]) && is_digit(s[s.len() - 1]) {
        match parse_nat(s.take(s.len() - 3), 42949672) {
            Some(whole) => {
                let v = whole * 100 + digit_value(s[s.len() - 2]) * 10 + digit_value(s[s.len() - 1]);
                if v <= u32::MAX {
                    Some(v as u32)
                } else {
                    None
                }
            },
            None => None,
        }
    } else {
        None
    }
}

pub open spec fn hex_char(n: int) -> char {
    if n == 0 {
        '0'
    } else if n == 1 {
        '1'
    } else if n == 2 {
        '2'
    } else if n == 3 {
        '3'
    } else if n == 4 {
        '4'
    } else if n == 5 {
        '5'
    } else if n == 6 {
        '6'
    } else if n == 7 {
        '7'
    } else if n == 8 {
        '8'
    } else if n == 9 {
        '9'
    } else if n == 10 {
        'a'
    } else if n == 11 {
        'b'
    } else if n == 12 {
        'c'
    } else if n == 13 {
        'd'
    } else if n == 14 {
        'e'
    } else {
        'f'
    }
}

/// The value of a hexadecimal digit of either case; -1 for any other
/// character.
pub open spec fn hex_value(c: char) -> int {
    if is_digit(c) {
        digit_value(c)
    } else if c == 'a' || c == 'A' {
        10
    } else if c == 'b' || c == 'B' {
        11
    } else if c == 'c' || c == 'C' {
        12
    } else if c == 'd' || c == 'D' {
        13
    } else if c == 'e' || c == 'E' {
        14
    } else if c == 'f' || c == 'F' {
        15
    } else {
        -1
    }
}

pub open spec fn byte_hex(b: u8) -> Seq<char> {
    seq![hex_char(b as int / 16), hex_char(b as int % 16)]
}

/// `#rrggbb` in lower case.
pub open spec fn color_hex(c: RgbColor) -> Seq<char> {
    seq!['#'] + byte_hex(c.r) + byte_hex(c.g) + byte_hex(c.b)
}

pub open spec fn strip_hashes(s: Seq<char>) -> Seq<char>
    decreases s.len(),
{
    if s.len() > 0 && s[0] == '#' {
        strip_hashes(s.drop_first())
    } else {
        s
    }
}

pub open spec fn hex_byte_at(s: Seq<char>, i: int) -> u8 {
    (16 * hex_value(s[i]) + hex_value(s[i + 1])) as u8
}

/// Six hexadecimal digits, after any leading `#`s.
pub open spec fn parse_color(s: Seq<char>) -> Option<RgbColor> {
    let h = strip_hashes(s);
    if h.len() == 6 && forall|i: int| 0 <= i < 6 ==> #[trigger] hex_value(h[i]) >= 0 {
        Some(RgbColor { r: hex_byte_at(h, 0), g: hex_byte_at(h, 2), b: hex_byte_at(h, 4) })
    } else {
        None
    }
}

/// The background colour that asks for a custom colour to be entered.
pub open spec fn color_prompt() -> RgbColor {
    RgbColor { r: 0, g: 0, b: 1 }
}

pub open spec fn background_text(bg: Option<RgbColor>) -> Seq<char> {
    match bg {
        Some(c) => color_hex(c),
        None => "None"@,
    }
}

pub open spec fn parse_background(s: Seq<char>) -> Option<Option<RgbColor>> {
    if s == "None"@ {
        Some(None)
    } else {
        match parse_color(s) {
            Some(c) => Some(Some(c)),
            None => None,
        }
    }
}

/// Fields joined by `-`.
pub open spec fn join_dash(fs: Seq<Seq<char>>) -> Seq<char>
    decreases fs.len(),
{
    if fs.len() <= 1 {
        if fs.len() == 1 {
            fs[0]
        } else {
            Seq::empty()
        }
    } else {
        join_dash(fs.drop_last()) + seq!['-'] + fs.last()
    }
}

/// The `-`-separated fields of a text; a text without `-` is one field.
pub open spec fn split_dash(s: Seq<char>) -> Seq<Seq<char>>
    decreases s.len(),
{
    if s.len() == 0 {
        seq![Seq::empty()]
    } else {
        let r = split_dash(s.drop_last());
        if s.last() == '-' {
            r.push(Seq::empty())
        } else {
            r.update(r.len() - 1, r.last().push(s.last()))
        }
    }
}

/// The fields of the token for options `o`.
pub open spec fn token_fields(o: NordOptions, update: bool, slot: usize, message_id: u64) -> Seq<Seq<char>> {
    seq![
        "darken"@,
        bool_text(update),
        bool_text(o.invert),
        decimal(o.hue_rotate as nat),
        bool_text(o.sepia),
        bool_text(o.nord),
        bool_text(o.erase_most_present_color),
        percent_text(o.erase_when_percentage),
        bool_text(o.auto_adjust),
        bool_text(o.start),
        decimal(model_id(o.model) as nat),
        decimal(activation_id(o.activation_function) as nat),
        decimal(slot as nat),
        background_text(o.background_color),
        decimal(message_id as nat),
    ]
}

pub open spec fn token_of(o: NordOptions, update: bool, slot: usize, message_id: u64) -> Seq<char> {
    join_dash(token_fields(o, update, slot, message_id))
}

/// What a token carries besides the options: the update flag, the slot index
/// that keeps tokens of equal options apart, the message id, and whether the
/// background colour is the prompt for a custom colour.
#[derive(Clone, Copy, Debug)]
pub struct DecodedToken {
    pub options: NordOptions,
    pub update: bool,
    pub slot: usize,
    pub message_id: u64,
    pub asks_for_color: bool,
}

/// A token that does not parse.
#[derive(Clone, Copy, Debug, PartialEq, Eq, Structural)]
pub enum TokenError {
    MalformedToken,
}

/// The activation that an id names; an unknown id gives the default,
/// `Sigmoid`.
pub open spec fn activation_or_default(id: u8) -> ActivationFunction {
    match activation_from_id(id) {
        Some(a) => a,
        None => ActivationFunction::Sigmoid,
    }
}

/// The meaning of a token, or `None` for a malformed one.
pub open spec fn decode_token(t: Seq<char>) -> Option<DecodedToken> {
    let f = split_dash(t);
    if f.len() != 15 || f[0] != "darken"@ {
        None
    } else {
        match (
            parse_bool(f[1]),
            parse_bool(f[2]),
            parse_nat(f[3], u16::MAX as nat),
            parse_bool(f[4]),
            parse_bool(f[5]),
            parse_bool(f[6]),
            parse_percent(f[7]),
            parse_bool(f[8]),
            parse_bool(f[9]),
            parse_nat(f[10], usize::MAX as nat),
            parse_nat(f[11], u8::MAX as nat),
            parse_nat(f[12], usize::MAX as nat),
            parse_background(f[13]),
            parse_nat(f[14], u64::MAX as nat),
        ) {
            (
                Some(update),
                Some(invert),
                Some(hue),
                Some(sepia),
                Some(nord),
                Some(erase),
                Some(percent),
                Some(auto_adjust),
                Some(start),
                Some(model),
                Some(activation),
                Some(slot),
                Some(background),
                Some(message_id),
            ) => Some(
                DecodedToken {
                    options: NordOptions {
                        invert,
                        hue_rotate: hue as u16,
                        sepia,
                        nord,
                        erase_most_present_color: erase,
                        erase_when_percentage: percent,
                        auto_adjust,
                        start,
                        model: model_from_id(model as usize),
                        activation_function: activation_or_default(activation as u8),
                        background_color: background,
                    },
                    update,
                    slot: slot as usize,
                    message_id: message_id as u64,
                    asks_for_color: background == Some(color_prompt()),
                },
            ),
            _ => None,
        }
    }
}

fn digit_str(d: u64) -> (s: &'static str)
    requires
        d < 10,
    ensures
        s@ == seq![digit_char(d as int)],
{
    match d {
        0 => {
            proof {
                reveal_strlit("0");
            }
            "0"
        },
        1 => {
            proof {
                reveal_strlit("1");
            }
            "1"
        },
        2 => {
            proof {
                reveal_strlit("2");
            }
            "2"
        },
        3 => {
            proof {
                reveal_strlit("3");
            }
            "3"
        },
        4 => {
            proof {
                reveal_strlit("4");
            }
            "4"
        },
        5 => {
            proof {
                reveal_strlit("5");
            }
            "5"
        },
        6 => {
            proof {
                reveal_strlit("6");
            }
            "6"
        },
        7 => {
            proof {
                reveal_strlit("7");
            }
            "7"
        },
        8 => {
            proof {
                reveal_strlit("8");
            }
            "8"
        },
        _ => {
            proof {
                reveal_strlit("9");
            }
            "9"
        },
    }
}

fn hex_str(n: u8) -> (s: &'static str)
    requires
        n < 16,
    ensures
        s@ == seq![hex_char(n as int)],
{
    match n {
        0 => {
            proof {
                reveal_strlit("0");
            }
            "0"
        },
        1 => {
            proof {
                reveal_strlit("1");
            }
            "1"
        },
        2 => {
            proof {
                reveal_strlit("2");
            }
            "2"
        },
        3 => {
            proof {
                reveal_strlit("3");
            }
            "3"
        },
        4 => {
            proof {
                reveal_strlit("4");
            }
            "4"
        },
        5 => {
            proof {
                reveal_strlit("5");
            }
            "5"
        },
        6 => {
            proof {
                reveal_strlit("6");
            }
            "6"
        },
        7 => {
            proof {
                reveal_strlit("7");
            }
            "7"
        },
        8 => {
            proof {
                reveal_strlit("8");
            }
            "8"
        },
        9 => {
            proof {
                reveal_strlit("9");
            }
            "9"
        },
        10 => {
            proof {
                reveal_strlit("a");
            }
            "a"
        },
        11 => {
            proof {
                reveal_strlit("b");
            }
            "b"
        },
        12 => {
            proof {
                reveal_strlit("c");
            }
            "c"
        },
        13 => {
            proof {
                reveal_strlit("d");
            }
            "d"
        },
        14 => {
            proof {
                reveal_strlit("e");
            }
            "e"
        },
        _ => {
            proof {
                reveal_strlit("f");
            }
            "f"
        },
    }
}

pub(crate) fn push_decimal(s: &mut String, n: u64)
    ensures
        final(s)@ == old(s)@ + decimal(n as nat),
    decreases n,
{
    if n >= 10 {
        push_decimal(s, n / 10);
    }
    s.append(digit_str(n % 10));
    assert(final(s)@ =~= old(s)@ + decimal(n as nat));
}

fn push_bool(s: &mut String, b: bool)
    ensures
        final(s)@ == old(s)@ + bool_text(b),
{
    if b {
        s.append("true");
    } else {
        s.append("false");
    }
}

fn push_dash(s: &mut String)
    ensures
        final(s)@ == old(s)@ + seq!['-'],
{
    proof {
        reveal_strlit("-");
    }
    s.append("-");
}

impl RgbColor {
    /// The colour as `#rrggbb`, in lower case.
    pub fn as_hex(&self) -> (s: String)
        ensures
            s@ == color_hex(*self),
    {
        proof {
            reveal_strlit("#");
        }
        let mut s = String::from_str("#");
        s.append(hex_str(self.r / 16));
        s.append(hex_str(self.r % 16));
        s.append(hex_str(self.g / 16));
        s.append(hex_str(self.g % 16));
        s.append(hex_str(self.b / 16));
        s.append(hex_str(self.b % 16));
        assert(s@ =~= color_hex(*self));
        s
    }
}

impl NordOptions {
    /// The token for these options. `id` tells apart tokens of equal options
    /// (absent, it is 0); `update` and `message_id` ride along unchanged.
    pub fn make_nord_custom_id(&self, message_id: &u64, update: bool, id: Option<usize>) -> (t: String)
        ensures
            t@ == token_of(
                *self,
                update,
                match id {
                    Some(i) => i,
                    None => 0,
                },
                *message_id,
            ),
    {
        let slot: usize = match id {
            Some(i) => i,
            None => 0,
        };
        let ghost fs = token_fields(*self, update, slot, *message_id);
        proof {
            reveal_strlit("darken");
        }
        let mut t = String::from_str("darken");
        assert(fs.take(1) =~= seq![fs[0]]);
        assert(t@ == join_dash(fs.take(1)));
        push_dash(&mut t);
        push_bool(&mut t, update);
        proof {
            lemma_join_step(fs, 1);
        }
        push_dash(&mut t);
        push_bool(&mut t, self.invert);
        proof {
            lemma_join_step(fs, 2);
        }
        push_dash(&mut t);
        push_decimal(&mut t, self.hue_rotate as u64);
        proof {
            lemma_join_step(fs, 3);
        }
        push_dash(&mut t);
        push_bool(&mut t, self.sepia);
        proof {
            lemma_join_step(fs, 4);
        }
        push_dash(&mut t);
        push_bool(&mut t, self.nord);
        proof {
            lemma_join_step(fs, 5);
        }
        push_dash(&mut t);
        push_bool(&mut t, self.erase_most_present_color);
        proof {
            lemma_join_step(fs, 6);
        }
        push_dash(&mut t);
        push_percent(&mut t, self.erase_when_percentage);
        proof {
            lemma_join_step(fs, 7);
        }
        push_dash(&mut t);
        push_bool(&mut t, self.auto_adjust);
        proof {
            lemma_join_step(fs, 8);
        }
        push_dash(&mut t);
        push_bool(&mut t, self.start);
        proof {
            lemma_join_step(fs, 9);
        }
        push_dash(&mut t);
        push_decimal(&mut t, self.model.id() as u64);
        proof {
            lemma_join_step(fs, 10);
        }
        push_dash(&mut t);
        push_decimal(&mut t, self.activation_function.id() as u64);
        proof {
            lemma_join_step(fs, 11);
        }
        push_dash(&mut t);
        push_decimal(&mut t, slot as u64);
        proof {
            lemma_join_step(fs, 12);
        }
        push_dash(&mut t);
        push_background(&mut t, self.background_color);
        proof {
            lemma_join_step(fs, 13);
        }
        push_dash(&mut t);
        push_decimal(&mut t, *message_id);
        proof {
            lemma_join_step(fs, 14);
        }
        assert(fs.take(15) =~= fs);
        t
    }
}

proof fn lemma_join_step(fs: Seq<Seq<char>>, k: int)
    requires
        1 <= k < fs.len(),
    ensures
        join_dash(fs.take(k + 1)) == join_dash(fs.take(k)) + seq!['-'] + fs[k],
{
    assert(fs.take(k + 1).drop_last() =~= fs.take(k));
}

fn push_percent(s: &mut String, p: u32)
    ensures
        final(s)@ == old(s)@ + percent_text(p),
{
    push_decimal(s, (p / 100) as u64);
    proof {
        reveal_strlit(".");
    }
    s.append(".");
    s.append(digit_str(((p % 100) / 10) as u64));
    s.append(digit_str((p % 10) as u64));
    assert(final(s)@ =~= old(s)@ + percent_text(p));
}

fn push_background(s: &mut String, bg: Option<RgbColor>)
    ensures
        final(s)@ == old(s)@ + background_text(bg),
{
    match bg {
        Some(c) => {
            let h = c.as_hex();
            s.append(h.as_str());
        },
        None => {
            s.append("None");
        },
    }
}

/// Why a colour does not parse.
#[derive(Clone, Copy, Debug, PartialEq, Eq, Structural)]
pub enum ColorError {
    InvalidHex,
}

fn digit_of(c: char) -> (d: Option<u8>)
    ensures
        d == (if is_digit(c) {
            Some(digit_value(c) as u8)
        } else {
            None::<u8>
        }),
{
    if c == '0' {
        Some(0)
    } else if c == '1' {
        Some(1)
    } else if c == '2' {
        Some(2)
    } else if c == '3' {
        Some(3)
    } else if c == '4' {
        Some(4)
    } else if c == '5' {
        Some(5)
    } else if c == '6' {
        Some(6)
    } else if c == '7' {
        Some(7)
    } else if c == '8' {
        Some(8)
    } else if c == '9' {
        Some(9)
    } else {
        None
    }
}

fn hex_of(c: char) -> (v: i32)
    ensures
        v == hex_value(c),
{
    match digit_of(c) {
        Some(d) => d as i32,
        None => {
            if c == 'a' || c == 'A' {
                10
            } else if c == 'b' || c == 'B' {
                11
            } else if c == 'c' || c == 'C' {
                12
            } else if c == 'd' || c == 'D' {
                13
            } else if c == 'e' || c == 'E' {
                14
            } else if c == 'f' || c == 'F' {
                15
            } else {
                -1
            }
        },
    }
}

fn chars_of(s: &str) -> (v: Vec<char>)
    ensures
        v@ == s@,
{
    let n = s.unicode_len();
    let mut v: Vec<char> = Vec::with_capacity(n);
    let mut i: usize = 0;
    while i < n
        invariant
            n == s@.len(),
            i <= n,
            v@ == s@.take(i as int),
        decreases n - i,
    {
        v.push(s.get_char(i));
        i = i + 1;
        assert(v@ =~= s@.take(i as int));
    }
    assert(v@ =~= s@);
    v
}

proof fn lemma_split_nonempty(s: Seq<char>)
    ensures
        split_dash(s).len() >= 1,
    decreases s.len(),
{
    if s.len() > 0 {
        lemma_split_nonempty(s.drop_last());
    }
}

/// The `-`-separated fields of `t`.
fn split_fields(t: &Vec<char>) -> (fs: Vec<Vec<char>>)
    ensures
        fs@.len() == split_dash(t@).len(),
        forall|i: int| 0 <= i < fs@.len() ==> (#[trigger] fs@[i])@ == split_dash(t@)[i],
{
    let mut done: Vec<Vec<char>> = Vec::new();
    let mut cur: Vec<char> = Vec::new();
    let mut i: usize = 0;
    assert(t@.take(0) =~= Seq::<char>::empty());
    while i < t.len()
        invariant
            i <= t@.len(),
            done@.len() + 1 == split_dash(t@.take(i as int)).len(),
            forall|j: int| 0 <= j < done@.len() ==> (#[trigger] done@[j])@ == split_dash(t@.take(i as int))[j],
            cur@ == split_dash(t@.take(i as int)).last(),
        decreases t@.len() - i,
    {
        let c = t[i];
        let ghost prev = split_dash(t@.take(i as int));
        assert(t@.take(i + 1).drop_last() =~= t@.take(i as int));
        proof {
            lemma_split_nonempty(t@.take(i as int));
        }
        if c == '-' {
            done.push(cur);
            cur = Vec::new();
        } else {
            cur.push(c);
        }
        i = i + 1;
    }
    assert(t@.take(t@.len() as int) =~= t@);
    done.push(cur);
    done
}

proof fn lemma_digits_prefix(s: Seq<char>, i: int)
    requires
        all_digits(s),
        0 <= i <= s.len(),
    ensures
        digits_value(s.take(i)) <= digits_value(s),
    decreases s.len() - i,
{
    if i < s.len() {
        lemma_digits_prefix(s, i + 1);
        assert(s.take(i + 1).drop_last() =~= s.take(i));
    } else {
        assert(s.take(i) =~= s);
    }
}

/// The number that `v[start..end]` spells, if it is a non-empty run of
/// digits whose value is at most `max`.
fn parse_nat_range(v: &Vec<char>, start: usize, end: usize, max: u64) -> (r: Option<u64>)
    requires
        start <= end <= v@.len(),
    ensures
        r == (match parse_nat(v@.subrange(start as int, end as int), max as nat) {
            Some(n) => Some(n as u64),
            None => None::<u64>,
        }),
{
    let ghost s = v@.subrange(start as int, end as int);
    if start == end {
        return None;
    }
    let mut value: u128 = 0;
    let mut i: usize = start;
    while i < end
        invariant
            start <= i <= end <= v@.len(),
            s == v@.subrange(start as int, end as int),
            all_digits(s.take(i - start)),
            value == digits_value(s.take(i - start)),
            value <= max,
        decreases end - i,
    {
        let ghost k = (i - start) as int;
        assert(s.take(k + 1).drop_last() =~= s.take(k));
        match digit_of(v[i]) {
            None => {
                assert(!is_digit(s[k]));
                return None;
            },
            Some(d) => {
                value = value * 10 + d as u128;
                if value > max as u128 {
                    proof {
                        if all_digits(s) {
                            lemma_digits_prefix(s, k + 1);
                        }
                    }
                    return None;
                }
            },
        }
        i = i + 1;
    }
    assert(s.take(end - start) =~= s);
    Some(value as u64)
}

fn parse_bool_field(v: &Vec<char>) -> (r: Option<bool>)
    ensures
        r == parse_bool(v@),
{
    proof {
        reveal_strlit("true");
        reveal_strlit("false");
    }
    if v.len() == 4 && v[0] == 't' && v[1] == 'r' && v[2] == 'u' && v[3] == 'e' {
        assert(v@ =~= "true"@);
        Some(true)
    } else if v.len() == 5 && v[0] == 'f' && v[1] == 'a' && v[2] == 'l' && v[3] == 's' && v[4] == 'e' {
        assert(v@ =~= "false"@);
        Some(false)
    } else {
        None
    }
}

fn parse_percent_field(v: &Vec<char>) -> (r: Option<u32>)
    ensures
        r == parse_percent(v@),
{
    let n = v.len();
    if n < 4 || v[n - 3] != '.' {
        return None;
    }
    let tens = digit_of(v[n - 2]);
    let ones = digit_of(v[n - 1]);
    if tens.is_none() || ones.is_none() {
        return None;
    }
    assert(v@.subrange(0, n - 3) =~= v@.take(n - 3));
    match parse_nat_range(v, 0, n - 3, 42949672) {
        None => None,
        Some(whole) => {
            let value: u64 = whole * 100 + tens.unwrap() as u64 * 10 + ones.unwrap() as u64;
            if value <= 4294967295 {
                Some(value as u32)
            } else {
                None
            }
        },
    }
}

proof fn lemma_strip_hashes(s: Seq<char>, k: int)
    requires
        0 <= k <= s.len(),
        forall|i: int| 0 <= i < k ==> s[i] == '#',
        k == s.len() || s[k] != '#',
    ensures
        strip_hashes(s) == s.subrange(k, s.len() as int),
    decreases k,
{
    if k == 0 {
        assert(s.subrange(0, s.len() as int) =~= s);
    } else {
        let t = s.drop_first();
        lemma_strip_hashes(t, k - 1);
        assert(t.subrange(k - 1, t.len() as int) =~= s.subrange(k, s.len() as int));
    }
}

/// The colour that `v` spells as six hexadecimal digits after any `#`s.
fn parse_color_field(v: &Vec<char>) -> (r: Option<RgbColor>)
    ensures
        r == parse_color(v@),
{
    let n = v.len();
    let mut k: usize = 0;
    while k < n && v[k] == '#'
        invariant
            k <= n == v@.len(),
            forall|i: int| 0 <= i < k ==> v@[i] == '#',
        decreases n - k,
    {
        k = k + 1;
    }
    proof {
        lemma_strip_hashes(v@, k as int);
    }
    let ghost h = v@.subrange(k as int, n as int);
    if n - k != 6 {
        return None;
    }
    let mut digits: Vec<i32> = Vec::new();
    let mut i: usize = 0;
    while i < 6
        invariant
            n - k == 6,
            n == v@.len(),
            h == v@.subrange(k as int, n as int),
            strip_hashes(v@) == h,
            i <= 6,
            digits@.len() == i,
            forall|j: int| 0 <= j < i ==> #[trigger] digits@[j] == hex_value(h[j]) && digits@[j] >= 0,
        decreases 6 - i,
    {
        let d = hex_of(v[k + i]);
        if d < 0 {
            assert(h[i as int] == v@[k + i]);
            assert(hex_value(h[i as int]) < 0);
            return None;
        }
        digits.push(d);
        i = i + 1;
    }
    let r = (16 * digits[0] + digits[1]) as u8;
    let g = (16 * digits[2] + digits[3]) as u8;
    let b = (16 * digits[4] + digits[5]) as u8;
    Some(RgbColor { r, g, b })
}

fn parse_background_field(v: &Vec<char>) -> (r: Option<Option<RgbColor>>)
    ensures
        r == parse_background(v@),
{
    proof {
        reveal_strlit("None");
    }
    if v.len() == 4 && v[0] == 'N' && v[1] == 'o' && v[2] == 'n' && v[3] == 'e' {
        assert(v@ =~= "None"@);
        Some(None)
    } else {
        match parse_color_field(v) {
            Some(c) => Some(Some(c)),
            None => None,
        }
    }
}

impl RgbColor {
    /// Parses six hexadecimal digits of either case, after any leading `#`s.
    pub fn from_hex(hex: &str) -> (r: Result<RgbColor, ColorError>)
        ensures
            r is Ok <==> parse_color(hex@) is Some,
            r is Ok ==> Some(r.unwrap()) == parse_color(hex@),
    {
        let v = chars_of(hex);
        match parse_color_field(&v) {
            Some(c) => Ok(c),
            None => Err(ColorError::InvalidHex),
        }
    }
}

fn is_prefix_field(v: &Vec<char>) -> (b: bool)
    ensures
        b == (v@ == "darken"@),
{
    proof {
        reveal_strlit("darken");
    }
    let b = v.len() == 6 && v[0] == 'd' && v[1] == 'a' && v[2] == 'r' && v[3] == 'k' && v[4] == 'e'
        && v[5] == 'n';
    if b {
        assert(v@ =~= "darken"@);
    }
    b
}

fn parse_nat_field(v: &Vec<char>, max: u64) -> (r: Option<u64>)
    ensures
        r == (match parse_nat(v@, max as nat) {
            Some(n) => Some(n as u64),
            None => None::<u64>,
        }),
{
    assert(v@.subrange(0, v@.len() as int) =~= v@);
    parse_nat_range(v, 0, v.len(), max)
}

/// Parses a token into its options and the values riding along with them,
/// including whether the background field holds the prompt colour.
pub fn decode_custom_id(custom_id: &str) -> (r: Result<DecodedToken, TokenError>)
    ensures
        r is Ok <==> decode_token(custom_id@) is Some,
        r is Ok ==> decode_token(custom_id@) == Some(r.unwrap()),
{
    let t = chars_of(custom_id);
    let f = split_fields(&t);
    let ghost g = split_dash(custom_id@);
    if f.len() != 15 {
        return Err(TokenError::MalformedToken);
    }
    assert(f@[0]@ == g[0] && f@[1]@ == g[1] && f@[2]@ == g[2] && f@[3]@ == g[3] && f@[4]@ == g[4]);
    assert(f@[5]@ == g[5] && f@[6]@ == g[6] && f@[7]@ == g[7] && f@[8]@ == g[8] && f@[9]@ == g[9]);
    assert(f@[10]@ == g[10] && f@[11]@ == g[11] && f@[12]@ == g[12] && f@[13]@ == g[13] && f@[14]@
        == g[14]);
    if !is_prefix_field(&f[0]) {
        return Err(TokenError::MalformedToken);
    }
    let update = parse_bool_field(&f[1]);
    let invert = parse_bool_field(&f[2]);
    let hue = parse_nat_field(&f[3], 65535);
    let sepia = parse_bool_field(&f[4]);
    let nord = parse_bool_field(&f[5]);
    let erase = parse_bool_field(&f[6]);
    let percent = parse_percent_field(&f[7]);
    let auto_adjust = parse_bool_field(&f[8]);
    let start = parse_bool_field(&f[9]);
    let model = parse_nat_field(&f[10], usize::MAX as u64);
    let activation = parse_nat_field(&f[11], 255);
    let slot = parse_nat_field(&f[12], usize::MAX as u64);
    let background = parse_background_field(&f[13]);
    let message_id = parse_nat_field(&f[14], u64::MAX);
    match (
        update,
        invert,
        hue,
        sepia,
        nord,
        erase,
        percent,
        auto_adjust,
        start,
        model,
        activation,
        slot,
        background,
        message_id,
    ) {
        (
            Some(update),
            Some(invert),
            Some(hue),
            Some(sepia),
            Some(nord),
            Some(erase),
            Some(percent),
            Some(auto_adjust),
            Some(start),
            Some(model),
            Some(activation),
            Some(slot),
            Some(background),
            Some(message_id),
        ) => {
            let activation_function = match ActivationFunction::from_u8(activation as u8) {
                Some(a) => a,
                None => ActivationFunction::Sigmoid,
            };
            let asks_for_color = match background {
                Some(c) => c.r == 0 && c.g == 0 && c.b == 1,
                None => false,
            };
            Ok(
                DecodedToken {
                    options: NordOptions {
                        invert,
                        hue_rotate: hue as u16,
                        sepia,
                        nord,
                        erase_most_present_color: erase,
                        erase_when_percentage: percent,
                        auto_adjust,
                        start,
                        model: crate::model::Models::from_id(model as usize),
                        activation_function,
                        background_color: background,
                    },
                    update,
                    slot: slot as usize,
                    message_id,
                    asks_for_color,
                },
            )
        },
        _ => Err(TokenError::MalformedToken),
    }
}

/// The options that a token carries. The reserved prompt colour is no
/// colour to flatten onto: it leaves the background unset.
pub open spec fn token_options(d: DecodedToken) -> NordOptions {
    NordOptions {
        background_color: if d.asks_for_color {
            None
        } else {
            d.options.background_color
        },
        ..d.options
    }
}

impl NordOptions {
    /// The options that a token carries. A background field holding the
    /// reserved prompt colour gives no background colour here; use
    /// `decode_custom_id`, whose `asks_for_color` reports the prompt.
    pub fn from_custom_id(custom_id: &str) -> (r: Result<NordOptions, TokenError>)
        ensures
            r is Ok <==> decode_token(custom_id@) is Some,
            r is Ok ==> r.unwrap() == token_options(decode_token(custom_id@).unwrap()),
    {
        match decode_custom_id(custom_id) {
            Ok(d) => {
                let background_color = if d.asks_for_color {
                    None
                } else {
                    d.options.background_color
                };
                Ok(NordOptions { background_color, ..d.options })
            },
            Err(e) => Err(e),
        }
    }
}

pub open spec fn no_dash(s: Seq<char>) -> bool {
    forall|i: int| 0 <= i < s.len() ==> #[trigger] s[i] != '-'
}

proof fn lemma_split_append(x: Seq<char>, y: Seq<char>)
    requires
        no_dash(y),
    ensures
        split_dash(x + y) == split_dash(x).update(
            split_dash(x).len() - 1,
            split_dash(x).last() + y,
        ),
    decreases y.len(),
{
    lemma_split_nonempty(x);
    if y.len() == 0 {
        assert(x + y =~= x);
        assert(split_dash(x).last() + y =~= split_dash(x).last());
        assert(split_dash(x).update(split_dash(x).len() - 1, split_dash(x).last()) =~= split_dash(x));
    } else {
        let y0 = y.drop_last();
        assert(no_dash(y0)) by {
            assert forall|i: int| 0 <= i < y0.len() implies #[trigger] y0[i] != '-' by {
                assert(y0[i] == y[i]);
            }
        }
        lemma_split_append(x, y0);
        assert((x + y).drop_last() =~= x + y0);
        assert((x + y).last() == y.last());
        assert(y.last() != '-') by {
            assert(y[y.len() - 1] != '-');
        }
        let r0 = split_dash(x);
        assert((r0.last() + y0).push(y.last()) =~= r0.last() + y);
        assert(split_dash(x + y) =~= r0.update(r0.len() - 1, r0.last() + y));
    }
}

proof fn lemma_split_join(fs: Seq<Seq<char>>)
    requires
        fs.len() >= 1,
        forall|i: int| 0 <= i < fs.len() ==> no_dash(#[trigger] fs[i]),
    ensures
        split_dash(join_dash(fs)) == fs,
    decreases fs.len(),
{
    if fs.len() == 1 {
        assert(no_dash(fs[0]));
        lemma_split_append(Seq::empty(), fs[0]);
        assert(Seq::<char>::empty() + fs[0] =~= fs[0]);
        assert(split_dash(Seq::<char>::empty()).last() + fs[0] =~= fs[0]);
        assert(split_dash(fs[0]) =~= fs);
    } else {
        let init = fs.drop_last();
        assert forall|i: int| 0 <= i < init.len() implies no_dash(#[trigger] init[i]) by {
            assert(init[i] == fs[i]);
        }
        lemma_split_join(init);
        let a = join_dash(init) + seq!['-'];
        assert(a.drop_last() =~= join_dash(init));
        lemma_split_nonempty(a);
        assert(split_dash(a) == init.push(Seq::<char>::empty()));
        assert(no_dash(fs[fs.len() - 1]));
        lemma_split_append(a, fs.last());
        assert(Seq::<char>::empty() + fs.last() =~= fs.last());
        assert(init.push(Seq::<char>::empty()).update(init.len() as int, fs.last()) =~= fs);
    }
}

proof fn lemma_decimal(n: nat)
    ensures
        decimal(n).len() > 0,
        all_digits(decimal(n)),
        digits_value(decimal(n)) == n,
        no_dash(decimal(n)),
    decreases n,
{
    if n >= 10 {
        lemma_decimal(n / 10);
        let d = decimal(n);
        assert(d.drop_last() =~= decimal(n / 10));
        assert forall|i: int| 0 <= i < d.len() implies is_digit(#[trigger] d[i]) by {
            if i < d.len() - 1 {
                assert(d[i] == decimal(n / 10)[i]);
            }
        }
        assert(digit_value(digit_char((n % 10) as int)) == n % 10);
        assert(digits_value(d) == digits_value(decimal(n / 10)) * 10 + digit_value(d.last()) as nat);
        assert((n / 10) * 10 + n % 10 == n);
    } else {
        let d = decimal(n);
        assert(d.drop_last() =~= Seq::<char>::empty());
        assert(digits_value(d) == digits_value(d.drop_last()) * 10 + digit_value(d.last()) as nat);
    }
    let d = decimal(n);
    assert forall|i: int| 0 <= i < d.len() implies #[trigger] d[i] != '-' by {
        assert(is_digit(d[i]));
    }
}

proof fn lemma_percent(p: u32)
    ensures
        parse_percent(percent_text(p)) == Some(p),
        no_dash(percent_text(p)),
{
    let w = (p / 100) as nat;
    lemma_decimal(w);
    let s = percent_text(p);
    assert(s.take(s.len() - 3) =~= decimal(w));
    assert(s[s.len() - 3] == '.');
    assert forall|i: int| 0 <= i < s.len() implies #[trigger] s[i] != '-' by {
        if i < s.len() - 3 {
            assert(s[i] == decimal(w)[i]);
        }
    }
}

proof fn lemma_bool_text(b: bool)
    ensures
        parse_bool(bool_text(b)) == Some(b),
        no_dash(bool_text(b)),
{
    reveal_strlit("true");
    reveal_strlit("false");
    assert("true"@ != "false"@) by {
        assert("true"@.len() != "false"@.len());
    }
    let s = bool_text(b);
    assert forall|i: int| 0 <= i < s.len() implies #[trigger] s[i] != '-' by {}
}

proof fn lemma_hex_char(k: int)
    requires
        0 <= k < 16,
    ensures
        hex_value(hex_char(k)) == k,
        hex_char(k) != '#',
        hex_char(k) != '-',
{
}

proof fn lemma_hex_byte(h: Seq<char>, i: int, b: u8)
    requires
        0 <= i,
        i + 1 < h.len(),
        h[i] == hex_char(b as int / 16),
        h[i + 1] == hex_char(b as int % 16),
    ensures
        hex_byte_at(h, i) == b,
        hex_value(h[i]) >= 0,
        hex_value(h[i + 1]) >= 0,
{
    lemma_hex_char(b as int / 16);
    lemma_hex_char(b as int % 16);
}

#[verifier::rlimit(30)]
proof fn lemma_color_hex(c: RgbColor)
    ensures
        parse_color(color_hex(c)) == Some(c),
        parse_background(background_text(Some(c))) == Some(Some(c)),
        no_dash(color_hex(c)),
{
    let s = color_hex(c);
    let h = seq![
        hex_char(c.r as int / 16),
        hex_char(c.r as int % 16),
        hex_char(c.g as int / 16),
        hex_char(c.g as int % 16),
        hex_char(c.b as int / 16),
        hex_char(c.b as int % 16),
    ];
    assert(s =~= seq!['#'] + h);
    assert(s.drop_first() =~= h);
    lemma_hex_byte(h, 0, c.r);
    lemma_hex_byte(h, 2, c.g);
    lemma_hex_byte(h, 4, c.b);
    assert(strip_hashes(h) == h);
    assert(strip_hashes(s) == h);
    assert(forall|i: int| 0 <= i < 6 ==> #[trigger] hex_value(h[i]) >= 0);
    reveal_strlit("None");
    assert(s != "None"@) by {
        assert(s[0] != "None"@[0]);
    }
    assert forall|i: int| 0 <= i < s.len() implies #[trigger] s[i] != '-' by {
        if i > 0 {
            assert(s[i] == h[i - 1]);
        }
    }
}

proof fn lemma_background_text(bg: Option<RgbColor>)
    ensures
        parse_background(background_text(bg)) == Some(bg),
        no_dash(background_text(bg)),
{
    match bg {
        Some(c) => lemma_color_hex(c),
        None => {
            reveal_strlit("None");
            let s = "None"@;
            assert forall|i: int| 0 <= i < s.len() implies #[trigger] s[i] != '-' by {}
        },
    }
}

/// Decoding the token of any options gives back those options, together
/// with the update flag, slot index and message id that were encoded; the
/// colour-prompt flag is set exactly when the background is the prompt
/// colour.
pub proof fn lemma_token_round_trip(o: NordOptions, update: bool, slot: usize, message_id: u64)
    ensures
        decode_token(token_of(o, update, slot, message_id)) == Some(
            DecodedToken {
                options: o,
                update,
                slot,
                message_id,
                asks_for_color: o.background_color == Some(color_prompt()),
            },
        ),
{
    let fs = token_fields(o, update, slot, message_id);
    reveal_strlit("darken");
    lemma_bool_text(update);
    lemma_bool_text(o.invert);
    lemma_bool_text(o.sepia);
    lemma_bool_text(o.nord);
    lemma_bool_text(o.erase_most_present_color);
    lemma_bool_text(o.auto_adjust);
    lemma_bool_text(o.start);
    lemma_decimal(o.hue_rotate as nat);
    lemma_decimal(model_id(o.model) as nat);
    lemma_decimal(activation_id(o.activation_function) as nat);
    lemma_decimal(slot as nat);
    lemma_decimal(message_id as nat);
    lemma_percent(o.erase_when_percentage);
    lemma_background_text(o.background_color);
    lemma_model_id_round_trip(o.model);
    lemma_activation_id_round_trip(o.activation_function);
    let p = "darken"@;
    assert forall|i: int| 0 <= i < p.len() implies #[trigger] p[i] != '-' by {}
    assert forall|i: int| 0 <= i < fs.len() implies no_dash(#[trigger] fs[i]) by {}
    lemma_split_join(fs);
}

} // verus!
