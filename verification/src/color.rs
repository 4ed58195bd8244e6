//! An RGBA color: built from raw channel bytes or decoded from a
//! host-supplied configuration string of one marker character and eight hex
//! digits.

use vstd::prelude::*;
use vstd::string::*;

verus! {

/// An RGBA pixel color; each channel is one byte, alpha 255 means opaque.
#[derive(Copy, Clone)]
pub struct Color {
    red: u8,
    green: u8,
    blue: u8,
    alpha: u8,
}

/// A configuration color string could not be decoded: it was not one marker
/// character followed by eight hex digits.
#[derive(Copy, Clone, Debug)]
pub struct DecodeError;

/// True of the sixteen characters that may stand in a hex-encoded channel.
pub open spec fn is_hex_digit(c: char) -> bool {
    ('0' <= c && c <= '9') || ('a' <= c && c <= 'f') || ('A' <= c && c <= 'F')
}

/// The value of one hex digit.
pub open spec fn hex_val(c: char) -> int {
    if '0' <= c && c <= '9' {
        c as int - '0' as int
    } else if 'a' <= c && c <= 'f' {
        c as int - 'a' as int + 10
    } else {
        c as int - 'A' as int + 10
    }
}

/// The byte written as the two hex digits `hi` `lo`.
pub open spec fn hex_pair(hi: char, lo: char) -> int {
    16 * hex_val(hi) + hex_val(lo)
}

/// A well-formed configuration color string: one marker character (the
/// host writes `#`, but any character is accepted there) and eight hex
/// digits.
pub open spec fn config_ok(s: Seq<char>) -> bool {
    s.len() == 9 && (forall|i: int| 1 <= i < 9 ==> is_hex_digit(#[trigger] s[i]))
}

/// The character of one decimal digit.
pub open spec fn dec_char(d: int) -> char {
    if d == 0 {
        '0'
    } else if d == 1 {
        '1'
    } else if d == 2 {
        '2'
    } else if d == 3 {
        '3'
    } else if d == 4 {
        '4'
    } else if d == 5 {
        '5'
    } else if d == 6 {
        '6'
    } else if d == 7 {
        '7'
    } else if d == 8 {
        '8'
    } else {
        '9'
    }
}

/// The decimal text of a channel byte, without leading zeros.
pub open spec fn dec_rep(n: int) -> Seq<char> {
    if n < 10 {
        seq![dec_char(n)]
    } else if n < 100 {
        seq![dec_char(n / 10), dec_char(n % 10)]
    } else {
        seq![dec_char(n / 100), dec_char((n / 10) % 10), dec_char(n % 10)]
    }
}

/// The eight decimal digits of a fraction numerator below one hundred
/// million, most significant first.
pub open spec fn frac_digits(m: int) -> Seq<int> {
    seq![
        m / 10000000 % 10,
        m / 1000000 % 10,
        m / 100000 % 10,
        m / 10000 % 10,
        m / 1000 % 10,
        m / 100 % 10,
        m / 10 % 10,
        m % 10,
    ]
}

/// The digits with every trailing zero removed.
pub open spec fn strip_zeros(s: Seq<int>) -> Seq<int>
    decreases s.len(),
{
    if s.len() == 0 {
        s
    } else if s.last() == 0 {
        strip_zeros(s.drop_last())
    } else {
        s
    }
}

/// The text of the alpha byte as a fractional opacity, the exact decimal of
/// `a / 256`: zero is plain `0`, anything else `0.` and the significant
/// digits of `a * 390625 / 100000000`.
pub open spec fn alpha_frac(a: int) -> Seq<char> {
    if a == 0 {
        seq!['0']
    } else {
        seq!['0', '.'] + strip_zeros(frac_digits(a * 390625)).map_values(|d: int| dec_char(d))
    }
}

/// The full `rgba(r, g, b, a)` text of a color, the channels in decimal and
/// alpha as a fractional opacity.
pub open spec fn rgba_text(c: (u8, u8, u8, u8)) -> Seq<char> {
    "rgba("@ + dec_rep(c.0 as int) + ", "@ + dec_rep(c.1 as int) + ", "@ + dec_rep(c.2 as int)
        + ", "@ + alpha_frac(c.3 as int) + ")"@
}

/// Relies on `hex::FromHex` for `[u8; 4]` (hex 0.4): decoding succeeds
/// exactly on eight hex digits (`0-9`, `a-f`, `A-F`) and yields one byte per
/// digit pair, high digit first.
#[verifier::external_body]
fn hex_decode_rgba(s: &str) -> (r: Option<(u8, u8, u8, u8)>)
    ensures
        r is Some <==> (s@.len() == 8 && (forall|i: int| 0 <= i < 8 ==> is_hex_digit(
            #[trigger] s@[i],
        ))),
        r is Some ==> ({
            let (b0, b1, b2, b3) = r->Some_0;
            &&& b0 as int == hex_pair(s@[0], s@[1])
            &&& b1 as int == hex_pair(s@[2], s@[3])
            &&& b2 as int == hex_pair(s@[4], s@[5])
            &&& b3 as int == hex_pair(s@[6], s@[7])
        }),
{
    match <[u8; 4] as hex::FromHex>::from_hex(s) {
        Ok(d) => Some((d[0], d[1], d[2], d[3])),
        Err(_) => None,
    }
}

/// The one-character text of a decimal digit.
fn digit_str(d: u8) -> (r: &'static str)
    requires
        d < 10,
    ensures
        r@ == seq![dec_char(d as int)],
{
    let r: &'static str = match d {
        0 => "0",
        1 => "1",
        2 => "2",
        3 => "3",
        4 => "4",
        5 => "5",
        6 => "6",
        7 => "7",
        8 => "8",
        _ => "9",
    };
    proof {
        reveal_strlit("0");
        reveal_strlit("1");
        reveal_strlit("2");
        reveal_strlit("3");
        reveal_strlit("4");
        reveal_strlit("5");
        reveal_strlit("6");
        reveal_strlit("7");
        reveal_strlit("8");
        reveal_strlit("9");
        assert(r@ =~= seq![dec_char(d as int)]);
    }
    r
}

/// Appends the decimal text of one channel byte.
fn append_u8_dec(s: &mut String, n: u8)
    ensures
        final(s)@ == old(s)@ + dec_rep(n as int),
{
    if n >= 100 {
        s.append(digit_str(n / 100));
        s.append(digit_str((n / 10) % 10));
        s.append(digit_str(n % 10));
    } else if n >= 10 {
        s.append(digit_str(n / 10));
        s.append(digit_str(n % 10));
    } else {
        s.append(digit_str(n));
    }
    proof {
        assert(s@ =~= old(s)@ + dec_rep(n as int));
    }
}

/// The count of digits that stay once every trailing zero is removed.
fn stripped_len(digs: &Vec<u8>) -> (len: usize)
    ensures
        len <= digs@.len(),
        strip_zeros(digs@.map_values(|d: u8| d as int)) == digs@.map_values(
            |d: u8| d as int,
        ).take(len as int),
{
    let ghost dd: Seq<int> = digs@.map_values(|d: u8| d as int);
    let mut len: usize = digs.len();
    proof {
        assert(dd.take(len as int) =~= dd);
    }
    while len > 0 && digs[len - 1] == 0
        invariant
            len <= digs@.len(),
            dd == digs@.map_values(|d: u8| d as int),
            strip_zeros(dd) == strip_zeros(dd.take(len as int)),
        decreases len,
    {
        proof {
            assert(dd.take(len as int).last() == 0);
            assert(dd.take(len as int).drop_last() =~= dd.take(len as int - 1));
        }
        len = len - 1;
    }
    proof {
        if len > 0 {
            assert(dd.take(len as int).last() != 0);
        }
        assert(strip_zeros(dd.take(len as int)) == dd.take(len as int));
    }
    len
}

/// Appends the first `len` digits as characters.
fn append_digit_run(s: &mut String, digs: &Vec<u8>, len: usize)
    requires
        len <= digs@.len(),
        forall|j: int| 0 <= j < digs@.len() ==> #[trigger] digs@[j] < 10,
    ensures
        final(s)@ == old(s)@ + digs@.map_values(|d: u8| d as int).take(len as int).map_values(
            |d: int| dec_char(d),
        ),
{
    let ghost dd: Seq<int> = digs@.map_values(|d: u8| d as int);
    let mut i: usize = 0;
    proof {
        assert(s@ =~= old(s)@ + dd.take(0).map_values(|d: int| dec_char(d)));
    }
    while i < len
        invariant
            i <= len,
            len <= digs@.len(),
            dd == digs@.map_values(|d: u8| d as int),
            forall|j: int| 0 <= j < digs@.len() ==> #[trigger] digs@[j] < 10,
            s@ == old(s)@ + dd.take(i as int).map_values(|d: int| dec_char(d)),
        decreases len - i,
    {
        let d = digs[i];
        s.append(digit_str(d));
        proof {
            assert(s@ =~= old(s)@ + dd.take(i as int + 1).map_values(|d: int| dec_char(d)));
        }
        i = i + 1;
    }
}

/// Appends the fractional opacity text of the alpha byte: the exact decimal
/// of `a / 256`.
fn append_alpha_frac(s: &mut String, a: u8)
    ensures
        final(s)@ == old(s)@ + alpha_frac(a as int),
{
    if a == 0 {
        s.append("0");
        proof {
            reveal_strlit("0");
            assert(s@ =~= old(s)@ + alpha_frac(a as int));
        }
        return ;
    }
    let m: u32 = (a as u32) * 390625;
    let mut digs: Vec<u8> = Vec::new();
    digs.push((m / 10000000 % 10) as u8);
    digs.push((m / 1000000 % 10) as u8);
    digs.push((m / 100000 % 10) as u8);
    digs.push((m / 10000 % 10) as u8);
    digs.push((m / 1000 % 10) as u8);
    digs.push((m / 100 % 10) as u8);
    digs.push((m / 10 % 10) as u8);
    digs.push((m % 10) as u8);
    proof {
        assert(digs@.map_values(|d: u8| d as int) =~= frac_digits(m as int));
    }
    let len = stripped_len(&digs);
    s.append("0.");
    append_digit_run(s, &digs, len);
    proof {
        reveal_strlit("0.");
        assert(s@ =~= old(s)@ + alpha_frac(a as int));
    }
}

impl Color {
    /// The four channel values, in red, green, blue, alpha order.
    pub closed spec fn channels(&self) -> (u8, u8, u8, u8) {
        (self.red, self.green, self.blue, self.alpha)
    }

    /// A fully opaque color from its three channel bytes.
    pub fn from_rgb(red: u8, green: u8, blue: u8) -> (c: Color)
        ensures
            c.channels() == (red, green, blue, 255u8),
    {
        Color { red, green, blue, alpha: 255 }
    }

    /// A color from all four channel bytes.
    pub fn from_rgba(red: u8, green: u8, blue: u8, alpha: u8) -> (c: Color)
        ensures
            c.channels() == (red, green, blue, alpha),
    {
        Color { red, green, blue, alpha }
    }

    /// Decodes a configuration color string: exactly nine characters, the
    /// first a marker that is stripped, the next eight hex digits giving the
    /// red, green, blue and alpha bytes in that order. Any other input is a
    /// configuration fault and yields `DecodeError`.
    pub fn from_config_string(raw: &str) -> (r: Result<Color, DecodeError>)
        ensures
            r is Ok <==> config_ok(raw@),
            r is Ok ==> r->Ok_0.channels().0 as int == hex_pair(raw@[1], raw@[2]),
            r is Ok ==> r->Ok_0.channels().1 as int == hex_pair(raw@[3], raw@[4]),
            r is Ok ==> r->Ok_0.channels().2 as int == hex_pair(raw@[5], raw@[6]),
            r is Ok ==> r->Ok_0.channels().3 as int == hex_pair(raw@[7], raw@[8]),
    {
        let n = raw.unicode_len();
        if n != 9 {
            return Err(DecodeError);
        }
        let digits = raw.substring_char(1, 9);
        match hex_decode_rgba(digits) {
            Some((red, green, blue, alpha)) => Ok(Color { red, green, blue, alpha }),
            None => Err(DecodeError),
        }
    }

    /// The `rgba(r, g, b, a)` text of the color for the drawing surface,
    /// channels in decimal and alpha as a fractional opacity. The fraction
    /// divides by 256 rather than 255 — a deliberate choice, kept so that
    /// the artifact's established visual output is reproduced bit for bit;
    /// as a welcome side effect the quotient is dyadic and its decimal text
    /// exact and short.
    pub fn to_string(self) -> (r: String)
        ensures
            r@ == rgba_text(self.channels()),
    {
        let mut s = String::new();
        s.append("rgba(");
        append_u8_dec(&mut s, self.red);
        s.append(", ");
        append_u8_dec(&mut s, self.green);
        s.append(", ");
        append_u8_dec(&mut s, self.blue);
        s.append(", ");
        append_alpha_frac(&mut s, self.alpha);
        s.append(")");
        proof {
            assert(s@ =~= rgba_text(self.channels()));
        }
        s
    }

    pub fn set_red(&mut self, value: u8)
        ensures
            final(self).channels() == (
                value,
                old(self).channels().1,
                old(self).channels().2,
                old(self).channels().3,
            ),
    {
        self.red = value;
    }

    pub fn set_green(&mut self, value: u8)
        ensures
            final(self).channels() == (
                old(self).channels().0,
                value,
                old(self).channels().2,
                old(self).channels().3,
            ),
    {
        self.green = value;
    }

    pub fn set_blue(&mut self, value: u8)
        ensures
            final(self).channels() == (
                old(self).channels().0,
                old(self).channels().1,
                value,
                old(self).channels().3,
            ),
    {
        self.blue = value;
    }

    pub fn set_alpha(&mut self, value: u8)
        ensures
            final(self).channels() == (
                old(self).channels().0,
                old(self).channels().1,
                old(self).channels().2,
                value,
            ),
    {
        self.alpha = value;
    }

    pub fn red(self) -> (v: u8)
        ensures
            v == self.channels().0,
    {
        self.red
    }

    pub fn green(self) -> (v: u8)
        ensures
            v == self.channels().1,
    {
        self.green
    }

    pub fn blue(self) -> (v: u8)
        ensures
            v == self.channels().2,
    {
        self.blue
    }

    pub fn alpha(self) -> (v: u8)
        ensures
            v == self.channels().3,
    {
        self.alpha
    }
}

} // verus!
