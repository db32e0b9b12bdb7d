//! Verified numeric text handling: rendering unsigned integers, rendering
//! fixed-point similarity scores, and comparing decimal numerals without
//! floating point. Condition expressions compare their operands as signed
//! decimal numerals (an optional sign, digits, an optional fraction); texts
//! outside that grammar do not compare.

use vstd::prelude::*;
use vstd::string::StrSliceExecFns;
use vstd::string::StringExecFns;
use crate::strings::find_spec;
use crate::strings::find_first;

verus! {

pub open spec fn is_digit(c: char) -> bool {
    '0' <= c && c <= '9'
}

pub open spec fn all_digits(s: Seq<char>) -> bool {
    forall|i: int| 0 <= i < s.len() ==> is_digit(s[i])
}

pub open spec fn digit_of(c: char) -> int {
    (c as u32) as int - 48
}

pub open spec fn dec_digit(d: int) -> char {
    if d == 0 {
        '0'
    } else if d == 1 {
        '1'
    } else if d == 2 {
        '2'
    } else if d == 3 {
        '3'
    } else if d == 4 {
        '4'
    } else if d == 5 {
        '5'
    } else if d == 6 {
        '6'
    } else if d == 7 {
        '7'
    } else if d == 8 {
        '8'
    } else {
        '9'
    }
}

/// Decimal rendering of a nonnegative integer, without leading zeros.
pub open spec fn dec_str(n: int) -> Seq<char>
    decreases n,
{
    if n < 0 {
        Seq::empty()
    } else if n < 10 {
        seq![dec_digit(n)]
    } else {
        dec_str(n / 10) + seq![dec_digit(n % 10)]
    }
}

/// Decimal rendering of `n` padded with leading zeros to exactly `width`
/// digits (truncating high digits if `n` needs more).
pub open spec fn dec_str_pad(n: int, width: int) -> Seq<char>
    decreases width,
{
    if width <= 0 || n < 0 {
        Seq::empty()
    } else {
        dec_str_pad(n / 10, width - 1) + seq![dec_digit(n % 10)]
    }
}

/// One decimal digit as a string slice.
fn digit_str(d: u64) -> (r: &'static str)
    requires
        d < 10,
    ensures
        r@ == seq![dec_digit(d as int)],
{
    proof {
        reveal_strlit("0");
        reveal_strlit("1");
        reveal_strlit("2");
        reveal_strlit("3");
        reveal_strlit("4");
        reveal_strlit("5");
        reveal_strlit("6");
        reveal_strlit("7");
        reveal_strlit("8");
        reveal_strlit("9");
    }
    match d {
        0 => "0",
        1 => "1",
        2 => "2",
        3 => "3",
        4 => "4",
        5 => "5",
        6 => "6",
        7 => "7",
        8 => "8",
        _ => "9",
    }
}

/// Decimal rendering of an unsigned integer.
pub fn u64_to_string(n: u64) -> (r: String)
    ensures
        r@ == dec_str(n as int),
    decreases n,
{
    if n < 10 {
        digit_str(n).to_owned()
    } else {
        let mut s = u64_to_string(n / 10);
        s.append(digit_str(n % 10));
        s
    }
}

/// Decimal rendering of a `usize`.
pub fn usize_to_string(n: usize) -> (r: String)
    ensures
        r@ == dec_str(n as int),
{
    u64_to_string(n as u64)
}

/// Rendering of `n` zero-padded to `width` digits.
pub fn u64_to_string_pad(n: u64, width: usize) -> (r: String)
    ensures
        r@ == dec_str_pad(n as int, width as int),
    decreases width,
{
    if width == 0 {
        String::new()
    } else {
        let mut s = u64_to_string_pad(n / 10, width - 1);
        s.append(digit_str(n % 10));
        s
    }
}

/// A parsed decimal numeral: sign, integer digits, fraction digits.
pub struct DecParts {
    pub neg: bool,
    pub int_digits: Seq<char>,
    pub frac_digits: Seq<char>,
}

/// Parse of a decimal numeral `[+-]? digits* ('.' digits*)?` holding at least
/// one digit; anything else does not parse.
pub open spec fn parse_dec(s: Seq<char>) -> Option<DecParts> {
    let neg = s.len() > 0 && s[0] == '-';
    let signed = s.len() > 0 && (s[0] == '-' || s[0] == '+');
    let body = if signed { s.drop_first() } else { s };
    let parts = match find_spec(body, seq!['.']) {
        Option::Some(i) => DecParts {
            neg,
            int_digits: body.subrange(0, i),
            frac_digits: body.subrange(i + 1, body.len() as int),
        },
        Option::None => DecParts { neg, int_digits: body, frac_digits: Seq::empty() },
    };
    if all_digits(parts.int_digits) && all_digits(parts.frac_digits) && parts.int_digits.len()
        + parts.frac_digits.len() > 0 {
        Option::Some(parts)
    } else {
        Option::None
    }
}

/// Digit string with leading zeros removed.
pub open spec fn strip_front_zeros(s: Seq<char>) -> Seq<char>
    decreases s.len(),
{
    if s.len() > 0 && s[0] == '0' {
        strip_front_zeros(s.drop_first())
    } else {
        s
    }
}

/// Count of leading zero digits.
pub open spec fn zeros_front(s: Seq<char>) -> int
    decreases s.len(),
{
    if s.len() > 0 && s[0] == '0' {
        1 + zeros_front(s.drop_first())
    } else {
        0
    }
}

pub proof fn lemma_zeros_front(s: Seq<char>)
    ensures
        0 <= zeros_front(s) <= s.len(),
        forall|j: int| 0 <= j < zeros_front(s) ==> s[j] == '0',
        zeros_front(s) < s.len() ==> s[zeros_front(s)] != '0',
        strip_front_zeros(s) == s.subrange(zeros_front(s), s.len() as int),
    decreases s.len(),
{
    if s.len() > 0 && s[0] == '0' {
        let t = s.drop_first();
        lemma_zeros_front(t);
        assert forall|j: int| 0 <= j < zeros_front(s) implies s[j] == '0' by {
            if j > 0 {
                assert(t[j - 1] == s[j]);
            }
        }
        if zeros_front(s) < s.len() {
            assert(t[zeros_front(t)] == s[zeros_front(s)]);
        }
        assert(t.subrange(zeros_front(t), t.len() as int)
            =~= s.subrange(zeros_front(s), s.len() as int));
    } else {
        assert(s.subrange(0, s.len() as int) =~= s);
    }
}

/// Lexicographic digit comparison of two equal-length digit strings, from
/// index `i` on: -1, 0 or 1.
pub open spec fn lex_cmp_from(x: Seq<char>, y: Seq<char>, i: int) -> int
    decreases x.len() - i,
{
    if i < 0 || i >= x.len() || i >= y.len() {
        0
    } else if digit_of(x[i]) < digit_of(y[i]) {
        -1
    } else if digit_of(x[i]) > digit_of(y[i]) {
        1
    } else {
        lex_cmp_from(x, y, i + 1)
    }
}

pub open spec fn max2(a: int, b: int) -> int {
    if a > b {
        a
    } else {
        b
    }
}

/// Digit-by-digit comparison of two fraction strings, missing places reading
/// as zero, from index `i` on.
pub open spec fn frac_cmp_from(x: Seq<char>, y: Seq<char>, i: int) -> int
    decreases max2(x.len() as int, y.len() as int) - i,
{
    if i < 0 || (i >= x.len() && i >= y.len()) {
        0
    } else {
        let dx = if i < x.len() { digit_of(x[i]) } else { 0 };
        let dy = if i < y.len() { digit_of(y[i]) } else { 0 };
        if dx < dy {
            -1
        } else if dx > dy {
            1
        } else {
            frac_cmp_from(x, y, i + 1)
        }
    }
}

/// Magnitude comparison of two parsed numerals, ignoring sign.
pub open spec fn mag_cmp(a: DecParts, b: DecParts) -> int {
    let xi = strip_front_zeros(a.int_digits);
    let yi = strip_front_zeros(b.int_digits);
    if xi.len() < yi.len() {
        -1
    } else if xi.len() > yi.len() {
        1
    } else {
        let c = lex_cmp_from(xi, yi, 0);
        if c != 0 {
            c
        } else {
            frac_cmp_from(a.frac_digits, b.frac_digits, 0)
        }
    }
}

/// Whether a parsed numeral denotes zero.
pub open spec fn dec_is_zero(p: DecParts) -> bool {
    strip_front_zeros(p.int_digits).len() == 0 && (forall|i: int|
        0 <= i < p.frac_digits.len() ==> p.frac_digits[i] == '0')
}

/// Signed numeric comparison of two parsed numerals: -1, 0 or 1.
pub open spec fn dec_cmp(a: DecParts, b: DecParts) -> int {
    let za = dec_is_zero(a);
    let zb = dec_is_zero(b);
    if za && zb {
        0
    } else if (a.neg && !za) && (!b.neg || zb) {
        -1
    } else if (b.neg && !zb) && (!a.neg || za) {
        1
    } else if a.neg && b.neg {
        -mag_cmp(a, b)
    } else {
        mag_cmp(a, b)
    }
}

/// A parsed decimal numeral held by the engine.
pub struct Decimal {
    pub neg: bool,
    pub int_part: String,
    pub frac_part: String,
}

impl View for Decimal {
    type V = DecParts;

    open spec fn view(&self) -> DecParts {
        DecParts { neg: self.neg, int_digits: self.int_part@, frac_digits: self.frac_part@ }
    }
}

/// Whether every character of `s` is a decimal digit.
fn check_all_digits(s: &str) -> (r: bool)
    ensures
        r == all_digits(s@),
{
    let n = s.unicode_len();
    let mut i: usize = 0;
    while i < n
        invariant
            n == s@.len(),
            i <= n,
            forall|j: int| 0 <= j < i ==> is_digit(s@[j]),
        decreases n - i,
    {
        let c = s.get_char(i);
        if !('0' <= c && c <= '9') {
            return false;
        }
        i += 1;
    }
    true
}

/// Parse a decimal numeral, exactly as [`parse_dec`] describes.
pub fn parse_decimal(s: &str) -> (r: Option<Decimal>)
    ensures
        match r {
            Some(d) => parse_dec(s@) == Option::Some(d@),
            None => parse_dec(s@) is None,
        },
{
    let n = s.unicode_len();
    let mut start: usize = 0;
    let mut neg = false;
    if n > 0 {
        let c = s.get_char(0);
        if c == '-' {
            neg = true;
            start = 1;
        } else if c == '+' {
            start = 1;
        }
    }
    let body = s.substring_char(start, n);
    proof {
        reveal_strlit(".");
        assert("."@ =~= seq!['.']);
        if start == 1 {
            assert(body@ =~= s@.drop_first());
        } else {
            assert(body@ =~= s@);
        }
    }
    let bn = body.unicode_len();
    let (int_part, frac_part) = match find_first(body, ".") {
        Some(i) => {
            proof {
                crate::strings::lemma_find_spec(body@, "."@);
            }
            let ip = body.substring_char(0, i).to_owned();
            let fp = body.substring_char(i + 1, bn).to_owned();
            (ip, fp)
        },
        None => (body.to_owned(), String::new()),
    };
    if !check_all_digits(int_part.as_str()) || !check_all_digits(frac_part.as_str()) {
        return None;
    }
    if int_part.as_str().unicode_len() + frac_part.as_str().unicode_len() == 0 {
        return None;
    }
    Some(Decimal { neg, int_part, frac_part })
}

/// Index of the first nonzero digit (or the length).
fn scan_zeros(s: &str) -> (r: usize)
    ensures
        0 <= r <= s@.len(),
        strip_front_zeros(s@) == s@.subrange(r as int, s@.len() as int),
        forall|j: int| 0 <= j < r ==> s@[j] == '0',
        r < s@.len() ==> s@[r as int] != '0',
    {
    let n = s.unicode_len();
    let mut i: usize = 0;
    while i < n && s.get_char(i) == '0'
        invariant
            n == s@.len(),
            i <= n,
            forall|j: int| 0 <= j < i ==> s@[j] == '0',
        decreases n - i,
    {
        i += 1;
    }
    proof {
        lemma_zeros_front(s@);
        let k = zeros_front(s@);
        if k < i {
            assert(s@[k] == '0');
        }
        if i < k {
            assert(s@[i as int] == '0');
        }
    }
    i
}

/// Compare two parsed numerals numerically; returns -1, 0 or 1 exactly as
/// [`dec_cmp`] describes.
pub fn compare_decimal(a: &Decimal, b: &Decimal) -> (r: i32)
    ensures
        r as int == dec_cmp(a@, b@),
{
    let za = decimal_is_zero(a);
    let zb = decimal_is_zero(b);
    if za && zb {
        0
    } else if a.neg && !za && (!b.neg || zb) {
        -1
    } else if b.neg && !zb && (!a.neg || za) {
        1
    } else {
        let m = mag_compare(a, b);
        if a.neg && b.neg {
            -m
        } else {
            m
        }
    }
}

/// Whether a parsed numeral denotes zero.
fn decimal_is_zero(d: &Decimal) -> (r: bool)
    ensures
        r == dec_is_zero(d@),
{
    let k = scan_zeros(d.int_part.as_str());
    let n = d.int_part.as_str().unicode_len();
    if k < n {
        return false;
    }
    let fk = scan_zeros(d.frac_part.as_str());
    let fn_ = d.frac_part.as_str().unicode_len();
    if fk == fn_ {
        proof {
            let q = d@;
            assert(q.frac_digits == d.frac_part@);
            assert forall|i: int| 0 <= i < q.frac_digits.len() implies q.frac_digits[i]
                == '0' by {
                assert(d.frac_part@[i] == '0');
            }
            assert(dec_is_zero(q));
        }
        true
    } else {
        proof {
            assert(d@.frac_digits[fk as int] != '0');
            assert(!dec_is_zero(d@));
        }
        false
    }
}

/// Magnitude comparison, ignoring sign.
fn mag_compare(a: &Decimal, b: &Decimal) -> (r: i32)
    ensures
        r as int == mag_cmp(a@, b@),
        -1 <= r <= 1,
{
    let ka = scan_zeros(a.int_part.as_str());
    let kb = scan_zeros(b.int_part.as_str());
    let na = a.int_part.as_str().unicode_len();
    let nb = b.int_part.as_str().unicode_len();
    let la = na - ka;
    let lb = nb - kb;
    if la < lb {
        return -1;
    }
    if la > lb {
        return 1;
    }
    let xi = a.int_part.as_str().substring_char(ka, na);
    let yi = b.int_part.as_str().substring_char(kb, nb);
    let c = lex_compare(xi, yi);
    if c != 0 {
        return c;
    }
    frac_compare(a.frac_part.as_str(), b.frac_part.as_str())
}

/// Lexicographic digit comparison of equal-length digit strings.
fn lex_compare(x: &str, y: &str) -> (r: i32)
    requires
        x@.len() == y@.len(),
    ensures
        r as int == lex_cmp_from(x@, y@, 0),
        -1 <= r <= 1,
{
    let n = x.unicode_len();
    let mut i: usize = 0;
    while i < n
        invariant
            n == x@.len(),
            n == y@.len(),
            i <= n,
            lex_cmp_from(x@, y@, 0) == lex_cmp_from(x@, y@, i as int),
        decreases n - i,
    {
        let cx = x.get_char(i);
        let cy = y.get_char(i);
        if (cx as u32) < (cy as u32) {
            return -1;
        }
        if (cx as u32) > (cy as u32) {
            return 1;
        }
        i += 1;
    }
    0
}

/// Digit comparison of two fraction strings, missing places reading as zero.
fn frac_compare(x: &str, y: &str) -> (r: i32)
    ensures
        r as int == frac_cmp_from(x@, y@, 0),
        -1 <= r <= 1,
{
    let nx = x.unicode_len();
    let ny = y.unicode_len();
    let n = if nx > ny {
        nx
    } else {
        ny
    };
    let mut i: usize = 0;
    while i < n
        invariant
            nx == x@.len(),
            ny == y@.len(),
            n == max2(nx as int, ny as int),
            i <= n,
            frac_cmp_from(x@, y@, 0) == frac_cmp_from(x@, y@, i as int),
        decreases n - i,
    {
        let dx: u32 = if i < nx {
            x.get_char(i) as u32
        } else {
            48
        };
        let dy: u32 = if i < ny {
            y.get_char(i) as u32
        } else {
            48
        };
        if dx < dy {
            return -1;
        }
        if dx > dy {
            return 1;
        }
        i += 1;
    }
    0
}

/// Rendering of a similarity score held in millionths, as a decimal in
/// [-1, 1] with six places: `sim_render(950000) == "0.950000"`.
pub open spec fn sim_render(ppm: int) -> Seq<char> {
    let mag = if ppm < 0 { -ppm } else { ppm };
    let sign: Seq<char> = if ppm < 0 { seq!['-'] } else { Seq::empty() };
    sign + dec_str(mag / 1000000) + seq!['.'] + dec_str_pad(mag % 1000000, 6)
}

/// Render a similarity score held in millionths.
pub fn render_similarity(ppm: i64) -> (r: String)
    requires
        -1000000 <= ppm <= 1000000,
    ensures
        r@ == sim_render(ppm as int),
{
    proof {
        reveal_strlit("-");
        reveal_strlit(".");
        assert("-"@ =~= seq!['-']);
        assert("."@ =~= seq!['.']);
    }
    let mag: u64 = if ppm < 0 {
        (-ppm) as u64
    } else {
        ppm as u64
    };
    let mut res = if ppm < 0 {
        "-".to_owned()
    } else {
        String::new()
    };
    let ip = u64_to_string(mag / 1000000);
    res.append(ip.as_str());
    res.append(".");
    let fp = u64_to_string_pad(mag % 1000000, 6);
    res.append(fp.as_str());
    res
}

} // verus!
