//! Session claims and the text that a token carries for them.
//!
//! The payload of a token is the claims frame: a JSON object with the expiry
//! and the issue time, in seconds since the Unix epoch, and the vendor
//! snapshot, in that order and without blanks:
//! `{"exp":E,"iat":I,"station_res":V}`. The vendor snapshot `V` is JSON text
//! that the caller supplies and gets back unread.

use vstd::prelude::*;
use vstd::string::*;
use crate::dto::{Aggregate, StationResponse};
use crate::text::{has_at, stands_at};

verus! {

/// The lifetime of a token, in seconds: 24 hours.
pub const TOKEN_LIFETIME: u64 = 86400;

/// What an authenticated request is known by.
#[derive(Debug, Clone, PartialEq)]
pub struct Claims {
    /// Expiry, in seconds since the Unix epoch.
    pub exp: u64,
    /// Issue time, in seconds since the Unix epoch.
    pub iat: u64,
    /// The vendor as it was at sign-in.
    pub station_res: StationResponse,
}

/// Claims as a token carries them: the vendor snapshot as JSON text.
#[derive(Debug, Clone, PartialEq)]
pub struct EncodedClaims {
    /// Expiry, in seconds since the Unix epoch.
    pub exp: u64,
    /// Issue time, in seconds since the Unix epoch.
    pub iat: u64,
    /// The vendor as it was at sign-in, as JSON text.
    pub station_res: String,
}

/// Model of `Claims`.
pub ghost struct ClaimsModel {
    pub exp: u64,
    pub iat: u64,
    pub station_res: Aggregate,
}

/// Model of `EncodedClaims`.
pub ghost struct Frame {
    pub exp: u64,
    pub iat: u64,
    pub station_res: Seq<char>,
}

impl View for Claims {
    type V = ClaimsModel;

    open spec fn view(&self) -> ClaimsModel {
        ClaimsModel { exp: self.exp, iat: self.iat, station_res: self.station_res@ }
    }
}

impl View for EncodedClaims {
    type V = Frame;

    open spec fn view(&self) -> Frame {
        Frame { exp: self.exp, iat: self.iat, station_res: self.station_res@ }
    }
}

/// Whether the character is a decimal digit.
pub open spec fn is_digit(c: char) -> bool {
    '0' <= c <= '9'
}

/// The value of a decimal digit.
pub open spec fn digit_value(c: char) -> nat {
    (c as u32 - '0' as u32) as nat
}

/// The decimal digit of a value below ten.
pub open spec fn digit_char(d: nat) -> char {
    if d == 0 {
        '0'
    } else if d == 1 {
        '1'
    } else if d == 2 {
        '2'
    } else if d == 3 {
        '3'
    } else if d == 4 {
        '4'
    } else if d == 5 {
        '5'
    } else if d == 6 {
        '6'
    } else if d == 7 {
        '7'
    } else if d == 8 {
        '8'
    } else {
        '9'
    }
}

/// The decimal numeral of a number, without leading zeros.
pub open spec fn decimal(n: nat) -> Seq<char>
    decreases n,
{
    if n < 10 {
        seq![digit_char(n)]
    } else {
        decimal(n / 10).push(digit_char(n % 10))
    }
}

/// The number that a run of decimal digits denotes.
pub open spec fn number_of(digits: Seq<char>) -> nat
    decreases digits.len(),
{
    if digits.len() == 0 {
        0
    } else {
        number_of(digits.drop_last()) * 10 + digit_value(digits.last())
    }
}

/// Whether the text is a numeral as `decimal` writes them.
pub open spec fn is_numeral(digits: Seq<char>) -> bool {
    &&& digits.len() > 0
    &&& forall|k: int| 0 <= k < digits.len() ==> is_digit(#[trigger] digits[k])
    &&& digits.len() > 1 ==> digits[0] != '0'
}

/// The opening of the frame, up to the expiry.
pub open spec fn exp_key() -> Seq<char> {
    "{\"exp\":"@
}

/// What stands between the expiry and the issue time.
pub open spec fn iat_key() -> Seq<char> {
    ",\"iat\":"@
}

/// What stands between the issue time and the vendor snapshot.
pub open spec fn station_key() -> Seq<char> {
    ",\"station_res\":"@
}

/// The closing of the frame.
pub open spec fn frame_end() -> Seq<char> {
    "}"@
}

/// The claims frame: the payload text for the claims.
pub open spec fn frame(claims: Frame) -> Seq<char> {
    exp_key() + decimal(claims.exp as nat) + iat_key() + decimal(claims.iat as nat)
        + station_key() + claims.station_res + frame_end()
}

/// Where the run of digits that starts at `from` ends.
pub open spec fn digits_end(text: Seq<char>, from: int) -> int
    decreases text.len() - from,
{
    if 0 <= from < text.len() && is_digit(text[from]) {
        digits_end(text, from + 1)
    } else {
        from
    }
}

/// The numeral that starts at `from`, if one does and it fits 64 bits: its
/// value and where it ends.
pub open spec fn numeral_at(text: Seq<char>, from: int) -> Option<(u64, int)> {
    let end = digits_end(text, from);
    let digits = text.subrange(from, end);
    if 0 <= from && is_numeral(digits) && number_of(digits) <= u64::MAX {
        Some((number_of(digits) as u64, end))
    } else {
        None
    }
}

/// The claims that a payload frames, if it is a claims frame.
pub open spec fn parse_frame(text: Seq<char>) -> Option<Frame> {
    if !has_at(text, 0, exp_key()) {
        None
    } else {
        match numeral_at(text, exp_key().len() as int) {
            None => None,
            Some((exp, a)) => {
                if !has_at(text, a, iat_key()) {
                    None
                } else {
                    match numeral_at(text, a + iat_key().len()) {
                        None => None,
                        Some((iat, b)) => {
                            let c = b + station_key().len();
                            if has_at(text, b, station_key()) && has_at(
                                text,
                                text.len() - 1,
                                frame_end(),
                            ) && c <= text.len() - 1 {
                                Some(
                                    Frame {
                                        exp,
                                        iat,
                                        station_res: text.subrange(c, text.len() - 1),
                                    },
                                )
                            } else {
                                None
                            }
                        },
                    }
                }
            },
        }
    }
}

fn digit_text(d: u64) -> (text: &'static str)
    requires
        d < 10,
    ensures
        text@ == seq![digit_char(d as nat)],
{
    proof {
        reveal_strlit("0");
        reveal_strlit("1");
        reveal_strlit("2");
        reveal_strlit("3");
        reveal_strlit("4");
        reveal_strlit("5");
        reveal_strlit("6");
        reveal_strlit("7");
        reveal_strlit("8");
        reveal_strlit("9");
    }
    let text = if d == 0 {
        "0"
    } else if d == 1 {
        "1"
    } else if d == 2 {
        "2"
    } else if d == 3 {
        "3"
    } else if d == 4 {
        "4"
    } else if d == 5 {
        "5"
    } else if d == 6 {
        "6"
    } else if d == 7 {
        "7"
    } else if d == 8 {
        "8"
    } else {
        "9"
    };
    assert(text@ =~= seq![digit_char(d as nat)]);
    text
}

/// The decimal numeral of the number.
pub fn decimal_text(n: u64) -> (text: String)
    ensures
        text@ == decimal(n as nat),
    decreases n,
{
    if n < 10 {
        digit_text(n).to_owned()
    } else {
        let front = decimal_text(n / 10);
        let text = front.concat(digit_text(n % 10));
        assert(text@ =~= decimal((n / 10) as nat).push(digit_char((n % 10) as nat)));
        text
    }
}

/// Writes the claims frame for an expiry, an issue time and a vendor
/// snapshot.
pub fn write_frame(exp: u64, iat: u64, station_res: &str) -> (text: String)
    ensures
        text@ == frame(Frame { exp, iat, station_res: station_res@ }),
{
    let exp_text = decimal_text(exp);
    let iat_text = decimal_text(iat);
    "{\"exp\":".to_owned().concat(exp_text.as_str()).concat(",\"iat\":").concat(
        iat_text.as_str(),
    ).concat(",\"station_res\":").concat(station_res).concat("}")
}

proof fn lemma_digits_end(text: Seq<char>, from: int)
    requires
        0 <= from <= text.len(),
    ensures
        from <= digits_end(text, from) <= text.len(),
        forall|k: int| from <= k < digits_end(text, from) ==> is_digit(#[trigger] text[k]),
        digits_end(text, from) < text.len() ==> !is_digit(text[digits_end(text, from)]),
    decreases text.len() - from,
{
    if from < text.len() && is_digit(text[from]) {
        lemma_digits_end(text, from + 1);
    }
}

proof fn lemma_digits_end_found(text: Seq<char>, from: int, end: int)
    requires
        0 <= from <= end <= text.len(),
        forall|k: int| from <= k < end ==> is_digit(#[trigger] text[k]),
        end < text.len() ==> !is_digit(text[end]),
    ensures
        digits_end(text, from) == end,
    decreases end - from,
{
    if from < end {
        lemma_digits_end_found(text, from + 1, end);
    }
}

proof fn lemma_number_of_grows(digits: Seq<char>, k: int)
    requires
        0 <= k <= digits.len(),
        forall|j: int| 0 <= j < digits.len() ==> is_digit(#[trigger] digits[j]),
    ensures
        number_of(digits.subrange(0, k)) <= number_of(digits),
    decreases digits.len() - k,
{
    if k == digits.len() {
        assert(digits.subrange(0, k) =~= digits);
    } else {
        lemma_number_of_grows(digits, k + 1);
        let longer = digits.subrange(0, k + 1);
        assert(longer.drop_last() =~= digits.subrange(0, k));
        assert(is_digit(digits[k]));
    }
}

/// Reads the numeral that starts at `from`; `length` is the length of `text`.
fn read_numeral(text: &str, length: usize, from: usize) -> (read: Option<(u64, usize)>)
    requires
        length == text@.len(),
        from <= length,
    ensures
        match read {
            Some((value, end)) => numeral_at(text@, from as int) == Some((value, end as int)),
            None => numeral_at(text@, from as int) is None,
        },
        read matches Some((_, end)) ==> from < end <= length,
{
    let ghost end = digits_end(text@, from as int);
    let ghost digits = text@.subrange(from as int, end);
    proof {
        lemma_digits_end(text@, from as int);
    }
    let mut pos: usize = from;
    let mut value: u64 = 0;
    let mut leading_zero = false;
    while pos < length
        invariant
            from <= pos <= end <= length,
            length == text@.len(),
            end == digits_end(text@, from as int),
            digits == text@.subrange(from as int, end),
            forall|k: int| from <= k < end ==> is_digit(#[trigger] text@[k]),
            end < length ==> !is_digit(text@[end]),
            value == number_of(text@.subrange(from as int, pos as int)),
            leading_zero == (pos > from && text@[from as int] == '0'),
        ensures
            pos == end,
        decreases length - pos,
    {
        let c = text.get_char(pos);
        if !('0' <= c && c <= '9') {
            assert(pos == end);
            break ;
        }
        assert(pos < end);
        let d = (c as u32 - '0' as u32) as u64;
        let ghost longer = text@.subrange(from as int, pos + 1);
        proof {
            assert(longer.drop_last() =~= text@.subrange(from as int, pos as int));
            assert(longer.last() == c);
            assert(number_of(longer) == value * 10 + d);
            assert(longer =~= digits.subrange(0, pos + 1 - from));
            lemma_number_of_grows(digits, pos + 1 - from);
        }
        if value > (u64::MAX - d) / 10 {
            return None;
        }
        value = value * 10 + d;
        if pos == from && d == 0 {
            leading_zero = true;
        }
        pos += 1;
    }
    if pos == from || (leading_zero && pos - from > 1) {
        assert(!is_numeral(digits)) by {
            if pos > from {
                assert(digits[0] == text@[from as int]);
            }
        }
        None
    } else {
        assert(is_numeral(digits)) by {
            assert(digits[0] == text@[from as int]);
        }
        Some((value, pos))
    }
}

/// Reads the claims out of a payload, if the payload is a claims frame.
pub fn read_frame(text: &str) -> (claims: Option<EncodedClaims>)
    ensures
        match claims {
            Some(c) => parse_frame(text@) == Some(c@),
            None => parse_frame(text@) is None,
        },
{
    let length = text.unicode_len();
    let exp_key = "{\"exp\":";
    let iat_key = ",\"iat\":";
    let station_key = ",\"station_res\":";
    if !stands_at(text, length, 0, exp_key) {
        return None;
    }
    let (exp, a) = match read_numeral(text, length, exp_key.unicode_len()) {
        Some(read) => read,
        None => {
            return None;
        },
    };
    if !stands_at(text, length, a, iat_key) {
        return None;
    }
    let (iat, b) = match read_numeral(text, length, a + iat_key.unicode_len()) {
        Some(read) => read,
        None => {
            return None;
        },
    };
    if !stands_at(text, length, b, station_key) {
        return None;
    }
    let c = b + station_key.unicode_len();
    if c > length - 1 || !stands_at(text, length, length - 1, "}") {
        return None;
    }
    let station_res = text.substring_char(c, length - 1).to_owned();
    Some(EncodedClaims { exp, iat, station_res })
}

/// A numeral written by `decimal` is read back as the number.
pub proof fn lemma_decimal_reads_back(n: nat)
    ensures
        is_numeral(decimal(n)),
        number_of(decimal(n)) == n,
        n > 0 ==> decimal(n)[0] != '0',
    decreases n,
{
    if n < 10 {
        let text = decimal(n);
        assert(text.drop_last() =~= Seq::<char>::empty());
        assert(number_of(text.drop_last()) == 0);
    } else {
        lemma_decimal_reads_back(n / 10);
        let front = decimal(n / 10);
        let text = front.push(digit_char(n % 10));
        assert(text.drop_last() =~= front);
        assert(text[0] == front[0]);
        assert forall|k: int| 0 <= k < text.len() implies is_digit(#[trigger] text[k]) by {
            if k < front.len() {
                assert(text[k] == front[k]);
            }
        }
    }
}

proof fn lemma_numeral_positive(digits: Seq<char>)
    requires
        is_numeral(digits),
        digits[0] != '0',
    ensures
        number_of(digits) > 0,
    decreases digits.len(),
{
    if digits.len() > 1 {
        let front = digits.drop_last();
        assert(front[0] == digits[0]);
        assert forall|k: int| 0 <= k < front.len() implies is_digit(#[trigger] front[k]) by {
            assert(front[k] == digits[k]);
        }
        lemma_numeral_positive(front);
    } else {
        assert(digits.drop_last() =~= Seq::<char>::empty());
        assert(number_of(digits.drop_last()) == 0);
        assert(is_digit(digits[0]));
    }
}

/// A numeral is the one that `decimal` writes for its number.
pub proof fn lemma_numeral_is_decimal(digits: Seq<char>)
    requires
        is_numeral(digits),
    ensures
        decimal(number_of(digits)) == digits,
    decreases digits.len(),
{
    let last = digits.last();
    assert(is_digit(last));
    if digits.len() == 1 {
        assert(digits.drop_last() =~= Seq::<char>::empty());
        assert(number_of(digits.drop_last()) == 0);
        assert(decimal(number_of(digits)) =~= digits);
    } else {
        let front = digits.drop_last();
        assert(front[0] == digits[0]);
        assert forall|k: int| 0 <= k < front.len() implies is_digit(#[trigger] front[k]) by {
            assert(front[k] == digits[k]);
        }
        lemma_numeral_is_decimal(front);
        lemma_numeral_positive(front);
        let n = number_of(digits);
        assert(n == number_of(front) * 10 + digit_value(last));
        assert(n / 10 == number_of(front));
        assert(n % 10 == digit_value(last));
        assert(decimal(n) =~= front.push(last));
        assert(front.push(last) =~= digits);
    }
}

proof fn lemma_numeral_at_found(text: Seq<char>, from: int, n: u64, next: Seq<char>)
    requires
        0 <= from,
        has_at(text, from, decimal(n as nat) + next),
        next.len() > 0,
        !is_digit(next[0]),
    ensures
        numeral_at(text, from) == Some((n, from + decimal(n as nat).len())),
{
    let digits = decimal(n as nat);
    let end = from + digits.len();
    let both = digits + next;
    lemma_decimal_reads_back(n as nat);
    assert forall|k: int| from <= k < end implies is_digit(#[trigger] text[k]) by {
        assert(text.subrange(from, from + both.len())[k - from] == both[k - from]);
        assert(both[k - from] == digits[k - from]);
    }
    assert(text[end] == next[0]) by {
        assert(text.subrange(from, from + both.len())[end - from] == both[end - from]);
    }
    lemma_digits_end_found(text, from, end);
    assert(text.subrange(from, end) =~= digits) by {
        assert forall|k: int| 0 <= k < digits.len() implies text.subrange(from, end)[k]
            == digits[k] by {
            assert(text.subrange(from, from + both.len())[k] == both[k]);
        }
    }
}

/// Reading a written frame gives the claims back.
pub proof fn lemma_frame_round_trip(claims: Frame)
    ensures
        parse_frame(frame(claims)) == Some(claims),
{
    reveal_strlit(",\"iat\":");
    reveal_strlit(",\"station_res\":");
    reveal_strlit("}");
    let text = frame(claims);
    let exp_text = decimal(claims.exp as nat);
    let iat_text = decimal(claims.iat as nat);
    let k1 = exp_key().len() as int;
    let a = k1 + exp_text.len();
    let k2 = a + iat_key().len();
    let b = k2 + iat_text.len();
    let c = b + station_key().len();
    assert(text.subrange(0, k1) =~= exp_key());
    assert(text.subrange(k1, k1 + (exp_text + iat_key()).len()) =~= exp_text + iat_key());
    lemma_numeral_at_found(text, k1, claims.exp, iat_key());
    assert(text.subrange(a, a + iat_key().len()) =~= iat_key());
    assert(text.subrange(k2, k2 + (iat_text + station_key()).len()) =~= iat_text + station_key());
    lemma_numeral_at_found(text, k2, claims.iat, station_key());
    assert(text.subrange(b, b + station_key().len()) =~= station_key());
    assert(text.len() == c + claims.station_res.len() + 1);
    assert(text.subrange(text.len() - 1, text.len() - 1 + frame_end().len()) =~= frame_end());
    assert(text.subrange(c, text.len() - 1) =~= claims.station_res);
}

/// A payload that reads as claims is the frame of those claims.
pub proof fn lemma_frame_unique(text: Seq<char>)
    requires
        parse_frame(text) is Some,
    ensures
        text == frame(parse_frame(text)->0),
{
    reveal_strlit("}");
    let claims = parse_frame(text)->0;
    let k1 = exp_key().len() as int;
    lemma_digits_end(text, k1);
    let a = digits_end(text, k1);
    let exp_text = text.subrange(k1, a);
    lemma_numeral_is_decimal(exp_text);
    let k2 = a + iat_key().len();
    lemma_digits_end(text, k2);
    let b = digits_end(text, k2);
    let iat_text = text.subrange(k2, b);
    lemma_numeral_is_decimal(iat_text);
    let c = b + station_key().len();
    let written = frame(claims);
    assert(written.len() == text.len());
    assert forall|k: int| 0 <= k < text.len() implies text[k] == written[k] by {
        if k < k1 {
            assert(text.subrange(0, k1)[k] == exp_key()[k]);
        } else if k < a {
            assert(exp_text[k - k1] == text[k]);
        } else if k < k2 {
            assert(text.subrange(a, k2)[k - a] == iat_key()[k - a]);
        } else if k < b {
            assert(iat_text[k - k2] == text[k]);
        } else if k < c {
            assert(text.subrange(b, c)[k - b] == station_key()[k - b]);
        } else if k < text.len() - 1 {
            assert(claims.station_res[k - c] == text[k]);
        } else {
            assert(text.subrange(text.len() - 1, text.len() as int)[0] == frame_end()[0]);
        }
    }
    assert(text =~= written);
}

} // verus!
