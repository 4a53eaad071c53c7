//! String-format predicates: national identifier checksums and local
//! date-times. Every predicate is a pure function of the bytes of its input.

use vstd::prelude::*;
use vstd::slice::slice_subrange;
use vstd::string::StringSliceAdditionalSpecFns;

verus! {

/// `b` is one of the ASCII characters `'0'..='9'`.
pub open spec fn is_digit(b: u8) -> bool {
    0x30 <= b <= 0x39
}

/// The number that the ASCII digit `b` stands for.
pub open spec fn digit_value(b: u8) -> int {
    b - 0x30
}

/// Every byte of `s` is an ASCII digit.
pub open spec fn all_digits(s: Seq<u8>) -> bool {
    forall|i: int| 0 <= i < s.len() ==> is_digit(#[trigger] s[i])
}

/// The number written by the two ASCII digits `hi`, `lo`.
pub open spec fn two_digit_value(hi: u8, lo: u8) -> int {
    10 * digit_value(hi) + digit_value(lo)
}

/// The number written by the four ASCII digits `a`, `b`, `c`, `d`.
pub open spec fn four_digit_value(a: u8, b: u8, c: u8, d: u8) -> int {
    1000 * digit_value(a) + 100 * digit_value(b) + 10 * digit_value(c) + digit_value(d)
}

/// Gregorian leap-year rule.
pub open spec fn leap_year(year: int) -> bool {
    (year % 4 == 0 && year % 100 != 0) || year % 400 == 0
}

/// Decodes the first two bytes as a decimal number; `None` unless both are
/// ASCII digits.
pub fn parse_two_digits(bytes: &[u8]) -> (res: Option<u8>)
    requires
        bytes@.len() >= 2,
    ensures
        res is Some <==> is_digit(bytes@[0]) && is_digit(bytes@[1]),
        res matches Some(v) ==> v == two_digit_value(bytes@[0], bytes@[1]),
{
    let hi: u8 = bytes[0];
    let lo: u8 = bytes[1];
    if hi >= 0x30 && hi <= 0x39 && lo >= 0x30 && lo <= 0x39 {
        Some((hi - 0x30) * 10 + (lo - 0x30))
    } else {
        None
    }
}

/// Decodes the first four bytes as a decimal number; `None` unless all four
/// are ASCII digits.
pub fn parse_four_digits(bytes: &[u8]) -> (res: Option<u16>)
    requires
        bytes@.len() >= 4,
    ensures
        res is Some <==> is_digit(bytes@[0]) && is_digit(bytes@[1]) && is_digit(bytes@[2])
            && is_digit(bytes@[3]),
        res matches Some(v) ==> v == four_digit_value(bytes@[0], bytes@[1], bytes@[2], bytes@[3]),
{
    let mut value: u16 = 0;
    let mut i: usize = 0;
    while i < 4
        invariant
            i <= 4,
            bytes@.len() >= 4,
            forall|k: int| 0 <= k < i ==> is_digit(#[trigger] bytes@[k]),
            i == 0 ==> value == 0,
            i == 1 ==> value == digit_value(bytes@[0]),
            i == 2 ==> value == 10 * digit_value(bytes@[0]) + digit_value(bytes@[1]),
            i == 3 ==> value == 100 * digit_value(bytes@[0]) + 10 * digit_value(bytes@[1])
                + digit_value(bytes@[2]),
            i == 4 ==> value == four_digit_value(bytes@[0], bytes@[1], bytes@[2], bytes@[3]),
        decreases 4 - i,
    {
        let b: u8 = bytes[i];
        if b < 0x30 || b > 0x39 {
            return None;
        }
        value = value * 10 + (b - 0x30) as u16;
        i += 1;
    }
    Some(value)
}

/// Whether `year` is a leap year of the Gregorian calendar.
pub fn is_leap_year(year: u16) -> (leap: bool)
    ensures
        leap == leap_year(year as int),
{
    (year % 4 == 0 && year % 100 != 0) || (year % 400 == 0)
}

/// Number of days of `month` (1 to 12) in `year`.
pub open spec fn days_in_month(year: int, month: int) -> int {
    if month == 2 {
        if leap_year(year) {
            29
        } else {
            28
        }
    } else if month == 4 || month == 6 || month == 9 || month == 11 {
        30
    } else {
        31
    }
}

/// `s` is a calendar date written `YYYY-MM-DD`: exactly ten bytes, hyphens at
/// the fixed places, digits elsewhere, a month from 1 to 12 and a day that
/// the month has in that year.
pub open spec fn is_date(s: Seq<u8>) -> bool {
    &&& s.len() == 10
    &&& s[4] == 0x2D
    &&& s[7] == 0x2D
    &&& is_digit(s[0]) && is_digit(s[1]) && is_digit(s[2]) && is_digit(s[3])
    &&& is_digit(s[5]) && is_digit(s[6])
    &&& is_digit(s[8]) && is_digit(s[9])
    &&& 1 <= two_digit_value(s[5], s[6]) <= 12
    &&& 1 <= two_digit_value(s[8], s[9]) <= days_in_month(
        four_digit_value(s[0], s[1], s[2], s[3]),
        two_digit_value(s[5], s[6]),
    )
}

/// `s` is a time of day written `HH:MM:SS`, optionally followed by a dot and
/// one or more digits of a fraction of the second, and by nothing else.
pub open spec fn is_time(s: Seq<u8>) -> bool {
    &&& s.len() >= 8
    &&& s[2] == 0x3A
    &&& s[5] == 0x3A
    &&& is_digit(s[0]) && is_digit(s[1])
    &&& is_digit(s[3]) && is_digit(s[4])
    &&& is_digit(s[6]) && is_digit(s[7])
    &&& two_digit_value(s[0], s[1]) <= 23
    &&& two_digit_value(s[3], s[4]) <= 59
    &&& two_digit_value(s[6], s[7]) <= 59
    &&& (s.len() == 8 || (s.len() >= 10 && s[8] == 0x2E && all_digits(
        s.subrange(9, s.len() as int),
    )))
}

/// `b` separates the date from the time: `'T'` or `'t'`.
pub open spec fn is_separator(b: u8) -> bool {
    b == 0x54 || b == 0x74
}

/// `t` is the place of the first separator in `s`.
pub open spec fn is_first_separator(s: Seq<u8>, t: int) -> bool {
    &&& 0 <= t < s.len()
    &&& is_separator(s[t])
    &&& forall|k: int| 0 <= k < t ==> !is_separator(#[trigger] s[k])
}

/// `s` is a local date-time: a date, the first separator of `s`, and a time.
pub open spec fn is_local_date_time(s: Seq<u8>) -> bool {
    exists|t: int|
        #![trigger is_first_separator(s, t)]
        is_first_separator(s, t) && is_date(s.subrange(0, t)) && is_time(
            s.subrange(t + 1, s.len() as int),
        )
}

/// Whether `date` is a calendar date written `YYYY-MM-DD`.
pub fn is_valid_date(date: &str) -> (ok: bool)
    ensures
        ok == is_date(date.spec_bytes()),
{
    if date.len() != 10 {
        return false;
    }
    let bytes = date.as_bytes();
    if bytes[4] != 0x2D || bytes[7] != 0x2D {
        return false;
    }
    let year: u16 = match parse_four_digits(slice_subrange(bytes, 0, 4)) {
        Some(y) => y,
        None => { return false; },
    };
    let month: u8 = match parse_two_digits(slice_subrange(bytes, 5, 7)) {
        Some(m) => m,
        None => { return false; },
    };
    if month < 1 || month > 12 {
        return false;
    }
    let day: u8 = match parse_two_digits(slice_subrange(bytes, 8, 10)) {
        Some(d) => d,
        None => { return false; },
    };
    if day == 0 {
        return false;
    }
    if month == 2 {
        if is_leap_year(year) {
            day <= 29
        } else {
            day <= 28
        }
    } else if month == 4 || month == 6 || month == 9 || month == 11 {
        day <= 30
    } else {
        day <= 31
    }
}

/// Whether `time` is a time of day written `HH:MM:SS` with an optional
/// fraction of the second.
#[verifier::loop_isolation(false)]
pub fn is_valid_time(time: &str) -> (ok: bool)
    ensures
        ok == is_time(time.spec_bytes()),
{
    let bytes = time.as_bytes();
    let len: usize = bytes.len();
    if len < 8 {
        return false;
    }
    if bytes[2] != 0x3A || bytes[5] != 0x3A {
        return false;
    }
    let hour: u8 = match parse_two_digits(slice_subrange(bytes, 0, 2)) {
        Some(h) => h,
        None => { return false; },
    };
    let minute: u8 = match parse_two_digits(slice_subrange(bytes, 3, 5)) {
        Some(m) => m,
        None => { return false; },
    };
    let second: u8 = match parse_two_digits(slice_subrange(bytes, 6, 8)) {
        Some(s) => s,
        None => { return false; },
    };
    if hour > 23 || minute > 59 || second > 59 {
        return false;
    }
    if len == 8 {
        return true;
    }
    if bytes[8] != 0x2E || len < 10 {
        return false;
    }
    let mut i: usize = 9;
    while i < len
        invariant
            9 <= i <= len,
            len == bytes@.len(),
            forall|k: int| 9 <= k < i ==> is_digit(#[trigger] bytes@[k]),
        decreases len - i,
    {
        let b: u8 = bytes[i];
        if b < 0x30 || b > 0x39 {
            assert(!is_digit(bytes@.subrange(9, len as int)[i - 9]));
            return false;
        }
        i += 1;
    }
    assert forall|k: int| 0 <= k < bytes@.subrange(9, len as int).len() implies is_digit(
        #[trigger] bytes@.subrange(9, len as int)[k],
    ) by {
        assert(is_digit(bytes@[k + 9]));
    }
    true
}

/// Whether `datetime` is a local date-time: it is split at its first `'T'`
/// or `'t'` into a date and a time of day, and both must be valid.
pub fn local_date_time(datetime: &str) -> (ok: bool)
    ensures
        ok == is_local_date_time(datetime.spec_bytes()),
{
    broadcast use vstd::utf8::encode_utf8_valid_utf8;

    let bytes = datetime.as_bytes();
    let len: usize = bytes.len();
    let mut t_pos: usize = 0;
    while t_pos < len && !(bytes[t_pos] == 0x54 || bytes[t_pos] == 0x74)
        invariant
            t_pos <= len,
            len == bytes@.len(),
            forall|k: int| 0 <= k < t_pos ==> !is_separator(#[trigger] bytes@[k]),
        decreases len - t_pos,
    {
        t_pos += 1;
    }
    if t_pos == len {
        return false;
    }
    let ghost whole = datetime.spec_bytes();
    assert(is_first_separator(whole, t_pos as int));
    proof {
        vstd::utf8::is_char_boundary_iff_is_leading_byte(whole, t_pos as int);
    }
    let (date_part, time_part) = datetime.split_at(t_pos);
    let ghost rest = time_part.spec_bytes();
    proof {
        assert(rest[0] == whole[t_pos as int]);
        reveal_with_fuel(vstd::utf8::is_char_boundary, 2);
        assert(vstd::utf8::is_char_boundary(rest, 1));
    }
    let (_, time) = time_part.split_at(1);
    assert(time.spec_bytes() =~= whole.subrange(t_pos + 1, len as int));
    let ok = is_valid_date(date_part) && is_valid_time(time);
    assert(ok == is_local_date_time(whole)) by {
        if is_local_date_time(whole) {
            let t = choose|t: int|
                #![trigger is_first_separator(whole, t)]
                is_first_separator(whole, t) && is_date(whole.subrange(0, t)) && is_time(
                    whole.subrange(t + 1, whole.len() as int),
                );
            assert(t == t_pos);
        }
    }
    ok
}

/// Sum of the first `n` digits of `digits`, each multiplied by the weight at
/// its place.
pub open spec fn weighted_sum(digits: Seq<u8>, weights: Seq<int>, n: int) -> int
    decreases n,
{
    if n <= 0 {
        0
    } else {
        weighted_sum(digits, weights, n - 1) + digit_value(digits[n - 1]) * weights[n - 1]
    }
}

/// `s` begins with the two characters `"00"`.
pub open spec fn starts_with_two_zeros(s: Seq<u8>) -> bool {
    s.len() >= 2 && s[0] == 0x30 && s[1] == 0x30
}

/// Weights of the first check digit of a taxpayer number of an individual.
pub open spec fn inn_individual_weights_first() -> Seq<int> {
    seq![7, 2, 4, 10, 3, 5, 9, 4, 6, 8, 0]
}

/// Weights of the second check digit of a taxpayer number of an individual.
pub open spec fn inn_individual_weights_second() -> Seq<int> {
    seq![3, 7, 2, 4, 10, 3, 5, 9, 4, 6, 8]
}

/// Weights of the check digit of a taxpayer number of a legal entity.
pub open spec fn inn_legal_entity_weights() -> Seq<int> {
    seq![2, 4, 10, 3, 5, 9, 4, 6, 8]
}

/// The check digit that a weighted sum asks for.
pub open spec fn inn_check_digit(sum: int) -> int {
    sum % 11 % 10
}

/// `s` is a Russian taxpayer number of an individual: twelve digits, not
/// starting with `"00"`, whose last two digits are the check digits of the
/// digits before them.
pub open spec fn is_ru_inn_individual(s: Seq<u8>) -> bool {
    &&& s.len() == 12
    &&& !starts_with_two_zeros(s)
    &&& all_digits(s)
    &&& digit_value(s[10]) == inn_check_digit(
        weighted_sum(s, inn_individual_weights_first(), 11),
    )
    &&& digit_value(s[11]) == inn_check_digit(
        weighted_sum(s, inn_individual_weights_second(), 11),
    )
}

/// `s` is a Russian taxpayer number of a legal entity: ten digits, not
/// starting with `"00"`, whose last digit is the check digit of the nine
/// before it.
pub open spec fn is_ru_inn_legal_entity(s: Seq<u8>) -> bool {
    &&& s.len() == 10
    &&& !starts_with_two_zeros(s)
    &&& all_digits(s)
    &&& digit_value(s[9]) == inn_check_digit(weighted_sum(s, inn_legal_entity_weights(), 9))
}

/// The weights as mathematical integers.
pub open spec fn weights_of(weights: Seq<u32>) -> Seq<int> {
    weights.map_values(|w: u32| w as int)
}

/// Where every byte is a digit, so is every byte of a prefix.
proof fn lemma_prefix_of_digits(s: Seq<u8>, n: int)
    requires
        0 <= n <= s.len(),
        all_digits(s),
    ensures
        all_digits(s.subrange(0, n)),
{
    assert forall|k: int| 0 <= k < n implies is_digit(#[trigger] s.subrange(0, n)[k]) by {
        assert(is_digit(s[k]));
    }
}

/// Weighted sum of the leading digits of `bytes`, one for each weight;
/// `None` as soon as one of those bytes is not an ASCII digit.
fn weighted_digit_sum(bytes: &[u8], weights: &[u32]) -> (res: Option<u32>)
    requires
        weights@.len() <= bytes@.len(),
        weights@.len() <= 16,
        forall|k: int| 0 <= k < weights@.len() ==> #[trigger] weights@[k] <= 16,
    ensures
        res is Some <==> all_digits(bytes@.subrange(0, weights@.len() as int)),
        res matches Some(v) ==> v == weighted_sum(
            bytes@,
            weights_of(weights@),
            weights@.len() as int,
        ),
{
    let n: usize = weights.len();
    let mut sum: u32 = 0;
    let mut i: usize = 0;
    while i < n
        invariant
            i <= n,
            n == weights@.len(),
            n <= bytes@.len(),
            n <= 16,
            forall|k: int| 0 <= k < n ==> #[trigger] weights@[k] <= 16,
            forall|k: int| 0 <= k < i ==> is_digit(#[trigger] bytes@[k]),
            sum == weighted_sum(bytes@, weights_of(weights@), i as int),
            sum <= 144 * i,
        decreases n - i,
    {
        let b: u8 = bytes[i];
        if b < 0x30 || b > 0x39 {
            assert(!is_digit(bytes@.subrange(0, n as int)[i as int]));
            return None;
        }
        let d: u32 = (b - 0x30) as u32;
        let w: u32 = weights[i];
        assert(d * w <= 144) by (nonlinear_arith)
            requires
                d <= 9,
                w <= 16,
        ;
        assert(weights_of(weights@)[i as int] == w);
        sum = sum + d * w;
        i += 1;
    }
    assert forall|k: int| 0 <= k < bytes@.subrange(0, n as int).len() implies is_digit(
        #[trigger] bytes@.subrange(0, n as int)[k],
    ) by {
        assert(is_digit(bytes@[k]));
    }
    Some(sum)
}

/// Whether `r` is a Russian taxpayer number of an individual.
pub fn ru_inn_individual(r: &str) -> (ok: bool)
    ensures
        ok == is_ru_inn_individual(r.spec_bytes()),
{
    let bytes = r.as_bytes();
    if bytes.len() != 12 || (bytes[0] == 0x30 && bytes[1] == 0x30) {
        return false;
    }
    let coefficients1: [u32; 11] = [7, 2, 4, 10, 3, 5, 9, 4, 6, 8, 0];
    let coefficients2: [u32; 11] = [3, 7, 2, 4, 10, 3, 5, 9, 4, 6, 8];
    assert(weights_of(coefficients1@) =~= inn_individual_weights_first());
    assert(weights_of(coefficients2@) =~= inn_individual_weights_second());
    let checksum1: u32 = match weighted_digit_sum(bytes, coefficients1.as_slice()) {
        Some(sum) => sum,
        None => {
            proof {
                if all_digits(bytes@) {
                    lemma_prefix_of_digits(bytes@, 11);
                }
            }
            return false;
        },
    };
    let checksum2: u32 = match weighted_digit_sum(bytes, coefficients2.as_slice()) {
        Some(sum) => sum,
        None => { return false; },
    };
    let last: u8 = bytes[11];
    if last < 0x30 || last > 0x39 {
        return false;
    }
    assert forall|k: int| 0 <= k < 12 implies is_digit(#[trigger] bytes@[k]) by {
        if k < 11 {
            assert(is_digit(bytes@.subrange(0, 11)[k]));
        }
    }
    let n11: u32 = (checksum1 % 11) % 10;
    let n12: u32 = (checksum2 % 11) % 10;
    (bytes[10] - 0x30) as u32 == n11 && (last - 0x30) as u32 == n12
}

/// Whether `r` is a Russian taxpayer number of a legal entity.
pub fn ru_inn_legal_entity(r: &str) -> (ok: bool)
    ensures
        ok == is_ru_inn_legal_entity(r.spec_bytes()),
{
    let bytes = r.as_bytes();
    if bytes.len() != 10 || (bytes[0] == 0x30 && bytes[1] == 0x30) {
        return false;
    }
    let coefficients: [u32; 9] = [2, 4, 10, 3, 5, 9, 4, 6, 8];
    assert(weights_of(coefficients@) =~= inn_legal_entity_weights());
    let checksum: u32 = match weighted_digit_sum(bytes, coefficients.as_slice()) {
        Some(sum) => sum,
        None => {
            proof {
                if all_digits(bytes@) {
                    lemma_prefix_of_digits(bytes@, 9);
                }
            }
            return false;
        },
    };
    let last: u8 = bytes[9];
    if last < 0x30 || last > 0x39 {
        return false;
    }
    assert forall|k: int| 0 <= k < 10 implies is_digit(#[trigger] bytes@[k]) by {
        if k < 9 {
            assert(is_digit(bytes@.subrange(0, 9)[k]));
        }
    }
    (last - 0x30) as u32 == checksum % 11 % 10
}

/// Every byte of `s` equals the first one.
pub open spec fn all_same(s: Seq<u8>) -> bool {
    forall|i: int| 0 <= i < s.len() ==> #[trigger] s[i] == s[0]
}

/// Weight of the digit at place `i` in the first pass: `i + 1`.
pub open spec fn kz_weight_first(i: int) -> int {
    i + 1
}

/// Weight of the digit at place `i` in the second pass: `(i + 3) mod 11`,
/// with 11 in place of 0.
pub open spec fn kz_weight_second(i: int) -> int {
    if (i + 3) % 11 == 0 {
        11
    } else {
        (i + 3) % 11
    }
}

/// The eleven weights of the first pass.
pub open spec fn kz_weights_first() -> Seq<int> {
    Seq::new(11, |i: int| kz_weight_first(i))
}

/// The eleven weights of the second pass.
pub open spec fn kz_weights_second() -> Seq<int> {
    Seq::new(11, |i: int| kz_weight_second(i))
}

/// Control value of the first pass over the first eleven digits.
pub open spec fn kz_control_first(s: Seq<u8>) -> int {
    weighted_sum(s, kz_weights_first(), 11) % 11
}

/// Control value of the second pass over the first eleven digits.
pub open spec fn kz_control_second(s: Seq<u8>) -> int {
    weighted_sum(s, kz_weights_second(), 11) % 11
}

/// The control value that decides: that of the first pass, or that of the
/// second where the first gave 10.
pub open spec fn kz_control(s: Seq<u8>) -> int {
    if kz_control_first(s) == 10 {
        kz_control_second(s)
    } else {
        kz_control_first(s)
    }
}

/// `s` is a Kazakhstani individual identification number: twelve digits, not
/// all the same, whose last digit is the control value of the eleven before
/// it; where both passes give 10 no digit can stand for it.
pub open spec fn is_kz_iin(s: Seq<u8>) -> bool {
    &&& s.len() == 12
    &&& !all_same(s)
    &&& all_digits(s)
    &&& kz_control(s) != 10
    &&& digit_value(s[11]) == kz_control(s)
}

/// Whether `r` is a Kazakhstani individual identification number.
#[verifier::loop_isolation(false)]
pub fn kz_iin(r: &str) -> (ok: bool)
    ensures
        ok == is_kz_iin(r.spec_bytes()),
{
    let bytes = r.as_bytes();
    if bytes.len() != 12 {
        return false;
    }
    let first_symbol: u8 = bytes[0];
    let mut same: bool = true;
    let mut j: usize = 1;
    while j < 12
        invariant
            1 <= j <= 12,
            bytes@.len() == 12,
            first_symbol == bytes@[0],
            same <==> forall|k: int| 0 <= k < j ==> #[trigger] bytes@[k] == bytes@[0],
        decreases 12 - j,
    {
        if bytes[j] != first_symbol {
            same = false;
        }
        j += 1;
    }
    if same {
        return false;
    }
    let mut checksum: u32 = 0;
    let mut i: usize = 0;
    while i < 11
        invariant
            i <= 11,
            bytes@.len() == 12,
            forall|k: int| 0 <= k < i ==> is_digit(#[trigger] bytes@[k]),
            checksum == weighted_sum(bytes@, kz_weights_first(), i as int),
            checksum <= 99 * i,
        decreases 11 - i,
    {
        let b: u8 = bytes[i];
        if b < 0x30 || b > 0x39 {
            return false;
        }
        let num: u32 = (b - 0x30) as u32;
        let weight: u32 = i as u32 + 1;
        assert(weight * num <= 99) by (nonlinear_arith)
            requires
                weight <= 11,
                num <= 9,
        ;
        assert(kz_weights_first()[i as int] == weight);
        assert(weight * num == num * weight) by (nonlinear_arith);
        checksum += weight * num;
        i += 1;
    }
    let mut control_value: u32 = checksum % 11;
    if control_value == 10 {
        checksum = 0;
        i = 0;
        while i < 11
            invariant
                i <= 11,
                bytes@.len() == 12,
                forall|k: int| 0 <= k < 11 ==> is_digit(#[trigger] bytes@[k]),
                checksum == weighted_sum(bytes@, kz_weights_second(), i as int),
                checksum <= 99 * i,
            decreases 11 - i,
        {
            let num: u32 = (bytes[i] - 0x30) as u32;
            let mut t: u32 = (i as u32 + 3) % 11;
            if t == 0 {
                t = 11;
            }
            assert(t * num <= 99) by (nonlinear_arith)
                requires
                    t <= 11,
                    num <= 9,
            ;
            assert(kz_weights_second()[i as int] == t);
            assert(t * num == num * t) by (nonlinear_arith);
            checksum += t * num;
            i += 1;
        }
        control_value = checksum % 11;
        if control_value == 10 {
            return false;
        }
    }
    let last: u8 = bytes[11];
    if last < 0x30 || last > 0x39 {
        return false;
    }
    assert forall|k: int| 0 <= k < 12 implies is_digit(#[trigger] bytes@[k]) by {}
    (last - 0x30) as u32 == control_value
}

/// `b` is an ASCII hexadecimal digit, of either case.
pub open spec fn is_hex_digit(b: u8) -> bool {
    is_digit(b) || (0x41 <= b <= 0x46) || (0x61 <= b <= 0x66)
}

/// `i` is one of the four places where a textual UUID has a hyphen.
pub open spec fn is_uuid_hyphen_place(i: int) -> bool {
    i == 8 || i == 13 || i == 18 || i == 23
}

/// `s` is a UUID in its canonical text: 32 hexadecimal digits in groups of
/// 8, 4, 4, 4 and 12, with a hyphen between the groups.
pub open spec fn is_uuid(s: Seq<u8>) -> bool {
    &&& s.len() == 36
    &&& forall|i: int|
        0 <= i < 36 ==> if is_uuid_hyphen_place(i) {
            #[trigger] s[i] == 0x2D
        } else {
            is_hex_digit(s[i])
        }
}

/// Whether `s` is a UUID in its canonical text.
pub fn uuid(s: &str) -> (ok: bool)
    ensures
        ok == is_uuid(s.spec_bytes()),
{
    let bytes = s.as_bytes();
    if bytes.len() != 36 {
        return false;
    }
    let mut i: usize = 0;
    while i < 36
        invariant
            i <= 36,
            bytes@.len() == 36,
            bytes@ == s.spec_bytes(),
            forall|k: int|
                0 <= k < i ==> if is_uuid_hyphen_place(k) {
                    #[trigger] bytes@[k] == 0x2D
                } else {
                    is_hex_digit(bytes@[k])
                },
        decreases 36 - i,
    {
        let b: u8 = bytes[i];
        let fits: bool = if i == 8 || i == 13 || i == 18 || i == 23 {
            b == 0x2D
        } else {
            (b >= 0x30 && b <= 0x39) || (b >= 0x41 && b <= 0x46) || (b >= 0x61 && b <= 0x66)
        };
        if !fits {
            assert(!is_uuid(bytes@)) by {
                let _ = bytes@[i as int];
            }
            return false;
        }
        i += 1;
    }
    true
}

/// A named string format of the catalog.
#[derive(Clone, Copy, Debug, PartialEq, Eq, Structural)]
pub enum Format {
    /// Russian taxpayer number of an individual.
    RuInnIndividual,
    /// Russian taxpayer number of a legal entity.
    RuInnLegalEntity,
    /// Kazakhstani individual identification number.
    KzIin,
    /// Date and time of day without a time zone.
    LocalDateTime,
    /// UUID in its canonical text.
    Uuid,
}

impl Format {
    /// The name under which a schema refers to the format.
    pub open spec fn spec_name(self) -> Seq<char> {
        match self {
            Format::RuInnIndividual => "ru-inn-individual"@,
            Format::RuInnLegalEntity => "ru-inn-legal-entity"@,
            Format::KzIin => "kz-iin"@,
            Format::LocalDateTime => "local-date-time"@,
            Format::Uuid => "uuid"@,
        }
    }

    /// Whether the format accepts the string with the bytes `s`.
    pub open spec fn accepts(self, s: Seq<u8>) -> bool {
        match self {
            Format::RuInnIndividual => is_ru_inn_individual(s),
            Format::RuInnLegalEntity => is_ru_inn_legal_entity(s),
            Format::KzIin => is_kz_iin(s),
            Format::LocalDateTime => is_local_date_time(s),
            Format::Uuid => is_uuid(s),
        }
    }

    /// The name under which a schema refers to the format.
    pub fn name(&self) -> (name: &'static str)
        ensures
            name@ == self.spec_name(),
    {
        match self {
            Format::RuInnIndividual => "ru-inn-individual",
            Format::RuInnLegalEntity => "ru-inn-legal-entity",
            Format::KzIin => "kz-iin",
            Format::LocalDateTime => "local-date-time",
            Format::Uuid => "uuid",
        }
    }

    /// Applies the format's predicate to `s`.
    pub fn check(&self, s: &str) -> (ok: bool)
        ensures
            ok == self.accepts(s.spec_bytes()),
    {
        match self {
            Format::RuInnIndividual => ru_inn_individual(s),
            Format::RuInnLegalEntity => ru_inn_legal_entity(s),
            Format::KzIin => kz_iin(s),
            Format::LocalDateTime => local_date_time(s),
            Format::Uuid => uuid(s),
        }
    }
}

/// The catalog: every format, in its fixed order.
pub open spec fn catalog_formats() -> Seq<Format> {
    seq![
        Format::RuInnIndividual,
        Format::RuInnLegalEntity,
        Format::KzIin,
        Format::LocalDateTime,
        Format::Uuid,
    ]
}

/// The formats that a validator is built with: the whole catalog, or none.
pub open spec fn active_formats_of(use_custom_formats: bool) -> Seq<Format> {
    if use_custom_formats {
        catalog_formats()
    } else {
        Seq::empty()
    }
}

/// The catalog: every format, in its fixed order.
pub fn catalog() -> (formats: Vec<Format>)
    ensures
        formats@ == catalog_formats(),
{
    let mut formats: Vec<Format> = Vec::new();
    formats.push(Format::RuInnIndividual);
    formats.push(Format::RuInnLegalEntity);
    formats.push(Format::KzIin);
    formats.push(Format::LocalDateTime);
    formats.push(Format::Uuid);
    assert(formats@ =~= catalog_formats());
    formats
}

/// The formats that a validator is built with: the catalog is switched on
/// or off as a whole.
pub fn active_formats(use_custom_formats: bool) -> (formats: Vec<Format>)
    ensures
        formats@ == active_formats_of(use_custom_formats),
{
    if use_custom_formats {
        catalog()
    } else {
        Vec::new()
    }
}

/// No two formats of the catalog share a name.
pub proof fn lemma_catalog_names_unique(a: Format, b: Format)
    requires
        a.spec_name() == b.spec_name(),
    ensures
        a == b,
{
    reveal_strlit("ru-inn-individual");
    reveal_strlit("ru-inn-legal-entity");
    reveal_strlit("kz-iin");
    reveal_strlit("local-date-time");
    reveal_strlit("uuid");
    assert("ru-inn-individual"@.len() == 17);
    assert("ru-inn-legal-entity"@.len() == 19);
    assert("kz-iin"@.len() == 6);
    assert("local-date-time"@.len() == 15);
    assert("uuid"@.len() == 4);
}

/// Every format stands in the catalog, and at one place only.
pub proof fn lemma_catalog_complete(f: Format)
    ensures
        catalog_formats().contains(f),
        forall|i: int, j: int|
            0 <= i < catalog_formats().len() && 0 <= j < catalog_formats().len()
                && catalog_formats()[i] == catalog_formats()[j] ==> i == j,
{
    let c = catalog_formats();
    match f {
        Format::RuInnIndividual => assert(c[0] == f),
        Format::RuInnLegalEntity => assert(c[1] == f),
        Format::KzIin => assert(c[2] == f),
        Format::LocalDateTime => assert(c[3] == f),
        Format::Uuid => assert(c[4] == f),
    }
}

} // verus!
