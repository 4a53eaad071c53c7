//! What holds of the format predicates on every input: the lengths they ask
//! for, the strings they are bound to accept and those they must refuse.

use crate::formats::{
    all_digits, all_same, days_in_month, digit_value, inn_check_digit,
    inn_individual_weights_first, inn_individual_weights_second, inn_legal_entity_weights,
    four_digit_value, is_date, is_digit, is_first_separator, is_kz_iin, is_local_date_time, is_ru_inn_individual,
    is_ru_inn_legal_entity, is_separator, is_time, is_uuid, kz_control, kz_control_first,
    kz_control_second, kz_weights_first, kz_weights_second, starts_with_two_zeros, two_digit_value, weighted_sum,
};
use vstd::prelude::*;

verus! {

/// The ASCII digit that writes `d`, for `d` from 0 to 9.
pub open spec fn digit_byte(d: int) -> u8 {
    (0x30 + d) as u8
}

/// `n` written with two decimal digits, for `n` from 0 to 99.
pub open spec fn two_digits(n: int) -> Seq<u8> {
    seq![digit_byte(n / 10), digit_byte(n % 10)]
}

/// `n` written with four decimal digits, for `n` from 0 to 9999.
pub open spec fn four_digits(n: int) -> Seq<u8> {
    seq![
        digit_byte(n / 1000),
        digit_byte((n / 100) % 10),
        digit_byte((n / 10) % 10),
        digit_byte(n % 10),
    ]
}

/// The date written `YYYY-MM-DD`.
pub open spec fn format_date(year: int, month: int, day: int) -> Seq<u8> {
    four_digits(year) + seq![0x2Du8] + two_digits(month) + seq![0x2Du8] + two_digits(day)
}

/// The time of day written `HH:MM:SS`.
pub open spec fn format_time(hour: int, minute: int, second: int) -> Seq<u8> {
    two_digits(hour) + seq![0x3Au8] + two_digits(minute) + seq![0x3Au8] + two_digits(second)
}

/// The date and time written `YYYY-MM-DDTHH:MM:SS`.
pub open spec fn format_local_date_time(
    year: int,
    month: int,
    day: int,
    hour: int,
    minute: int,
    second: int,
) -> Seq<u8> {
    format_date(year, month, day) + seq![0x54u8] + format_time(hour, minute, second)
}

/// A string of another length than a format asks for is refused: twelve
/// bytes for both twelve-digit numbers, ten for the number of a legal
/// entity, thirty-six for a UUID, and for a local date-time nineteen or,
/// with a fraction, at least twenty-one.
pub proof fn lemma_wrong_length_refused(s: Seq<u8>)
    ensures
        s.len() != 12 ==> !is_ru_inn_individual(s),
        s.len() != 10 ==> !is_ru_inn_legal_entity(s),
        s.len() != 12 ==> !is_kz_iin(s),
        s.len() != 36 ==> !is_uuid(s),
        s.len() < 19 || s.len() == 20 ==> !is_local_date_time(s),
{
    if is_local_date_time(s) {
        lemma_local_date_time_by_place(s);
    }
}

/// A local date-time has its separator at the eleventh byte: the ten bytes
/// before it are the date, those after it the time.
pub proof fn lemma_local_date_time_by_place(s: Seq<u8>)
    ensures
        is_local_date_time(s) <==> s.len() >= 11 && is_separator(s[10]) && is_date(
            s.subrange(0, 10),
        ) && is_time(s.subrange(11, s.len() as int)),
{
    if is_local_date_time(s) {
        let t = choose|t: int|
            #![trigger is_first_separator(s, t)]
            is_first_separator(s, t) && is_date(s.subrange(0, t)) && is_time(
                s.subrange(t + 1, s.len() as int),
            );
        assert(s.subrange(0, t).len() == t);
    }
    if s.len() >= 11 && is_separator(s[10]) && is_date(s.subrange(0, 10)) && is_time(
        s.subrange(11, s.len() as int),
    ) {
        let date = s.subrange(0, 10);
        assert forall|k: int| 0 <= k < 10 implies !is_separator(#[trigger] s[k]) by {
            assert(s[k] == date[k]);
        }
        assert(is_first_separator(s, 10));
    }
}

/// Two digits written for a number below 100 are read back as that number.
pub proof fn lemma_two_digits_read_back(n: int)
    requires
        0 <= n <= 99,
    ensures
        two_digits(n).len() == 2,
        is_digit(two_digits(n)[0]),
        is_digit(two_digits(n)[1]),
        two_digit_value(two_digits(n)[0], two_digits(n)[1]) == n,
{
}

/// Four digits written for a number below 10000 are read back as that
/// number.
pub proof fn lemma_four_digits_read_back(n: int)
    requires
        0 <= n <= 9999,
    ensures
        four_digits(n).len() == 4,
        is_digit(four_digits(n)[0]),
        is_digit(four_digits(n)[1]),
        is_digit(four_digits(n)[2]),
        is_digit(four_digits(n)[3]),
        four_digit_value(four_digits(n)[0], four_digits(n)[1], four_digits(n)[2], four_digits(n)[3])
            == n,
{
}

/// A day that the calendar has, written `YYYY-MM-DD`, is a date.
pub proof fn lemma_formatted_date_accepted(year: int, month: int, day: int)
    requires
        0 <= year <= 9999,
        1 <= month <= 12,
        1 <= day <= days_in_month(year, month),
    ensures
        format_date(year, month, day).len() == 10,
        is_date(format_date(year, month, day)),
{
    lemma_four_digits_read_back(year);
    lemma_two_digits_read_back(month);
    lemma_two_digits_read_back(day);
    let s = format_date(year, month, day);
    let y = four_digits(year);
    let m = two_digits(month);
    let d = two_digits(day);
    assert(s.len() == 10);
    assert(s[0] == y[0] && s[1] == y[1] && s[2] == y[2] && s[3] == y[3]);
    assert(s[4] == 0x2D);
    assert(s[5] == m[0] && s[6] == m[1]);
    assert(s[7] == 0x2D);
    assert(s[8] == d[0] && s[9] == d[1]);
}

/// A time of day written `HH:MM:SS` is a time.
pub proof fn lemma_formatted_time_accepted(hour: int, minute: int, second: int)
    requires
        0 <= hour <= 23,
        0 <= minute <= 59,
        0 <= second <= 59,
    ensures
        format_time(hour, minute, second).len() == 8,
        is_time(format_time(hour, minute, second)),
{
    lemma_two_digits_read_back(hour);
    lemma_two_digits_read_back(minute);
    lemma_two_digits_read_back(second);
    let s = format_time(hour, minute, second);
    let h = two_digits(hour);
    let m = two_digits(minute);
    let c = two_digits(second);
    assert(s.len() == 8);
    assert(s[0] == h[0] && s[1] == h[1]);
    assert(s[2] == 0x3A);
    assert(s[3] == m[0] && s[4] == m[1]);
    assert(s[5] == 0x3A);
    assert(s[6] == c[0] && s[7] == c[1]);
}

/// Every date of the calendar from year 1 to year 9999, with every time of
/// day, written `YYYY-MM-DDTHH:MM:SS`, is a local date-time.
pub proof fn lemma_formatted_date_time_accepted(
    year: int,
    month: int,
    day: int,
    hour: int,
    minute: int,
    second: int,
)
    requires
        1 <= year <= 9999,
        1 <= month <= 12,
        1 <= day <= days_in_month(year, month),
        0 <= hour <= 23,
        0 <= minute <= 59,
        0 <= second <= 59,
    ensures
        is_local_date_time(format_local_date_time(year, month, day, hour, minute, second)),
{
    let s = format_local_date_time(year, month, day, hour, minute, second);
    let date = format_date(year, month, day);
    let time = format_time(hour, minute, second);
    lemma_formatted_date_accepted(year, month, day);
    lemma_formatted_time_accepted(hour, minute, second);
    assert(s.subrange(0, 10) =~= date);
    assert(s.subrange(11, s.len() as int) =~= time);
    assert(s[10] == 0x54);
    lemma_local_date_time_by_place(s);
}

/// Where both passes over the first eleven digits give the control value
/// 10, no twelfth digit makes the number valid.
pub proof fn lemma_kz_iin_without_check_digit(s: Seq<u8>)
    requires
        kz_control_first(s) == 10,
        kz_control_second(s) == 10,
    ensures
        !is_kz_iin(s),
{
}

/// A weighted sum reads only the digits that it counts.
pub proof fn lemma_weighted_sum_reads_prefix(a: Seq<u8>, b: Seq<u8>, weights: Seq<int>, n: int)
    requires
        n <= a.len(),
        n <= b.len(),
        forall|k: int| 0 <= k < n ==> a[k] == b[k],
    ensures
        weighted_sum(a, weights, n) == weighted_sum(b, weights, n),
    decreases n,
{
    if n > 0 {
        lemma_weighted_sum_reads_prefix(a, b, weights, n - 1);
    }
}

/// Nine digits that do not start with `"00"`, followed by their check
/// digit, are the taxpayer number of a legal entity.
pub proof fn lemma_inn_legal_entity_completed(body: Seq<u8>)
    requires
        body.len() == 9,
        all_digits(body),
        !starts_with_two_zeros(body),
    ensures
        is_ru_inn_legal_entity(
            body.push(
                digit_byte(inn_check_digit(weighted_sum(body, inn_legal_entity_weights(), 9))),
            ),
        ),
{
    let check = inn_check_digit(weighted_sum(body, inn_legal_entity_weights(), 9));
    let s = body.push(digit_byte(check));
    lemma_weighted_sum_reads_prefix(body, s, inn_legal_entity_weights(), 9);
    assert forall|k: int| 0 <= k < s.len() implies is_digit(#[trigger] s[k]) by {
        if k < 9 {
            assert(s[k] == body[k]);
        }
    }
}

/// Eleven digits that do not start with `"00"` and whose last is the first
/// check digit of the ten before it, followed by their second check digit,
/// are the taxpayer number of an individual.
pub proof fn lemma_inn_individual_completed(body: Seq<u8>)
    requires
        body.len() == 11,
        all_digits(body),
        !starts_with_two_zeros(body),
        digit_value(body[10]) == inn_check_digit(
            weighted_sum(body, inn_individual_weights_first(), 11),
        ),
    ensures
        is_ru_inn_individual(
            body.push(
                digit_byte(
                    inn_check_digit(weighted_sum(body, inn_individual_weights_second(), 11)),
                ),
            ),
        ),
{
    let check = inn_check_digit(weighted_sum(body, inn_individual_weights_second(), 11));
    let s = body.push(digit_byte(check));
    lemma_weighted_sum_reads_prefix(body, s, inn_individual_weights_first(), 11);
    lemma_weighted_sum_reads_prefix(body, s, inn_individual_weights_second(), 11);
    assert forall|k: int| 0 <= k < s.len() implies is_digit(#[trigger] s[k]) by {
        if k < 11 {
            assert(s[k] == body[k]);
        }
    }
}

/// The first check digit of an individual's number does not depend on the
/// eleventh digit, whose weight is 0: ten digits that do not start with
/// `"00"`, followed by both check digits in turn, are a valid number.
pub proof fn lemma_inn_individual_from_ten_digits(body: Seq<u8>)
    requires
        body.len() == 10,
        all_digits(body),
        !starts_with_two_zeros(body),
    ensures
        ({
            let first = inn_check_digit(weighted_sum(body, inn_individual_weights_first(), 10));
            let eleven = body.push(digit_byte(first));
            let second = inn_check_digit(
                weighted_sum(eleven, inn_individual_weights_second(), 11),
            );
            is_ru_inn_individual(eleven.push(digit_byte(second)))
        }),
{
    let first = inn_check_digit(weighted_sum(body, inn_individual_weights_first(), 10));
    let eleven = body.push(digit_byte(first));
    lemma_weighted_sum_reads_prefix(body, eleven, inn_individual_weights_first(), 10);
    assert(weighted_sum(eleven, inn_individual_weights_first(), 11) == weighted_sum(
        eleven,
        inn_individual_weights_first(),
        10,
    ) + digit_value(eleven[10]) * inn_individual_weights_first()[10]);
    assert(inn_individual_weights_first()[10] == 0);
    assert forall|k: int| 0 <= k < eleven.len() implies is_digit(#[trigger] eleven[k]) by {
        if k < 10 {
            assert(eleven[k] == body[k]);
        }
    }
    lemma_inn_individual_completed(eleven);
}

/// Eleven digits whose control value is not 10, followed by the digit of
/// that control value, are an identification number, unless all twelve
/// digits are then the same.
pub proof fn lemma_kz_iin_completed(body: Seq<u8>)
    requires
        body.len() == 11,
        all_digits(body),
        kz_control(body) != 10,
        !all_same(body.push(digit_byte(kz_control(body)))),
    ensures
        is_kz_iin(body.push(digit_byte(kz_control(body)))),
{
    let s = body.push(digit_byte(kz_control(body)));
    lemma_weighted_sum_reads_prefix(body, s, kz_weights_first(), 11);
    lemma_weighted_sum_reads_prefix(body, s, kz_weights_second(), 11);
    assert forall|k: int| 0 <= k < s.len() implies is_digit(#[trigger] s[k]) by {
        if k < 11 {
            assert(s[k] == body[k]);
        }
    }
}

/// Changing one digit changes a weighted sum by the change of the digit
/// times the weight at its place.
pub proof fn lemma_weighted_sum_of_changed_digit(
    s: Seq<u8>,
    weights: Seq<int>,
    n: int,
    i: int,
    v: u8,
)
    requires
        0 <= i < n <= s.len(),
    ensures
        weighted_sum(s.update(i, v), weights, n) == weighted_sum(s, weights, n) + (digit_value(v)
            - digit_value(s[i])) * weights[i],
    decreases n,
{
    let t = s.update(i, v);
    if i == n - 1 {
        lemma_weighted_sum_reads_prefix(s, t, weights, n - 1);
        let w = weights[i];
        let a = digit_value(v);
        let b = digit_value(s[i]);
        assert((a - b) * w == a * w - b * w) by (nonlinear_arith);
    } else {
        lemma_weighted_sum_of_changed_digit(s, weights, n - 1, i, v);
    }
}

/// A change of a digit, under a weight from 1 to 10, moves the sum to
/// another remainder modulo 11.
pub proof fn lemma_changed_digit_moves_remainder(sum: int, change: int, weight: int)
    requires
        1 <= weight <= 10,
        -9 <= change <= 9,
        change != 0,
    ensures
        (sum + change * weight) % 11 != sum % 11,
{
    let moved = change * weight;
    assert(moved % 11 != 0) by {
        if weight == 1 {
            assert(moved == change);
        } else if weight == 2 {
            assert(moved == 2 * change);
        } else if weight == 3 {
            assert(moved == 3 * change);
        } else if weight == 4 {
            assert(moved == 4 * change);
        } else if weight == 5 {
            assert(moved == 5 * change);
        } else if weight == 6 {
            assert(moved == 6 * change);
        } else if weight == 7 {
            assert(moved == 7 * change);
        } else if weight == 8 {
            assert(moved == 8 * change);
        } else if weight == 9 {
            assert(moved == 9 * change);
        } else {
            assert(moved == 10 * change);
        }
    }
}

/// Two remainders modulo 11 that differ give the same check digit only
/// where one is 0 and the other 10.
pub open spec fn check_digits_collide(first: int, second: int) -> bool {
    (first % 11 == 0 && second % 11 == 10) || (first % 11 == 10 && second % 11 == 0)
}

/// One digit of a valid number of a legal entity is changed. A changed
/// check digit makes the number invalid. A change among the nine digits
/// before it moves their sum to another remainder modulo 11, so that the
/// number stays valid only where the two remainders are 0 and 10, which
/// share the check digit 0.
pub proof fn lemma_inn_legal_entity_changed_digit(s: Seq<u8>, i: int, v: u8)
    requires
        is_ru_inn_legal_entity(s),
        0 <= i < 10,
        is_digit(v),
        v != s[i],
    ensures
        i == 9 ==> !is_ru_inn_legal_entity(s.update(i, v)),
        i < 9 ==> weighted_sum(s.update(i, v), inn_legal_entity_weights(), 9) % 11 != weighted_sum(
            s,
            inn_legal_entity_weights(),
            9,
        ) % 11,
        is_ru_inn_legal_entity(s.update(i, v)) ==> i < 9 && check_digits_collide(
            weighted_sum(s, inn_legal_entity_weights(), 9),
            weighted_sum(s.update(i, v), inn_legal_entity_weights(), 9),
        ),
{
    let t = s.update(i, v);
    let w = inn_legal_entity_weights();
    assert(is_digit(s[i]));
    if i == 9 {
        lemma_weighted_sum_reads_prefix(s, t, w, 9);
    } else {
        lemma_weighted_sum_of_changed_digit(s, w, 9, i, v);
        assert(1 <= w[i] <= 10);
        lemma_changed_digit_moves_remainder(
            weighted_sum(s, w, 9),
            digit_value(v) - digit_value(s[i]),
            w[i],
        );
    }
}

/// One digit of a valid number of an individual is changed. A changed check
/// digit makes the number invalid. A change among the ten digits before
/// them moves both sums to other remainders modulo 11, so that the number
/// stays valid only where, for each check digit, the two remainders are 0
/// and 10.
pub proof fn lemma_inn_individual_changed_digit(s: Seq<u8>, i: int, v: u8)
    requires
        is_ru_inn_individual(s),
        0 <= i < 12,
        is_digit(v),
        v != s[i],
    ensures
        i >= 10 ==> !is_ru_inn_individual(s.update(i, v)),
        i < 10 ==> weighted_sum(s.update(i, v), inn_individual_weights_first(), 11) % 11
            != weighted_sum(s, inn_individual_weights_first(), 11) % 11,
        i < 10 ==> weighted_sum(s.update(i, v), inn_individual_weights_second(), 11) % 11
            != weighted_sum(s, inn_individual_weights_second(), 11) % 11,
        is_ru_inn_individual(s.update(i, v)) ==> i < 10 && check_digits_collide(
            weighted_sum(s, inn_individual_weights_first(), 11),
            weighted_sum(s.update(i, v), inn_individual_weights_first(), 11),
        ) && check_digits_collide(
            weighted_sum(s, inn_individual_weights_second(), 11),
            weighted_sum(s.update(i, v), inn_individual_weights_second(), 11),
        ),
{
    let t = s.update(i, v);
    let w1 = inn_individual_weights_first();
    let w2 = inn_individual_weights_second();
    assert(is_digit(s[i]));
    if i == 11 {
        lemma_weighted_sum_reads_prefix(s, t, w1, 11);
        lemma_weighted_sum_reads_prefix(s, t, w2, 11);
    } else {
        lemma_weighted_sum_of_changed_digit(s, w1, 11, i, v);
        lemma_weighted_sum_of_changed_digit(s, w2, 11, i, v);
        let change = digit_value(v) - digit_value(s[i]);
        assert(1 <= w2[i] <= 10);
        if i == 10 {
            assert(w1[10] == 0);
            assert(change * w1[10] == 0) by (nonlinear_arith)
                requires
                    w1[10] == 0,
            ;
        } else {
            assert(1 <= w1[i] <= 10);
            lemma_changed_digit_moves_remainder(weighted_sum(s, w1, 11), change, w1[i]);
            lemma_changed_digit_moves_remainder(weighted_sum(s, w2, 11), change, w2[i]);
        }
    }
}

/// One digit of a valid identification number is changed. A changed check
/// digit makes the number invalid. A change among the first ten digits
/// moves the control value of the first pass, so that the number stays
/// valid only where that value is 10 before or after the change and the
/// second pass decides. The eleventh digit has the weight 11 in the first
/// pass and does not count there: where the first pass decides, the number
/// stays valid whatever stands at that place, unless all twelve digits are
/// then the same.
pub proof fn lemma_kz_iin_changed_digit(s: Seq<u8>, i: int, v: u8)
    requires
        is_kz_iin(s),
        0 <= i < 12,
        is_digit(v),
        v != s[i],
    ensures
        i == 11 ==> !is_kz_iin(s.update(i, v)),
        i < 10 ==> kz_control_first(s.update(i, v)) != kz_control_first(s),
        is_kz_iin(s.update(i, v)) ==> i == 10 || (i < 10 && (kz_control_first(s) == 10
            || kz_control_first(s.update(i, v)) == 10)),
        i == 10 && kz_control_first(s) != 10 && !all_same(s.update(i, v)) ==> is_kz_iin(
            s.update(i, v),
        ),
{
    let t = s.update(i, v);
    let w1 = kz_weights_first();
    assert(is_digit(s[i]));
    assert forall|k: int| 0 <= k < t.len() implies is_digit(#[trigger] t[k]) by {
        if k != i {
            assert(is_digit(s[k]));
        }
    }
    if i == 11 {
        lemma_weighted_sum_reads_prefix(s, t, w1, 11);
        lemma_weighted_sum_reads_prefix(s, t, kz_weights_second(), 11);
    } else {
        lemma_weighted_sum_of_changed_digit(s, w1, 11, i, v);
        let change = digit_value(v) - digit_value(s[i]);
        assert(w1[i] == i + 1);
        if i == 10 {
            assert(change * w1[i] == 11 * change) by (nonlinear_arith)
                requires
                    w1[i] == 11,
            ;
        } else {
            lemma_changed_digit_moves_remainder(weighted_sum(s, w1, 11), change, w1[i]);
        }
    }
}

} // verus!
