use json_schema_1c::formats::{
    active_formats, catalog, is_leap_year, is_valid_date, is_valid_time, kz_iin, local_date_time,
    parse_four_digits, parse_two_digits, ru_inn_individual, ru_inn_legal_entity, uuid, Format,
};

fn check_inn(inn_list: &[&str], is_individual: bool, expected: bool) {
    for inn in inn_list {
        if is_individual {
            assert_eq!(
                ru_inn_individual(inn),
                expected,
                "Valid INN individual test failed for: {inn}"
            );
        } else {
            assert_eq!(
                ru_inn_legal_entity(inn),
                expected,
                "Valid INN legal entity test failed for: {inn}"
            );
        }
    }
}

#[test]
fn invalid_inn_individual() {
    check_inn(
        &[
            "123",
            "123123123123",
            "589522892248",
            "793532525660",
            "617949621244",
            "82397966847",
            "AAAAAAAAAAA",
            "000000000000",
        ],
        true,
        false,
    );
}

#[test]
fn valid_inn_individual() {
    check_inn(
        &[
            "197715976499",
            "101514237669",
            "589522894248",
            "793332525660",
            "617049621244",
            "803197966847",
            "088637982022",
            "620147653223",
            "355447087280",
            "576389730766",
            "442441540930",
            "876208969909",
            "640197925700",
        ],
        true,
        true,
    );
}

#[test]
fn invalid_inn_legal_entity() {
    check_inn(
        &[
            "123",
            "351A9150290",
            "4069583041",
            "9999999999",
            "0000000000",
            "ABCDEFGSDE",
        ],
        false,
        false,
    );
}

#[test]
fn valid_inn_legal_entity() {
    check_inn(
        &[
            "6830692790",
            "7406096779",
            "0293525855",
            "2594070450",
            "5090465656",
            "7256456123",
            "8533645462",
            "8092765562",
            "0356662222",
            "2827189807",
            "8346948900",
            "8976890865",
            "6616124526",
        ],
        false,
        true,
    );
}

#[test]
fn valid_kz_iin() {
    let inn = [
        "181228500010",
        "730703400015",
        "170624600015",
        "910701300010",
        "840101400014",
        "730812300016",
        "150109600011",
    ];

    for el in inn {
        assert!(kz_iin(el));
    }
}

#[test]
fn invalid_kz_iin() {
    let inn = ["123", "842101400014", "150105600011"];
    for el in inn {
        assert!(!kz_iin(el));
    }
}

#[test]
fn local_date_time_valid() {
    let datetime_list = [
        "2023-10-05T14:30:00",
        "2000-02-29T23:59:59.999",
        "1999-12-31T00:00:00",
        "2024-02-29T12:00:00", // Leap year
    ];

    for datetime in datetime_list {
        assert!(
            local_date_time(datetime),
            "Valid local date-time test failed for: {datetime}"
        );
    }
}

#[test]
fn wrong_length_is_refused_by_every_format() {
    assert!(!ru_inn_individual(""));
    assert!(!ru_inn_individual("19771597649"));
    assert!(!ru_inn_individual("1977159764990"));
    assert!(!ru_inn_legal_entity(""));
    assert!(!ru_inn_legal_entity("683069279"));
    assert!(!ru_inn_legal_entity("68306927900"));
    assert!(!kz_iin(""));
    assert!(!kz_iin("18122850001"));
    assert!(!kz_iin("1812285000100"));
    assert!(!local_date_time(""));
    assert!(!local_date_time("2023-10-05T14:30:0"));
    assert!(!local_date_time("2023-10-05T14:30:00."));
    assert!(!uuid(""));
    assert!(!uuid("123e4567-e89b-12d3-a456-42661417400"));
    assert!(!uuid("123e4567-e89b-12d3-a456-4266141740000"));
}

#[test]
fn non_ascii_input_is_refused() {
    assert!(!ru_inn_individual("ЯЯЯЯЯЯ"));
    assert!(!ru_inn_legal_entity("ЯЯЯЯЯ"));
    assert!(!kz_iin("ЯЯЯЯЯЯ"));
    assert!(!kz_iin("€€€€"));
    assert!(!local_date_time("2023-10-05T14:30:0０"));
    assert!(!uuid("123e4567-e89b-12d3-a456-4266141740ЯЯ"));
}

#[test]
fn computed_check_digits_are_accepted() {
    // first check digit 2, second check digit 5... computed by the weights
    assert!(ru_inn_individual("500100732259"));
    assert!(ru_inn_legal_entity("7707083893"));
    // first pass gives 10, second pass gives 9
    assert!(kz_iin("039428971519"));
}

fn inn_individual_check_digits(body: &[u32; 10]) -> (u32, u32) {
    let w1 = [7, 2, 4, 10, 3, 5, 9, 4, 6, 8];
    let w2 = [3, 7, 2, 4, 10, 3, 5, 9, 4, 6, 8];
    let mut first = 0;
    for i in 0..10 {
        first += body[i] * w1[i];
    }
    let first = first % 11 % 10;
    let mut second = 0;
    for i in 0..10 {
        second += body[i] * w2[i];
    }
    second += first * w2[10];
    (first, second % 11 % 10)
}

#[test]
fn generated_numbers_with_their_check_digits_are_accepted() {
    let mut seed: u32 = 12345;
    for _ in 0..500 {
        let mut body = [0u32; 10];
        for digit in body.iter_mut() {
            seed = seed.wrapping_mul(1103515245).wrapping_add(12345);
            *digit = (seed >> 16) % 10;
        }
        if body[0] == 0 && body[1] == 0 {
            body[0] = 1;
        }
        let (first, second) = inn_individual_check_digits(&body);
        let mut text = String::new();
        for digit in body {
            text.push_str(&digit.to_string());
        }
        text.push_str(&first.to_string());
        text.push_str(&second.to_string());
        assert!(ru_inn_individual(&text), "{text}");

        let w = [2, 4, 10, 3, 5, 9, 4, 6, 8];
        let mut sum = 0;
        for i in 0..9 {
            sum += body[i] * w[i];
        }
        let mut legal = String::new();
        for digit in &body[..9] {
            legal.push_str(&digit.to_string());
        }
        legal.push_str(&(sum % 11 % 10).to_string());
        assert!(ru_inn_legal_entity(&legal), "{legal}");
    }
}

#[test]
fn changed_check_digit_is_refused() {
    for wrong in ["197715976490", "197715976409", "6830692791", "181228500011"] {
        assert!(!ru_inn_individual(wrong));
        assert!(!ru_inn_legal_entity(wrong));
        assert!(!kz_iin(wrong));
    }
}

#[test]
fn kz_iin_without_a_check_digit_is_refused() {
    for body in ["06870986119", "77680075310", "77991951430"] {
        for last in 0..10 {
            let text = format!("{body}{last}");
            assert!(!kz_iin(&text), "{text}");
        }
    }
}

#[test]
fn kz_iin_of_one_repeated_digit_is_refused() {
    for digit in 0..10 {
        let text = digit.to_string().repeat(12);
        assert!(!kz_iin(&text), "{text}");
    }
}

#[test]
fn local_date_time_edge_cases() {
    assert!(!local_date_time("2023-02-30T00:00:00"));
    assert!(!local_date_time("2023-10-05 14:30:00"));
    assert!(!local_date_time("2023-10-05T00:00:00."));
    assert!(local_date_time("2023-10-05T00:00:00.5"));
    assert!(local_date_time("2023-10-05t00:00:00"));
    assert!(!local_date_time("2023-10-05T00:00:00Z"));
    assert!(!local_date_time("2023-10-05T00:00:00.5Z"));
    assert!(!local_date_time("2023-10-05T00:00:00+03:00"));
    assert!(!local_date_time("2023-10-05T24:00:00"));
    assert!(!local_date_time("2023-10-05T23:60:00"));
    assert!(!local_date_time("2023-10-05T23:59:60"));
    assert!(!local_date_time("2023-13-05T00:00:00"));
    assert!(!local_date_time("2023-00-05T00:00:00"));
    assert!(!local_date_time("2023-10-00T00:00:00"));
    assert!(!local_date_time("2023-04-31T00:00:00"));
    assert!(!local_date_time("2023-02-29T00:00:00"));
    assert!(!local_date_time("1900-02-29T00:00:00"));
    assert!(local_date_time("2000-02-29T00:00:00"));
    assert!(!local_date_time("2023/10/05T00:00:00"));
    assert!(!local_date_time("2023-10-05T00-00-00"));
    assert!(!local_date_time("T00:00:00"));
    assert!(!local_date_time("2023-10-05T"));
    assert!(!local_date_time("2023-10-05TT00:00:00"));
}

#[test]
fn bytes_next_to_the_digits_are_no_digits() {
    assert!(!local_date_time("2023-0:-05T00:00:00"));
    assert!(!local_date_time("202/-10-05T00:00:00"));
    assert!(!local_date_time("2023-10-05T0:?00:00"));
    assert_eq!(parse_two_digits(b"0:"), None);
    assert_eq!(parse_two_digits(b"/0"), None);
    assert_eq!(parse_four_digits(b"12:4"), None);
}

#[test]
fn every_date_of_sampled_years_is_accepted() {
    let years = [1u32, 4, 100, 400, 1600, 1900, 1999, 2000, 2023, 2024, 2100, 9996, 9999];
    for year in years {
        let leap = (year % 4 == 0 && year % 100 != 0) || year % 400 == 0;
        assert_eq!(is_leap_year(year as u16), leap);
        for month in 1..=12u32 {
            let days = match month {
                2 => {
                    if leap {
                        29
                    } else {
                        28
                    }
                }
                4 | 6 | 9 | 11 => 30,
                _ => 31,
            };
            for day in 1..=31u32 {
                let text = format!("{year:04}-{month:02}-{day:02}T12:34:56");
                assert_eq!(local_date_time(&text), day <= days, "{text}");
                let date = format!("{year:04}-{month:02}-{day:02}");
                assert_eq!(is_valid_date(&date), day <= days, "{date}");
            }
        }
    }
}

#[test]
fn every_time_of_day_is_accepted() {
    for hour in 0..24 {
        for minute in 0..60 {
            for second in 0..60 {
                let time = format!("{hour:02}:{minute:02}:{second:02}");
                assert!(is_valid_time(&time), "{time}");
            }
        }
    }
    assert!(is_valid_time("23:59:59.123456789"));
    assert!(!is_valid_time("23:59:59."));
    assert!(!is_valid_time("23:59:59.1a"));
    assert!(!is_valid_time("23:59"));
    assert!(!is_valid_time("235959"));
}

#[test]
fn digits_are_decoded() {
    assert_eq!(parse_two_digits(b"00"), Some(0));
    assert_eq!(parse_two_digits(b"07"), Some(7));
    assert_eq!(parse_two_digits(b"99"), Some(99));
    assert_eq!(parse_two_digits(b"423"), Some(42));
    assert_eq!(parse_two_digits(b"4a"), None);
    assert_eq!(parse_two_digits(b" 4"), None);
    assert_eq!(parse_four_digits(b"0000"), Some(0));
    assert_eq!(parse_four_digits(b"2024"), Some(2024));
    assert_eq!(parse_four_digits(b"9999"), Some(9999));
    assert_eq!(parse_four_digits(b"20x4"), None);
    assert_eq!(parse_four_digits(b"-024"), None);
}

#[test]
fn leap_years() {
    assert!(is_leap_year(2024));
    assert!(is_leap_year(2000));
    assert!(is_leap_year(0));
    assert!(!is_leap_year(1900));
    assert!(!is_leap_year(2023));
    assert!(!is_leap_year(2100));
}

#[test]
fn uuid_in_canonical_text() {
    assert!(uuid("123e4567-e89b-12d3-a456-426614174000"));
    assert!(uuid("123E4567-E89B-12D3-A456-426614174000"));
    assert!(uuid("00000000-0000-0000-0000-000000000000"));
    assert!(uuid("ffffffff-ffff-ffff-ffff-ffffffffffff"));
    assert!(!uuid("123e4567e89b12d3a456426614174000"));
    assert!(!uuid("123e4567-e89b-12d3-a456-42661417400g"));
    assert!(!uuid("123e4567-e89b-12d3-a456_426614174000"));
    assert!(!uuid("123e4567-e89b-12d3a-456-426614174000"));
    assert!(!uuid("{123e4567-e89b-12d3-a456-426614174000}"));
    assert!(!uuid("123e4567-e89b-12d3-a456-4266141740-0"));
}

#[test]
fn catalog_has_every_format_once() {
    let formats = catalog();
    assert_eq!(
        formats,
        vec![
            Format::RuInnIndividual,
            Format::RuInnLegalEntity,
            Format::KzIin,
            Format::LocalDateTime,
            Format::Uuid,
        ]
    );
    let names: Vec<&str> = formats.iter().map(|format| format.name()).collect();
    assert_eq!(
        names,
        vec!["ru-inn-individual", "ru-inn-legal-entity", "kz-iin", "local-date-time", "uuid"]
    );
    for (i, a) in names.iter().enumerate() {
        for (j, b) in names.iter().enumerate() {
            assert_eq!(a == b, i == j);
        }
    }
}

#[test]
fn catalog_is_switched_as_a_whole() {
    assert_eq!(active_formats(true), catalog());
    assert_eq!(active_formats(false), vec![]);
}

#[test]
fn a_format_checks_by_its_own_predicate() {
    assert!(Format::RuInnIndividual.check("197715976499"));
    assert!(!Format::RuInnIndividual.check("6830692790"));
    assert!(Format::RuInnLegalEntity.check("6830692790"));
    assert!(!Format::RuInnLegalEntity.check("197715976499"));
    assert!(Format::KzIin.check("181228500010"));
    assert!(!Format::KzIin.check("197715976499"));
    assert!(Format::LocalDateTime.check("2023-10-05T14:30:00"));
    assert!(!Format::LocalDateTime.check("181228500010"));
    assert!(Format::Uuid.check("123e4567-e89b-12d3-a456-426614174000"));
    assert!(!Format::Uuid.check("2023-10-05T14:30:00"));
}

fn weighted(text: &str, weights: &[u32]) -> u32 {
    text.bytes().zip(weights).map(|(b, w)| (b - b'0') as u32 * w).sum()
}

#[test]
fn one_changed_digit_is_refused_but_for_a_collision() {
    let weights = [2, 4, 10, 3, 5, 9, 4, 6, 8];
    for valid in ["6830692790", "7406096779", "8346948900", "6616124526"] {
        let before = weighted(valid, &weights) % 11;
        for place in 0..10 {
            for digit in b'0'..=b'9' {
                let mut bytes = valid.as_bytes().to_vec();
                if bytes[place] == digit {
                    continue;
                }
                bytes[place] = digit;
                let changed = String::from_utf8(bytes).unwrap();
                let after = weighted(&changed, &weights) % 11;
                if place == 9 {
                    assert!(!ru_inn_legal_entity(&changed), "{changed}");
                } else {
                    assert_ne!(before, after, "{changed}");
                    let collide = (before == 0 && after == 10) || (before == 10 && after == 0);
                    let starts_with_zeros = changed.starts_with("00");
                    assert_eq!(
                        ru_inn_legal_entity(&changed),
                        collide && !starts_with_zeros,
                        "{changed}"
                    );
                }
            }
        }
    }
}

#[test]
fn changed_check_digits_of_an_individual_are_refused() {
    for valid in ["197715976499", "101514237669", "640197925700"] {
        for place in 10..12 {
            for digit in b'0'..=b'9' {
                let mut bytes = valid.as_bytes().to_vec();
                if bytes[place] == digit {
                    continue;
                }
                bytes[place] = digit;
                let changed = String::from_utf8(bytes).unwrap();
                assert!(!ru_inn_individual(&changed), "{changed}");
            }
        }
    }
}

#[test]
fn eleventh_digit_of_kz_iin_does_not_count_in_the_first_pass() {
    // the first pass decides for this number, and the eleventh digit has the weight 11
    assert!(kz_iin("181228500010"));
    for digit in 0..10 {
        let changed = format!("1812285000{digit}0");
        assert!(kz_iin(&changed), "{changed}");
    }
    for digit in 1..10 {
        let changed = format!("18122850001{digit}");
        assert!(!kz_iin(&changed), "{changed}");
    }
}
