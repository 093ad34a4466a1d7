use base64::engine::general_purpose::STANDARD;
use base64::Engine;
use haruka::calendar::{
    date_to_text, from_ymd, month_day_to_text, parse_day, parse_minute, parts, time_to_text,
    year_month_to_text, Date, DateTime,
};
use haruka::crypto::{
    decrypt, decrypt_cents, decrypt_string, derive_kek, derive_key, derive_recovery_kek, encrypt,
    encrypt_cents, encrypt_string, encrypt_under, generate_recovery_mnemonic, is_sealable,
    parse_recovery_mnemonic, random_bytes, unwrap_dek, wrap_dek,
};
use haruka::decimal::{
    decimal_to_text, divide_half_even, fmt_cents, keep_cents, normalize, parse_hundredths,
    parse_money, round_dp, to_i64, whole, Dec,
};
use haruka::error::{arithmetic_overflow, bad_request, err500, not_found, text_too_long, Status};
use haruka::filter::combine;
use haruka::order::{arrange, sort_descending, take_page};
use haruka::ranking::{chart_series, ordered_chart_series, percentage, ranking_rows, Group};
use haruka::tally::Tally;
use haruka::text::{
    ascii_lowercase, before, ends_with, hex, int_to_text, is_white, join5, keep_digits,
    nat_to_text, parse_i32, parse_i64, parse_u16, parse_u32, parse_u64, same, split,
    strip_front,
};

const DEK: [u8; 32] = [7u8; 32];

fn day(year: i32, month: u32, day: u32) -> Date {
    from_ymd(year, month, day).unwrap()
}

#[test]
fn integers_are_read_and_written() {
    assert_eq!(parse_i64("-9223372036854775808"), Some(i64::MIN));
    assert_eq!(parse_i64("9223372036854775808"), None);
    assert_eq!(parse_i64("+7"), Some(7));
    assert_eq!(parse_i64(""), None);
    assert_eq!(parse_i64("-"), None);
    assert_eq!(parse_i32("2147483648"), None);
    assert_eq!(parse_u64("18446744073709551615"), Some(u64::MAX));
    assert_eq!(parse_u32("4294967296"), None);
    assert_eq!(parse_u16("65535"), Some(65535));
    assert_eq!(parse_u16("-1"), None);
    assert_eq!(int_to_text(i64::MIN), "-9223372036854775808");
    assert_eq!(nat_to_text(0), "0");
    for n in [0i64, 1, -1, 10, 99, 1234567890, i64::MAX, i64::MIN] {
        assert_eq!(parse_i64(&int_to_text(n)), Some(n));
    }
}

#[test]
fn texts_are_taken_apart() {
    assert!(is_white('\u{3000}') && is_white('\t') && !is_white('x'));
    assert!(same("账", "账") && !same("账", "单"));
    assert_eq!(join5("a", "b", "c", "d", "e"), "abcde");
    assert_eq!(split("a;b;;", ';'), vec!["a", "b", "", ""]);
    assert_eq!(split("", ';'), vec![""]);
    assert!(before("a", "b") && before("a", "ab") && !before("b", "ab"));
    assert_eq!(hex(&[0, 15, 171, 255]), "000fabff");
    assert_eq!(ascii_lowercase("ABC账Z"), "abc账z");
    assert!(ends_with("62221234", "1234") && !ends_with("123", "1234"));
    assert_eq!(strip_front("Bearer x", "Bearer ").unwrap(), "x");
    assert!(strip_front("bearer x", "Bearer ").is_none());
    assert_eq!(keep_digits("6222 0a1٣"), "622201");
}

#[test]
fn decimals_round_half_to_even() {
    assert_eq!(divide_half_even(25, 10), 2);
    assert_eq!(divide_half_even(35, 10), 4);
    assert_eq!(divide_half_even(-25, 10), -2);
    assert_eq!(round_dp(Dec { mantissa: 12345, scale: 3 }, 2), Dec { mantissa: 1234, scale: 2 });
    assert_eq!(round_dp(Dec { mantissa: 12355, scale: 3 }, 2), Dec { mantissa: 1236, scale: 2 });
    assert_eq!(to_i64(Dec { mantissa: 1999, scale: 2 }), Some(20));
    assert_eq!(to_i64(Dec { mantissa: 25, scale: 1 }), Some(2));
    assert_eq!(to_i64(Dec { mantissa: i64::MAX as i128 + 1, scale: 0 }), None);
    assert_eq!(decimal_to_text(Dec { mantissa: -5, scale: 2 }), "-0.05");
    assert_eq!(decimal_to_text(normalize(Dec { mantissa: 12300, scale: 3 })), "12.3");
    assert_eq!(decimal_to_text(whole(42)), "42");
    assert_eq!(fmt_cents(-123456), "-1234.56");
    assert_eq!(fmt_cents(5), "0.05");
    assert_eq!(parse_hundredths(" 12.345 "), Some(1234));
    assert_eq!(parse_hundredths("12.355"), Some(1236));
    assert_eq!(parse_hundredths("1 2"), None);
}

#[test]
fn money_is_refused_for_each_reason() {
    let read = |text: &str| parse_money(text, 1, "malformed", "small", "large");
    assert_eq!(read("0.01").unwrap(), 1);
    assert_eq!(read("92233720368547758.07").unwrap(), i64::MAX);
    assert_eq!(read("x").unwrap_err().message, "malformed");
    assert_eq!(read("0.001").unwrap_err().message, "small");
    assert_eq!(read("92233720368547758.08").unwrap_err().message, "large");
    let huge = read("79228162514264337593543950335").unwrap_err();
    assert_eq!((huge.status, huge.message.as_str()), (Status::Internal, "金额计算超出范围"));
    assert_eq!(keep_cents(5, "large").unwrap(), 5);
}

#[test]
fn refusals_have_their_classes() {
    assert_eq!(bad_request("a").status, Status::BadRequest);
    assert_eq!(not_found("a").status, Status::NotFound);
    assert_eq!(err500("a").status, Status::Internal);
    assert_eq!(arithmetic_overflow().message, "金额计算超出范围");
    assert_eq!(text_too_long().message, "内容过长，无法加密");
}

#[test]
fn days_follow_the_calendar() {
    assert_eq!(day(1, 1, 1).days, 1);
    assert_eq!(day(1970, 1, 1).days, 719163);
    assert_eq!(parts(day(2024, 2, 29)), (2024, 2, 29));
    assert!(from_ymd(2023, 2, 29).is_none());
    assert_eq!(day(2026, 9, 15).weekday(), 1);
    assert_eq!(day(2024, 1, 31).add_months(1).unwrap(), day(2024, 2, 29));
    assert_eq!(day(2024, 12, 31).add_days(1).unwrap(), day(2025, 1, 1));
    assert!(day(2024, 1, 1).before(day(2024, 1, 2)));
    assert_eq!(date_to_text(day(2026, 3, 4)), "2026-03-04");
    assert_eq!(date_to_text(day(12000, 1, 1)), "+12000-01-01");
    assert_eq!(month_day_to_text(day(2026, 3, 4)), "03-04");
    assert_eq!(year_month_to_text(day(2026, 3, 4)), "2026-03");
    assert_eq!(parse_day(" 2026-03-04 "), Some(day(2026, 3, 4)));
    assert_eq!(parse_day("2026-13-04"), None);
    let time = parse_minute("2026-03-04T05:06").unwrap();
    assert_eq!(time, DateTime { date: day(2026, 3, 4), second: 18360, nano: 0 });
    assert_eq!(time_to_text(time), "2026-03-04T05:06");
    assert_eq!(time.hour(), 5);
    assert!(parse_minute("2026-03-04 05:06").is_none());
    let later = time.add_days(7).unwrap();
    assert!(time.before(later) && time.sort_key() < later.sort_key());
    assert_eq!(time.add_months(1).unwrap().date, day(2026, 4, 4));
}

#[test]
fn every_day_of_some_years_has_its_parts() {
    let mut date = day(1999, 12, 31);
    while date.days < day(2001, 1, 2).days {
        let (y, m, d) = parts(date);
        assert_eq!(from_ymd(y, m, d), Some(date));
        date = date.add_days(1).unwrap();
    }
}

#[test]
fn what_is_encrypted_is_decrypted() {
    let first = encrypt_string(&DEK, "秘密");
    let second = encrypt_string(&DEK, "秘密");
    assert_ne!(first, second);
    assert_ne!(first, "秘密");
    assert_eq!(decrypt_string(&DEK, &first), "秘密");
    assert_eq!(decrypt_string(&[8u8; 32], &first), "");
    assert_eq!(decrypt_string(&DEK, "no base64!"), "");
    for cents in [0, 1, -1, i64::MAX, i64::MIN] {
        assert_eq!(decrypt_cents(&DEK, &encrypt_cents(&DEK, cents)), cents);
    }
    assert_eq!(decrypt_cents(&DEK, &encrypt_string(&DEK, "x")), 0);
    assert!(is_sealable("秘密"));
    let blob = encrypt(&DEK, &[1, 2, 3]);
    assert_eq!(decrypt(&DEK, &blob), Some(vec![1, 2, 3]));
    assert_eq!(decrypt(&DEK, "AAAA"), None);
    assert_eq!(STANDARD.decode(&blob).unwrap().len(), 24 + 3 + 16);
    let under = encrypt_under(&DEK, &[1u8; 24], &[1, 2, 3]);
    let stored = STANDARD.decode(&under).unwrap();
    assert_eq!((stored.len(), &stored[..24]), (24 + 3 + 16, &[1u8; 24][..]));
    assert_ne!(&stored[24..27], &[1, 2, 3]);
    assert_eq!(under, encrypt_under(&DEK, &[1u8; 24], &[1, 2, 3]));
    assert_ne!(under, encrypt_under(&DEK, &[2u8; 24], &[1, 2, 3]));
    assert_eq!(decrypt(&DEK, &under), Some(vec![1, 2, 3]));
    assert_eq!(decrypt(&[8u8; 32], &under), None);
    for at in 0..stored.len() {
        let mut altered = stored.clone();
        altered[at] ^= 1;
        assert_eq!(decrypt(&DEK, &STANDARD.encode(&altered)), None);
    }
    assert_eq!(decrypt(&DEK, &STANDARD.encode(&stored[..39])), None);
}

#[test]
fn data_keys_are_wrapped_and_unwrapped() {
    let salt: [u8; 16] = random_bytes::<16>();
    let kek = derive_kek("correct horse", &salt);
    assert_eq!(kek, derive_key("correct horse".as_bytes(), &salt));
    assert_ne!(kek, derive_kek("correct horsf", &salt));
    let (nonce, wrapped) = wrap_dek(&DEK, &kek);
    assert_eq!(unwrap_dek(&nonce, &wrapped, &kek), Some(DEK));
    assert_eq!(unwrap_dek(&nonce, &wrapped, &[0u8; 32]), None);
    assert_ne!(random_bytes::<32>(), random_bytes::<32>());
}

#[test]
fn recovery_phrases_give_their_keys() {
    let mnemonic = generate_recovery_mnemonic();
    let words: Vec<&str> = mnemonic.phrase.split(' ').collect();
    assert_eq!(words.len(), 12);
    let untidy = format!("  {}\n", words.join("   ").to_uppercase());
    let parsed = parse_recovery_mnemonic(&untidy).unwrap();
    assert_eq!(parsed.phrase, mnemonic.phrase);
    assert_eq!(derive_recovery_kek(&parsed), derive_recovery_kek(&mnemonic));
    assert!(derive_recovery_kek(&mnemonic).is_some());
    assert!(parse_recovery_mnemonic("not a phrase").is_none());
    let known = "abandon abandon abandon abandon abandon abandon abandon abandon abandon abandon \
                 abandon about";
    assert!(parse_recovery_mnemonic(known).is_some());
}

#[test]
fn conditions_combine() {
    assert!(combine(&vec![None, None], false));
    assert!(combine(&vec![None, None], true));
    assert!(combine(&vec![Some(true), None, Some(true)], false));
    assert!(!combine(&vec![Some(true), Some(false)], false));
    assert!(combine(&vec![Some(true), Some(false)], true));
    assert!(!combine(&vec![Some(false)], true));
}

#[test]
fn lists_are_ordered_and_paged() {
    assert_eq!(sort_descending(&vec![1, 3, 2, 3]), vec![1, 3, 2, 0]);
    assert_eq!(arrange(vec!["a", "b", "c"], &vec![1, 3, 2]), vec!["b", "c", "a"]);
    assert_eq!(take_page(vec![1, 2, 3, 4, 5], 2, 2), vec![3, 4]);
    assert_eq!(take_page(vec![1, 2, 3], 5, 2), Vec::<i32>::new());
    let pages: Vec<i32> =
        (0..3).flat_map(|k| take_page(vec![1, 2, 3, 4, 5], k * 2, 2)).collect();
    assert_eq!(pages, vec![1, 2, 3, 4, 5]);
}

#[test]
fn tallies_add_up() {
    let mut tally = Tally::new();
    assert!(tally.add(5, 10) && tally.add(5, -3) && tally.add(6, 1));
    assert_eq!((tally.get(5), tally.get(6), tally.get(7)), (7, 1, 0));
    tally.set(5, i64::MAX);
    assert!(!tally.add(5, 1));
}

#[test]
fn rankings_have_the_largest_first() {
    let group = |name: &str, amount: i64, count: usize| Group {
        name: name.to_owned(),
        amount,
        count,
    };
    let groups = vec![group("b", 25, 1), group("a", 50, 2), group("c", 25, 3)];
    let chart = chart_series(&groups);
    assert_eq!(chart.labels[0], "a");
    assert_eq!(chart.values[0], 50);
    let labels = vec!["c".to_owned(), "x".to_owned()];
    let ordered = ordered_chart_series(labels, &groups);
    assert_eq!(ordered.values, vec![25, 0]);
    let rows = ranking_rows(groups, 100, "CNY").unwrap();
    assert_eq!(rows[0].name, "a");
    assert_eq!(rows[0].share, "50");
    assert_eq!(rows[0].amount, "CNY 0.50");
    assert_eq!((rows[1].name.as_str(), rows[2].name.as_str()), ("b", "c"));
    assert_eq!((rows[0].rank, rows[2].rank), (1, 3));
    assert_eq!(percentage(1, 3).unwrap(), "33.3");
    assert_eq!(percentage(1, 0).unwrap(), "0");
}
