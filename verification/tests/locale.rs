use personal_controller::calendar::{Date, TimeOfDay};
use personal_controller::freight_importer::FreightOrderImporter;
use personal_controller::locale::{
    date_from_captures, format_amount, is_negative, normalize_amount, parse_currency, parse_date,
    parse_int, parse_time, split_multi_value, time_from_captures,
};
use personal_controller::text::{contains, ends_with, is_whitespace, split_words, trim};
use personal_controller::timesheet_importer::TimesheetImporter;

#[test]
fn test_parse_date() {
    let importer = FreightOrderImporter::new();
    let date = importer.parse_date("01/04/2025");
    assert!(date.is_some());
    assert_eq!(date.unwrap().to_string(), "2025-04-01");
}

#[test]
fn test_parse_float() {
    let importer = FreightOrderImporter::new();
    assert_eq!(importer.parse_amount("R$ 1.234,56").parse::<f64>().unwrap_or(0.0), 1234.56);
    assert_eq!(importer.parse_amount("90").parse::<f64>().unwrap_or(0.0), 90.0);
    assert_eq!(importer.parse_amount("garbage").parse::<f64>().unwrap(), 0.0);
}

#[test]
fn currency_cells_that_hold_no_number_read_as_zero() {
    assert_eq!(parse_currency("R$ 1.234,56"), "1234.56");
    assert_eq!(parse_currency("90"), "90");
    assert_eq!(parse_currency("garbage"), "0");
    assert_eq!(parse_currency(""), "0");
    assert_eq!(parse_currency("R$"), "0");
    assert_eq!(parse_currency(","), "0");
    assert_eq!(parse_currency("-"), "0");
    assert_eq!(parse_currency("1,2,3"), "0");
    assert_eq!(parse_currency("12 34"), "0");
    assert_eq!(parse_currency("1e3"), "0");
    assert_eq!(parse_currency("R$ -12,50"), "-12.50");
    assert_eq!(parse_currency("+7"), "+7");
    assert_eq!(parse_currency(",5"), ".5");
    assert_eq!(parse_currency("5,"), "5.");
    assert_eq!(parse_currency(" 007 "), "007");
    // whatever reads as a number here reads as the same number as a float
    for cell in ["R$ 1.234,56", "90", ",5", "5,", "+7", "-12,50", "0,000", "-0"] {
        let text = parse_currency(cell);
        let chained = cell.replace("R$", "").replace(".", "").replace(",", ".");
        assert_eq!(text.parse::<f64>().ok(), chained.trim().parse::<f64>().ok(), "{cell:?}");
        assert_eq!(is_negative(&text), text.parse::<f64>().unwrap() < 0.0, "{cell:?}");
    }
    assert!(is_negative("-0.01"));
    assert!(is_negative("-1"));
    assert!(!is_negative("-0"));
    assert!(!is_negative("-0.00"));
    assert!(!is_negative("1"));
    assert!(!is_negative("-"));
    assert!(!is_negative("-1-"));
    assert!(!is_negative("-x1"));
    assert!(!is_negative(""));
}

#[test]
fn currency_cells_become_decimal_text() {
    assert_eq!(normalize_amount("R$ 1.234,56"), "1234.56");
    assert_eq!(normalize_amount("90"), "90");
    assert_eq!(normalize_amount("  R$R$ 12.000.000,5 "), "12000000.5");
    assert_eq!(normalize_amount("garbage"), "garbage");
    assert_eq!(normalize_amount("garbage").parse::<f64>().unwrap_or(0.0), 0.0);
    assert_eq!(normalize_amount(""), "");
    assert_eq!(normalize_amount("R"), "R");
    assert_eq!(normalize_amount("1,2,3"), "1.2.3");
}

#[test]
fn parse_date_reads_the_first_date_in_a_cell() {
    assert_eq!(parse_date("01/04/2025"), Some(Date { year: 2025, month: 4, day: 1 }));
    assert_eq!(parse_date("em 15/01/2025 10:00"), Some(Date { year: 2025, month: 1, day: 15 }));
    assert_eq!(parse_date("29/02/2024"), Some(Date { year: 2024, month: 2, day: 29 }));
    assert_eq!(parse_date("31/12/0000"), Some(Date { year: 0, month: 12, day: 31 }));
}

#[test]
fn parse_date_gives_none_for_what_is_no_date() {
    assert_eq!(parse_date("31/04/2025"), None);
    assert_eq!(parse_date("29/02/2025"), None);
    assert_eq!(parse_date("00/01/2025"), None);
    assert_eq!(parse_date("01/13/2025"), None);
    assert_eq!(parse_date("1/4/2025"), None);
    assert_eq!(parse_date("2025-04-01"), None);
    assert_eq!(parse_date(""), None);
    // the first place with the shape of a date decides
    assert_eq!(parse_date("99/99/9999 01/04/2025"), None);
}

#[test]
fn written_dates_read_back() {
    for (year, month, day) in [(2025, 4, 1), (1999, 12, 31), (2000, 2, 29), (1, 1, 1)] {
        let date = Date::from_ymd_opt(year, month, day).unwrap();
        let text = format!("{:02}/{:02}/{:04}", day, month, year);
        assert_eq!(parse_date(&text), Some(date));
        let groups = Some(vec![
            text.clone(),
            format!("{:02}", day),
            format!("{:02}", month),
            format!("{:04}", year),
        ]);
        assert_eq!(date_from_captures(&groups), Some(date));
    }
}

#[test]
fn captures_that_are_short_or_no_numbers_give_nothing() {
    assert_eq!(date_from_captures(&None), None);
    assert_eq!(date_from_captures(&Some(vec!["x".to_string()])), None);
    let bad = Some(vec!["".to_string(), "aa".to_string(), "04".to_string(), "2025".to_string()]);
    assert_eq!(date_from_captures(&bad), None);
    assert_eq!(time_from_captures(&None), None);
    let late = Some(vec!["24:00".to_string(), "24".to_string(), "00".to_string()]);
    assert_eq!(time_from_captures(&late), None);
    let fine = Some(vec!["7:05".to_string(), "7".to_string(), "05".to_string()]);
    assert_eq!(time_from_captures(&fine), Some(TimeOfDay { hour: 7, minute: 5, second: 0 }));
}

#[test]
fn parse_time_reads_hours_and_minutes() {
    let importer = TimesheetImporter::new();
    assert_eq!(importer.parse_time("08:00"), Some(TimeOfDay { hour: 8, minute: 0, second: 0 }));
    assert_eq!(parse_time("8:30"), Some(TimeOfDay { hour: 8, minute: 30, second: 0 }));
    assert_eq!(parse_time("23:59"), Some(TimeOfDay { hour: 23, minute: 59, second: 0 }));
    assert_eq!(parse_time("24:00"), None);
    assert_eq!(parse_time("12:60"), None);
    assert_eq!(parse_time("noon"), None);
    assert_eq!(importer.parse_date("15/01/2025"), Some(Date { year: 2025, month: 1, day: 15 }));
}

#[test]
fn parse_int_defaults_to_zero() {
    let importer = FreightOrderImporter::new();
    assert_eq!(importer.parse_int(" 42 "), 42);
    assert_eq!(parse_int("-7"), -7);
    assert_eq!(parse_int("+7"), 7);
    assert_eq!(parse_int("007"), 7);
    assert_eq!(parse_int("2147483647"), i32::MAX);
    assert_eq!(parse_int("-2147483648"), i32::MIN);
    assert_eq!(parse_int("2147483648"), 0);
    assert_eq!(parse_int("-2147483649"), 0);
    assert_eq!(parse_int("99999999999999999999999"), 0);
    assert_eq!(parse_int("12a"), 0);
    assert_eq!(parse_int("1 2"), 0);
    assert_eq!(parse_int(""), 0);
    assert_eq!(parse_int("-"), 0);
    assert_eq!(parse_int("+"), 0);
    assert_eq!(parse_int("abc"), 0);
}

#[test]
fn parse_int_agrees_with_the_standard_parser() {
    for text in ["0", "-0", "+0", "12", " 12", "1_000", "٣", "--1", "+-1", "4294967296", "0x10"] {
        assert_eq!(parse_int(text), text.trim().parse::<i32>().unwrap_or(0), "{text:?}");
    }
}

#[test]
fn split_multi_value_trims_and_drops_empties() {
    let importer = FreightOrderImporter::new();
    assert_eq!(importer.split_notas("123, 456;789"), vec!["123", "456", "789"]);
    assert_eq!(split_multi_value(" a ;; b ,"), vec!["a", "b"]);
    assert_eq!(split_multi_value(""), Vec::<String>::new());
    assert_eq!(split_multi_value(" , ; "), Vec::<String>::new());
    assert_eq!(split_multi_value("one"), vec!["one"]);
    assert_eq!(split_multi_value("a,a"), vec!["a", "a"]);
}

#[test]
fn whitespace_is_what_the_standard_library_says() {
    for code in 0..=0x10FFFFu32 {
        if let Some(c) = char::from_u32(code) {
            assert_eq!(is_whitespace(c), c.is_whitespace(), "U+{code:04X}");
        }
    }
}

#[test]
fn trim_and_search_agree_with_the_standard_library() {
    for text in ["", " ", "  a b  ", "\t\u{a0}x\u{3000}\n", "abc", " \u{feff}a "] {
        assert_eq!(trim(text), text.trim());
        let words: Vec<String> = text.split_whitespace().map(|w| w.to_string()).collect();
        assert_eq!(split_words(text), words);
    }
    assert!(contains("relatorio-04.csv", "-04"));
    assert!(contains("abc", ""));
    assert!(contains("", ""));
    assert!(!contains("ab", "abc"));
    assert!(!contains("aab", "aba"));
    assert!(contains("aaab", "aab"));
    assert!(ends_with("a.csv", ".csv"));
    assert!(!ends_with("a.csv.bak", ".csv"));
    assert!(!ends_with("sv", ".csv"));
}

#[test]
fn amounts_follow_the_chain_of_replacements() {
    let cells = [
        "R$ 1.234,56", "90", "", " ", "R$", "RR$$", "R $", "R$R$R", "1.2.3,4,5", " ,. ", "-1,5",
        "1e3", "R$\u{a0}12,00", "..", ",,", "R", "$", "abc R$ def",
    ];
    for cell in cells {
        let expected = cell.replace("R$", "").replace(".", "").replace(",", ".");
        assert_eq!(normalize_amount(cell), expected.trim(), "{cell:?}");
    }
}

#[test]
fn lists_follow_split_trim_and_filter() {
    let cells = ["", ",", ";", "a", "a,b", "a;b,c", " a , ; b ", ",a,", "a,,b", " ", "a b;c d"];
    for cell in cells {
        let expected: Vec<String> = cell
            .split(&[',', ';'][..])
            .map(|s| s.trim().to_string())
            .filter(|s| !s.is_empty())
            .collect();
        assert_eq!(split_multi_value(cell), expected, "{cell:?}");
    }
}

#[test]
fn amounts_are_shown_with_two_decimals() {
    assert_eq!(format_amount("1234.56"), "1234.56");
    assert_eq!(format_amount("90"), "90.00");
    assert_eq!(format_amount("0"), "0.00");
    assert_eq!(format_amount("1234.5"), "1234.50");
    assert_eq!(format_amount("1.005"), "1.01");
    assert_eq!(format_amount("1.004999"), "1.00");
    assert_eq!(format_amount("9.995"), "10.00");
    assert_eq!(format_amount("99.999"), "100.00");
    assert_eq!(format_amount("-12.5"), "-12.50");
    assert_eq!(format_amount("-0"), "-0.00");
    assert_eq!(format_amount("-0.001"), "-0.00");
    assert_eq!(format_amount("+7"), "7.00");
    assert_eq!(format_amount(".5"), "0.50");
    assert_eq!(format_amount("5."), "5.00");
    assert_eq!(format_amount("007.1"), "7.10");
    assert_eq!(format_amount("garbage"), "0.00");
    assert_eq!(format_amount(""), "0.00");
    assert_eq!(format_amount("1.2.3"), "0.00");
    assert_eq!(format_amount("184467440737095516.15"), "184467440737095516.15");
    assert_eq!(format_amount("184467440737095516.154"), "184467440737095516.15");
    assert_eq!(format_amount("184467440737095516.155"), "184467440737095516.155");
    assert_eq!(format_amount("184467440737095516.16"), "184467440737095516.16");
    assert_eq!(format_amount("99999999999999999999999"), "99999999999999999999999");
    // amounts in whole cents are shown as a float with two decimals is
    for cents in (0..3000u64).chain([123456, 99999, 100000, 1, 10, 100]) {
        for text in [format!("{}.{:02}", cents / 100, cents % 100), format!("-{}.{:02}", cents / 100, cents % 100)] {
            assert_eq!(format_amount(&text), format!("{:.2}", text.parse::<f64>().unwrap()), "{text}");
        }
    }
    for text in ["3", "3.1", "-3.1", "0.5", "12", "1000000"] {
        assert_eq!(format_amount(text), format!("{:.2}", text.parse::<f64>().unwrap()), "{text}");
    }
}
