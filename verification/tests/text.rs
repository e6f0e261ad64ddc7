use occupancy_monitor::predictor::gb_regressor::GBRegressor;
use occupancy_monitor::predictor::lstm_regressor::LSTMRegressor;
use occupancy_monitor::predictor::output::read_output;
use occupancy_monitor::scraper::scraper::Scraper;
use occupancy_monitor::text::{chars_of, parse_u16, split, split_lines, text_of};
use occupancy_monitor::timing::calendar::Date;

fn chars(text: &str) -> Vec<char> {
    text.chars().collect()
}

fn strings(parts: Vec<Vec<char>>) -> Vec<String> {
    parts.into_iter().map(|part| part.into_iter().collect()).collect()
}

fn number(text: &str) -> Option<u16> {
    parse_u16(&chars(text))
}

fn rows(list: &[(&str, &str)]) -> Vec<(String, String)> {
    list.iter().map(|(a, b)| (a.to_string(), b.to_string())).collect()
}

#[test]
fn characters_and_texts_convert() {
    assert_eq!(chars_of("héllo"), vec!['h', 'é', 'l', 'l', 'o']);
    assert_eq!(chars_of(""), Vec::<char>::new());
    assert_eq!(text_of(&chars("a,b")), "a,b");
    assert_eq!(text_of(&Vec::new()), "");
}

#[test]
fn a_text_is_cut_at_each_separator() {
    assert_eq!(strings(split(&chars("a,b,c"), ',')), vec!["a", "b", "c"]);
    assert_eq!(strings(split(&chars(""), ',')), vec![""]);
    assert_eq!(strings(split(&chars(","), ',')), vec!["", ""]);
    assert_eq!(strings(split(&chars("a,,b,"), ',')), vec!["a", "", "b", ""]);
    assert_eq!(strings(split(&chars("abc"), ',')), vec!["abc"]);
    assert_eq!(strings(split(&chars("k=v=w"), '=')), vec!["k", "v", "w"]);
}

#[test]
fn a_text_is_cut_into_lines() {
    assert_eq!(strings(split_lines(&chars("a\nb\n"))), vec!["a", "b"]);
    assert_eq!(strings(split_lines(&chars("a\nb"))), vec!["a", "b"]);
    assert_eq!(strings(split_lines(&chars("a\r\nb\r\n"))), vec!["a", "b"]);
    assert_eq!(strings(split_lines(&chars(""))), Vec::<String>::new());
    assert_eq!(strings(split_lines(&chars("\n"))), vec![""]);
    assert_eq!(strings(split_lines(&chars("a\n\nb"))), vec!["a", "", "b"]);
    assert_eq!(strings(split_lines(&chars("a\r\rb\r"))), vec!["a\r\rb"]);
}

#[test]
fn numbers_are_read_in_base_ten() {
    assert_eq!(number("0"), Some(0));
    assert_eq!(number("45"), Some(45));
    assert_eq!(number("00012"), Some(12));
    assert_eq!(number("+7"), Some(7));
    assert_eq!(number("65535"), Some(65_535));
    assert_eq!(number("65536"), None);
    assert_eq!(number("000000000000000000065535"), Some(65_535));
    assert_eq!(number("99999999999999999999999"), None);
    assert_eq!(number(""), None);
    assert_eq!(number("+"), None);
    assert_eq!(number("-1"), None);
    assert_eq!(number("++1"), None);
    assert_eq!(number("1+"), None);
    assert_eq!(number("12a"), None);
    assert_eq!(number(" 12"), None);
    assert_eq!(number("1.5"), None);
    // Digits of another script are no digits here.
    assert_eq!(number("٣"), None);
    for value in [0u16, 9, 10, 99, 100, 6553, 6554, 65_534] {
        assert_eq!(number(&value.to_string()), value.to_string().parse::<u16>().ok());
    }
    for text in ["+0", "+65535", "+65536", "0x10", "1_000", "１２"] {
        assert_eq!(number(text), text.parse::<u16>().ok());
    }
}

#[test]
fn the_output_of_a_model_is_read_line_by_line() {
    let output = "2024-01-01T09:00:00,41.5\n2024-01-01T09:05:00,42\n";
    assert_eq!(
        read_output(output),
        Some(rows(&[("2024-01-01T09:00:00", "41.5"), ("2024-01-01T09:05:00", "42")]))
    );
    assert_eq!(GBRegressor::read_output(output), read_output(output));
    assert_eq!(LSTMRegressor::read_output(output), read_output(output));
    assert_eq!(read_output("a,b"), Some(rows(&[("a", "b")])));
    assert_eq!(read_output("a,b\r\nc,d\r\n"), Some(rows(&[("a", "b"), ("c", "d")])));
    assert_eq!(read_output("a,b,c\n"), Some(rows(&[("a", "b")])));
    assert_eq!(read_output(",\n"), Some(rows(&[("", "")])));
    assert_eq!(read_output(""), Some(Vec::new()));
}

#[test]
fn malformed_output_is_no_output() {
    assert_eq!(read_output("2024-01-01T09:00:00 41\n"), None);
    assert_eq!(read_output("a,b\n\nc,d\n"), None);
    assert_eq!(read_output("\n"), None);
    assert_eq!(read_output("a,b\nc"), None);
    assert_eq!(GBRegressor::read_output("Traceback"), None);
    assert_eq!(LSTMRegressor::read_output("Traceback"), None);
}

#[test]
fn the_forecast_of_a_model_becomes_a_series() {
    let rows = vec![
        ("2024-01-01T09:00:00".to_string(), 41u16),
        ("2024-01-02T09:05:00".to_string(), 42u16),
    ];
    let series = Scraper::make_gb_prediction(&rows).unwrap();
    assert_eq!(series.len(), 2);
    assert_eq!(series[0].timestamp.date(), Date::from_ymd(2024, 1, 1).unwrap());
    assert_eq!(series[0].timestamp.seconds_from_midnight(), 32_400);
    assert_eq!(series[0].occupancy, 41);
    assert_eq!(series[1].timestamp.date(), Date::from_ymd(2024, 1, 2).unwrap());
    assert_eq!(series[1].timestamp.seconds_from_midnight(), 32_700);
    assert_eq!(series[1].occupancy, 42);
    assert!(Scraper::make_gb_prediction(&Vec::new()).unwrap().is_empty());
    assert!(Scraper::make_gb_prediction(&vec![("09:00".to_string(), 1)]).is_none());
}
