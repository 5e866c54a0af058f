use currency_convert::amount::parse_amount;
use currency_convert::convert::{Convert, ConvertError, FetchOutcome};
use currency_convert::rates::RateTable;
use human_format::Formatter;

fn request(input: &str, output: &str) -> Convert {
    Convert::new(input, output, parse_amount("100").unwrap())
}

fn table(entries: &[(&str, f64)]) -> RateTable<f64> {
    let mut t = RateTable::new();
    for (code, rate) in entries {
        t.insert(code.to_string(), *rate);
    }
    t
}

#[test]
fn output_code_is_put_in_upper_case() {
    let c = request("usd", "eur");
    assert_eq!(c.input_currency(), "usd");
    assert_eq!(c.output_currency(), "EUR");
}

#[test]
fn url_holds_base_as_typed() {
    let c = request("usd", "eur");
    assert_eq!(c.request_url(), "https://api.exchangerate-api.com/v4/latest/usd");
}

#[test]
fn table_insert_replaces_and_get_misses() {
    let mut t = table(&[("EUR", 0.9)]);
    t.insert("EUR".to_string(), 0.8);
    t.insert("JPY".to_string(), 150.0);
    assert_eq!(t.get(&"EUR".to_string()), Some(&0.8));
    assert_eq!(t.get(&"JPY".to_string()), Some(&150.0));
    assert_eq!(t.get(&"eur".to_string()), None);
    assert_eq!(RateTable::<f64>::new().get(&"EUR".to_string()), None);
}

#[test]
fn converts_with_rate_from_table() {
    let t = table(&[("EUR", 0.9), ("JPY", 150.0)]);
    let rate = request("USD", "EUR").rate_in(&t).unwrap();
    assert_eq!(rate * 100.0, 90.0);
    let yen = request("USD", "jpy").rate_in(&t).unwrap();
    assert_eq!(yen * 100.0, 15000.0);
}

#[test]
fn missing_target_is_unknown_currency() {
    let t = table(&[("EUR", 0.9), ("JPY", 150.0)]);
    assert_eq!(
        request("USD", "XYZ").rate_in(&t),
        Err(ConvertError::UnknownCurrency("XYZ".to_string()))
    );
}

#[test]
fn status_404_names_the_base_currency() {
    let c = request("ZZZ", "EUR");
    assert_eq!(
        c.rate_for::<f64>(FetchOutcome::Status(404)),
        Err(ConvertError::UnknownCurrency("ZZZ".to_string()))
    );
}

#[test]
fn other_status_is_http_error() {
    let c = request("USD", "EUR");
    assert_eq!(c.rate_for::<f64>(FetchOutcome::Status(500)), Err(ConvertError::HttpError(500)));
    assert!(matches!(c.deserialise::<f64>(FetchOutcome::Status(403)), Err(ConvertError::HttpError(403))));
}

#[test]
fn failed_request_is_request_error() {
    let c = request("USD", "EUR");
    let e = c.rate_for::<f64>(FetchOutcome::Failed);
    assert_eq!(e, Err(ConvertError::RequestError));
    assert_ne!(e, Err(ConvertError::HttpError(0)));
}

#[test]
fn malformed_answer_is_its_own_error() {
    let c = request("USD", "EUR");
    assert_eq!(c.rate_for::<f64>(FetchOutcome::Malformed), Err(ConvertError::MalformedResponse));
}

#[test]
fn end_to_end_with_fixed_rates() {
    let amount = parse_amount("1k").unwrap();
    let input: f64 = format!("{}e{}", std::str::from_utf8(amount.digits()).unwrap(), amount.exponent())
        .parse()
        .unwrap();
    let c = Convert::new("usd", "eur", amount);
    let rate = c.rate_for(FetchOutcome::Rates(table(&[("EUR", 0.91)]))).unwrap();
    let output = rate * input;
    assert_eq!(output, 910.0);
    let shown_in = Formatter::new().with_decimals(2).with_separator("").format(input);
    let shown_out = Formatter::new().with_decimals(2).with_separator("").format(output);
    assert_eq!(shown_in, "1.00k");
    assert_eq!(shown_out, "910.00");
}
