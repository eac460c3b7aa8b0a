use ecb_rates::models::ExchangeRateResult;
use ecb_rates::parsing::{attribute, CubeParser, Element};

fn element(name: &str, attributes: &[(&str, &str)]) -> Element {
    Element {
        name: name.to_string(),
        attributes: attributes.iter().map(|(k, v)| (k.to_string(), v.to_string())).collect(),
    }
}

fn feed(parser: &mut CubeParser<String>, e: Element) -> bool {
    match parser.handle_cube_element(&e) {
        Some((currency, rate)) => {
            parser.record_rate(currency, rate);
            true
        }
        None => false,
    }
}

fn listed(t: &ExchangeRateResult<String>) -> Vec<(&str, &str)> {
    t.rates().iter().map(|(c, r)| (c.as_str(), r.as_str())).collect()
}

#[test]
fn attributes_are_found_by_name() {
    let e = element("Cube", &[("currency", "USD"), ("rate", "1.03"), ("currency", "SEK")]);
    assert_eq!(attribute(&e.attributes, "rate"), Some("1.03".to_string()));
    assert_eq!(attribute(&e.attributes, "currency"), Some("SEK".to_string()));
    assert_eq!(attribute(&e.attributes, "time"), None);
    assert_eq!(attribute(&Vec::new(), "time"), None);
}

#[test]
fn days_and_rates_are_collected_in_the_order_of_the_document() {
    let mut parser = CubeParser::new();
    assert!(!feed(&mut parser, element("Envelope", &[])));
    assert!(!feed(&mut parser, element("Cube", &[])));
    assert!(!feed(&mut parser, element("Cube", &[("time", "2025-01-08")])));
    assert!(feed(&mut parser, element("Cube", &[("currency", "USD"), ("rate", "1.0321")])));
    assert!(feed(&mut parser, element("Cube", &[("currency", "SEK"), ("rate", "11.49")])));
    assert!(!feed(&mut parser, element("Cube", &[("time", "2025-01-07")])));
    assert!(feed(&mut parser, element("Cube", &[("rate", "1.0393"), ("currency", "USD")])));
    let days = parser.finish();
    assert_eq!(days.len(), 2);
    assert_eq!(days[0].time(), "2025-01-08");
    assert_eq!(listed(&days[0]), vec![("USD", "1.0321"), ("SEK", "11.49")]);
    assert_eq!(days[1].time(), "2025-01-07");
    assert_eq!(listed(&days[1]), vec![("USD", "1.0393")]);
}

#[test]
fn rates_before_any_day_are_passed_over() {
    let mut parser: CubeParser<String> = CubeParser::new();
    assert!(!feed(&mut parser, element("Cube", &[("currency", "USD"), ("rate", "1.0")])));
    parser.record_rate("USD".to_string(), "1.0".to_string());
    assert!(parser.finish().is_empty());
}

#[test]
fn other_elements_and_incomplete_rates_change_nothing() {
    let mut parser = CubeParser::new();
    assert!(!feed(&mut parser, element("Cube", &[("time", "t")])));
    assert!(!feed(&mut parser, element("cube", &[("currency", "USD"), ("rate", "1")])));
    assert!(!feed(&mut parser, element("Sender", &[("time", "u"), ("currency", "USD"), ("rate", "1")])));
    assert!(!feed(&mut parser, element("Cube", &[("currency", "USD")])));
    assert!(!feed(&mut parser, element("Cube", &[("rate", "1")])));
    let days = parser.finish();
    assert_eq!(days.len(), 1);
    assert_eq!(days[0].time(), "t");
    assert!(days[0].rates().is_empty());
}

#[test]
fn one_element_can_open_a_day_and_announce_a_rate() {
    let mut parser = CubeParser::new();
    assert!(feed(&mut parser, element("Cube", &[("time", "t"), ("currency", "USD"), ("rate", "1")])));
    assert!(feed(&mut parser, element("Cube", &[("currency", "USD"), ("rate", "2")])));
    assert!(feed(&mut parser, element("Cube", &[("time", "u"), ("currency", "SEK"), ("rate", "3")])));
    let days = parser.finish();
    assert_eq!(days.len(), 2);
    assert_eq!(days[0].time(), "t");
    // A later rate for the same currency takes the place of the earlier one.
    assert_eq!(listed(&days[0]), vec![("USD", "2")]);
    assert_eq!(days[1].time(), "u");
    assert_eq!(listed(&days[1]), vec![("SEK", "3")]);
}

#[test]
fn nothing_in_nothing_out() {
    let parser: CubeParser<String> = CubeParser::new();
    assert!(parser.finish().is_empty());
}
