use ecb_rates::HeaderDescription;

#[test]
fn heading_starts_from_the_euro() {
    let header = HeaderDescription::new();
    assert_eq!(header.names(), ("EUR", "ALL"));
    assert_eq!(header.padding(), Some((4, 4)));
}

#[test]
fn heading_turns_round() {
    let mut header = HeaderDescription::new();
    header.invert();
    assert_eq!(header.names(), ("ALL", "EUR"));
    header.invert();
    assert_eq!(header.names(), ("EUR", "ALL"));
}

#[test]
fn heading_takes_another_currency() {
    let mut header = HeaderDescription::new();
    header.replace_eur("USD");
    assert_eq!(header.names(), ("USD", "ALL"));
    header.invert();
    assert_eq!(header.names(), ("ALL", "USD"));
    header.replace_eur("SEK");
    assert_eq!(header.names(), ("SEK", "USD"));
}

#[test]
fn heading_is_centred_with_the_odd_blank_on_the_right() {
    let mut header = HeaderDescription::new();
    header.replace_eur("EURO");
    // 4 + 3 + 4 = 11 of 18: seven blanks, three on the left.
    assert_eq!(header.padding(), Some((3, 4)));
    header.replace_eur("");
    assert_eq!(header.padding(), Some((5, 6)));
    header.replace_eur("ELEVEN_CHAR");
    assert_eq!(header.padding(), Some((0, 0)));
    header.replace_eur("TWELVE_CHARS");
    assert_eq!(header.padding(), None);
    // Length is counted in bytes.
    header.replace_eur("€€€");
    assert_eq!(header.padding(), Some((1, 1)));
}
