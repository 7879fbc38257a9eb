use hpsdr::sysstats::last_ping_ms;

fn digits(text: &str) -> Option<&str> {
    last_ping_ms(text.as_bytes()).map(|(a, b)| &text[a..b])
}

#[test]
fn the_last_time_counts() {
    assert_eq!(digits("Reply from 10.0.0.2: bytes=32 time=12ms TTL=64"), Some("12"));
    assert_eq!(digits("tempo=3ms ... tempo<1ms"), Some("1"));
    assert_eq!(digits("0% packet loss, time 0ms\nrtt min/avg = 0.1/0.1 ms"), Some("0"));
    assert_eq!(digits("1.25ms"), Some("25"));
}

#[test]
fn without_a_number_directly_before_the_unit_there_is_no_time() {
    assert_eq!(digits(""), None);
    assert_eq!(digits("m"), None);
    assert_eq!(digits("ms"), None);
    assert_eq!(digits("0.5 ms"), None);
    assert_eq!(digits("items 12m s"), None);
    assert_eq!(digits("12m"), None);
    assert_eq!(digits("7ms"), Some("7"));
}
