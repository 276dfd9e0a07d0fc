use user_auth::settings::get_server_port;
use user_auth::settings::parse_port;
use user_auth::settings::DEFAULT_PORT;

#[test]
fn default_port_is_8181() {
    assert_eq!(DEFAULT_PORT, 8181);
    assert_eq!(get_server_port(None), 8181);
}

#[test]
fn configured_port_is_used() {
    assert_eq!(get_server_port(Some("8000")), 8000);
    assert_eq!(get_server_port(Some("0")), 0);
    assert_eq!(get_server_port(Some("65535")), 65535);
    assert_eq!(get_server_port(Some("+443")), 443);
    assert_eq!(get_server_port(Some("00080")), 80);
}

#[test]
fn unusable_port_falls_back_to_the_default() {
    assert_eq!(get_server_port(Some("")), 8181);
    assert_eq!(get_server_port(Some("+")), 8181);
    assert_eq!(get_server_port(Some("65536")), 8181);
    assert_eq!(get_server_port(Some("-1")), 8181);
    assert_eq!(get_server_port(Some(" 80")), 8181);
    assert_eq!(get_server_port(Some("80 ")), 8181);
    assert_eq!(get_server_port(Some("8o")), 8181);
    assert_eq!(get_server_port(Some("http")), 8181);
    assert_eq!(get_server_port(Some("٨٠")), 8181);
    assert_eq!(get_server_port(Some("99999999999999999999999999")), 8181);
}

#[test]
fn parse_port_reads_decimal_numbers() {
    assert_eq!(parse_port("1"), Some(1));
    assert_eq!(parse_port("8181"), Some(8181));
    assert_eq!(parse_port("65535"), Some(65535));
    assert_eq!(parse_port("000000000000000000000065535"), Some(65535));
    assert_eq!(parse_port("+0"), Some(0));
    assert_eq!(parse_port("65536"), None);
    assert_eq!(parse_port("655350"), None);
    assert_eq!(parse_port("++1"), None);
    assert_eq!(parse_port("1+"), None);
    assert_eq!(parse_port("é"), None);
    assert_eq!(parse_port("1é"), None);
    assert_eq!(parse_port("+é"), None);
}

#[test]
fn parse_port_agrees_with_the_standard_parser() {
    let samples = [
        "", "+", "-", "0", "+0", "-0", "7", "42", "0042", "+0042", "65534", "65535", "65536",
        "70000", "4294967296", "18446744073709551616", " 1", "1 ", "1_000", "0x10", "1e3", "１２",
        "12a", "a12", "+-1", "\u{0}1",
    ];
    for text in samples.iter() {
        assert_eq!(parse_port(text), text.parse::<u16>().ok());
    }
}
