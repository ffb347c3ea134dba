use deepseek_desktop::port::extract_port;

#[test]
fn mod_test_parse_port_from_harness_format() {
    let line = "dsh web: http://127.0.0.1:52631\n";
    assert_eq!(extract_port(line).unwrap(), Some(52631));
}

#[test]
fn mod_test_parse_port_from_listening_line() {
    let line = "  dsh: server listening on 127.0.0.1:49152\n";
    assert_eq!(extract_port(line).unwrap(), Some(49152));
}

#[test]
fn mod_test_parse_port_from_different_format() {
    let line = "[webserver] bound to 127.0.0.1:8080\n";
    assert_eq!(extract_port(line).unwrap(), Some(8080));
}

#[test]
fn mod_test_parse_port_returns_none_for_non_matching_line() {
    let line = "some random log output\n";
    assert_eq!(extract_port(line).unwrap(), None);
}

#[test]
fn mod_test_parse_port_handles_empty_string() {
    assert_eq!(extract_port("").unwrap(), None);
}

#[test]
fn port_test_parse_port_from_harness_format() {
    let line = "dsh web: http://127.0.0.1:52631\n";
    assert_eq!(extract_port(line).unwrap(), Some(52631));
}

#[test]
fn port_test_parse_port_from_listening_line() {
    let line = "  dsh: server listening on 127.0.0.1:49152\n";
    assert_eq!(extract_port(line).unwrap(), Some(49152));
}

#[test]
fn port_test_parse_port_from_different_format() {
    let line = "[webserver] bound to 127.0.0.1:8080\n";
    assert_eq!(extract_port(line).unwrap(), Some(8080));
}

#[test]
fn port_test_parse_port_returns_none_for_non_matching_line() {
    let line = "some random log output\n";
    assert_eq!(extract_port(line).unwrap(), None);
}

#[test]
fn port_test_parse_port_handles_empty_string() {
    assert_eq!(extract_port("").unwrap(), None);
}

#[test]
fn port_parser_test_parse_port_from_harness_format() {
    let line = "dsh web: http://127.0.0.1:52631\n";
    assert_eq!(extract_port(line).unwrap(), Some(52631));
}

#[test]
fn port_parser_test_parse_port_from_listening_line() {
    let line = "  dsh: server listening on 127.0.0.1:49152\n";
    assert_eq!(extract_port(line).unwrap(), Some(49152));
}

#[test]
fn port_parser_test_parse_port_from_different_format() {
    let line = "[webserver] bound to 127.0.0.1:8080\n";
    assert_eq!(extract_port(line).unwrap(), Some(8080));
}

#[test]
fn port_parser_test_parse_port_returns_none_for_non_matching_line() {
    let line = "some random log output\n";
    assert_eq!(extract_port(line).unwrap(), None);
}

#[test]
fn port_parser_test_parse_port_handles_empty_string() {
    assert_eq!(extract_port("").unwrap(), None);
}
