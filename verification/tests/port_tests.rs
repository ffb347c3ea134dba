use deepseek_desktop::text::NumberTextError;
use deepseek_desktop::port::{
    discovery_error_message, discovery_step, extract_port, port_from_capture, DiscoveryError, DiscoveryStep, PortError,
    SidecarEvent,
};

#[test]
fn port_too_large_is_an_error() {
    assert_eq!(extract_port("server listening on 127.0.0.1:70000\n"), Err(PortError::InvalidPort(NumberTextError::TooLarge)));
}

#[test]
fn first_matching_pattern_decides() {
    assert_eq!(extract_port("listening on x:12 and 127.0.0.1:99").unwrap(), Some(12));
}

#[test]
fn bare_port_at_end_of_line() {
    assert_eq!(extract_port("ready at :8080  ").unwrap(), Some(8080));
    assert_eq!(extract_port("server started on [::1]:4000").unwrap(), Some(4000));
}

#[test]
fn non_ascii_digits_are_not_a_port() {
    assert_eq!(extract_port("listening on host:\u{0663}"), Err(PortError::InvalidPort(NumberTextError::InvalidDigit)));
}

#[test]
fn capture_outcomes() {
    assert_eq!(port_from_capture(None), None);
    assert_eq!(port_from_capture(Some(None)), Some(Err(PortError::MissingCaptureGroup)));
    assert_eq!(port_from_capture(Some(Some("+42".to_string()))), Some(Ok(42)));
    assert_eq!(port_from_capture(Some(Some("65536".to_string()))), Some(Err(PortError::InvalidPort(NumberTextError::TooLarge))));
    assert_eq!(port_from_capture(Some(Some("0".to_string()))), Some(Ok(0)));
}

#[test]
fn discovery_steps() {
    assert_eq!(
        discovery_step(SidecarEvent::Stdout(b"dsh web: http://127.0.0.1:3000\n".to_vec())),
        DiscoveryStep::Found(3000)
    );
    assert_eq!(discovery_step(SidecarEvent::Stdout(vec![0xff, 0xfe, b':', b'1'])), DiscoveryStep::Continue);
    assert_eq!(discovery_step(SidecarEvent::Stdout(b"booting\n".to_vec())), DiscoveryStep::Continue);
    assert_eq!(
        discovery_step(SidecarEvent::Stdout(b"bound to h:99999".to_vec())),
        DiscoveryStep::Failed(DiscoveryError::Port(PortError::InvalidPort(NumberTextError::TooLarge)))
    );
    assert_eq!(discovery_step(SidecarEvent::Terminated), DiscoveryStep::Failed(DiscoveryError::Exited));
    assert_eq!(discovery_step(SidecarEvent::Closed), DiscoveryStep::Failed(DiscoveryError::StreamClosed));
    assert_eq!(discovery_step(SidecarEvent::Other), DiscoveryStep::Continue);
}

#[test]
fn discovery_error_messages() {
    assert_eq!(discovery_error_message(DiscoveryError::Exited), "sidecar exited before port discovery");
    assert_eq!(discovery_error_message(DiscoveryError::StreamClosed), "sidecar event stream closed");
    assert_eq!(
        discovery_error_message(DiscoveryError::Port(PortError::MissingCaptureGroup)),
        "port capture group not found"
    );
    let too_large = "99999".parse::<u16>().unwrap_err().to_string();
    assert_eq!(
        discovery_error_message(DiscoveryError::Port(PortError::InvalidPort(NumberTextError::TooLarge))),
        too_large
    );
    assert_eq!(too_large, "number too large to fit in target type");
    let bad_digit = "\u{0663}".parse::<u16>().unwrap_err().to_string();
    assert_eq!(
        discovery_error_message(DiscoveryError::Port(PortError::InvalidPort(NumberTextError::InvalidDigit))),
        bad_digit
    );
    assert_eq!(
        discovery_error_message(DiscoveryError::Port(PortError::InvalidPort(NumberTextError::Empty))),
        "".parse::<u16>().unwrap_err().to_string()
    );
    let regex_text = regex::Regex::new("(").unwrap_err().to_string();
    assert_eq!(
        discovery_error_message(DiscoveryError::Port(PortError::InvalidPattern(regex_text.clone()))),
        regex_text
    );
    match extract_port("bound to h:70000") {
        Err(PortError::InvalidPort(k)) => assert_eq!(
            discovery_error_message(DiscoveryError::Port(PortError::InvalidPort(k))),
            "70000".parse::<u16>().unwrap_err().to_string()
        ),
        other => panic!("unexpected {:?}", other),
    }
}

#[test]
fn continuing_events_do_not_change_discovery() {
    let run = |events: Vec<SidecarEvent>| {
        let mut consumed = 0;
        for e in events {
            consumed += 1;
            let step = discovery_step(e);
            if step != DiscoveryStep::Continue {
                return (Some(step), consumed);
            }
        }
        (None, consumed)
    };
    let short = vec![SidecarEvent::Stdout(b"dsh web: http://127.0.0.1:52631\n".to_vec())];
    let long = vec![
        SidecarEvent::Other,
        SidecarEvent::Stdout(vec![0xff, 0xfe]),
        SidecarEvent::Stdout(b"loading plugins\n".to_vec()),
        SidecarEvent::Stdout(b"dsh web: http://127.0.0.1:52631\n".to_vec()),
        SidecarEvent::Terminated,
    ];
    assert_eq!(run(short).0, Some(DiscoveryStep::Found(52631)));
    assert_eq!(run(long), (Some(DiscoveryStep::Found(52631)), 4));
    assert_eq!(
        run(vec![SidecarEvent::Other, SidecarEvent::Terminated, SidecarEvent::Closed]),
        (Some(DiscoveryStep::Failed(DiscoveryError::Exited)), 2)
    );
}
