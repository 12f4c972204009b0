use captive_portal::address::Ipv4Address;
use captive_portal::config::CaptivePortalConfig;
use captive_portal::packet::DnsPacket;
use captive_portal::portal::PortalReply;

fn config() -> CaptivePortalConfig<'static> {
    CaptivePortalConfig::new(
        "picohttp",
        Ipv4Address::new(169, 254, 1, 1),
        Ipv4Address::new(198, 51, 100, 0),
    )
}

/// A receive buffer of 64 bytes with a query for `name` at its front, and
/// the length of that query.
fn received(name: &str) -> (Vec<u8>, usize) {
    let mut out = vec![0x55, 0xaa, 0x01, 0x00, 0, 1, 0, 0, 0, 0, 0, 0];
    for label in name.split('.') {
        out.push(label.len() as u8);
        out.extend_from_slice(label.as_bytes());
    }
    out.extend_from_slice(&[0, 0, 1, 0, 1]);
    let len = out.len();
    out.resize(64, 0x5a);
    (out, len)
}

#[test]
fn config_keeps_what_it_was_made_with() {
    let config = config();
    assert_eq!(config.canonical_hostname(), "picohttp");
    assert_eq!(config.device_address(), Ipv4Address([169, 254, 1, 1]));
    assert_eq!(config.outside_address(), Ipv4Address([198, 51, 100, 0]));
}

#[test]
fn config_answers_its_own_name_with_the_device_address() {
    let (mut buffer, len) = received("picohttp");
    assert_eq!(len, 26);
    let response = config().answer(&mut buffer, len).unwrap();
    assert_eq!(response.len(), 12 + 14 + 16);
    assert_eq!(&response[response.len() - 4..], &[169, 254, 1, 1]);
}

#[test]
fn config_answers_other_names_with_the_outside_address() {
    let (mut buffer, len) = received("example.com");
    let response = config().answer(&mut buffer, len).unwrap();
    assert_eq!(response.len(), 12 + 17 + 16);
    assert_eq!(&response[response.len() - 4..], &[198, 51, 100, 0]);
}

#[test]
fn config_answers_as_the_rewriter_does() {
    for name in ["picohttp", "picohttp.local", "example.com", "x"] {
        let (mut by_config, len) = received(name);
        let mut by_rewriter = by_config.clone();
        let config = config();
        let left = config.answer(&mut by_config, len).map(|r| r.to_vec());
        let right = DnsPacket::transform_query_to_response(
            &mut by_rewriter,
            config.device_address(),
            config.outside_address(),
        )
        .map(|r| r.to_vec());
        assert!(left.is_some());
        assert_eq!(left, right);
        assert_eq!(by_config, by_rewriter);
    }
}

#[test]
fn config_drops_what_the_rewriter_drops() {
    let (mut buffer, len) = received("picohttp");
    buffer[2] = 0x81;
    assert!(config().answer(&mut buffer, len).is_none());
    let (mut buffer, len) = received("picohttp");
    buffer[5] = 2;
    assert!(config().answer(&mut buffer, len).is_none());
    let mut buffer = [0u8; 5];
    assert!(config().answer(&mut buffer, 5).is_none());
}

#[test]
fn config_drops_a_query_cut_short_by_its_datagram() {
    // every length that does not hold header and question whole
    for len in 0..26 {
        let (mut buffer, _) = received("picohttp");
        let before = buffer.clone();
        assert!(config().answer(&mut buffer, len).is_none(), "{}", len);
        assert_eq!(buffer, before);
    }
    // from there on the datagram may hold more than the question
    for len in 26..=64 {
        let (mut buffer, _) = received("picohttp");
        let response = config().answer(&mut buffer, len).unwrap();
        assert_eq!(response.len(), 42, "{}", len);
    }
    // a length past the buffer is no length of a datagram in it
    let (mut buffer, _) = received("picohttp");
    assert!(config().answer(&mut buffer, 65).is_none());
    assert!(config().answer(&mut buffer, usize::MAX).is_none());
}

#[test]
fn config_needs_room_behind_the_question_not_behind_the_datagram() {
    let (mut buffer, len) = received("picohttp");
    buffer.truncate(len + 16);
    assert!(config().answer(&mut buffer, len).is_some());
    let (mut buffer, len) = received("picohttp");
    buffer.truncate(len + 15);
    assert!(config().answer(&mut buffer, len).is_none());
}

#[test]
fn config_routes_by_its_own_name() {
    let config = config();
    assert_eq!(config.route(Some("picohttp.local")), PortalReply::Portal);
    assert_eq!(config.route(Some("example.com")), PortalReply::Redirect);
    assert_eq!(config.route(None), PortalReply::Redirect);

    let other = CaptivePortalConfig::new(
        "portal",
        Ipv4Address::new(10, 0, 0, 1),
        Ipv4Address::new(10, 0, 0, 2),
    );
    assert_eq!(other.route(Some("portal.lan")), PortalReply::Portal);
    assert_eq!(other.route(Some("picohttp.local")), PortalReply::Redirect);
    let (mut buffer, len) = received("portal");
    let response = other.answer(&mut buffer, len).unwrap();
    assert_eq!(&response[response.len() - 4..], &[10, 0, 0, 1]);
    let (mut buffer, len) = received("picohttp");
    let response = other.answer(&mut buffer, len).unwrap();
    assert_eq!(&response[response.len() - 4..], &[10, 0, 0, 2]);
}
