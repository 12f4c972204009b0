use captive_portal::address::Ipv4Address;
use captive_portal::header::DnsHeader;
use captive_portal::hostname::HOSTNAME;
use captive_portal::packet::DnsPacket;

const DEVICE: Ipv4Address = Ipv4Address([169, 254, 1, 1]);
const OUTSIDE: Ipv4Address = Ipv4Address([198, 51, 100, 0]);

/// A query for `name` with `questions` in its count and `flags` as its first
/// flags byte, in a buffer with `room` spare bytes behind it.
fn query_with(name: &str, flags: u8, questions: u16, room: usize) -> Vec<u8> {
    let mut out =
        vec![0x12, 0x34, flags, 0x20, (questions >> 8) as u8, questions as u8, 0, 0, 0, 0, 0, 7];
    for label in name.split('.') {
        out.push(label.len() as u8);
        out.extend_from_slice(label.as_bytes());
    }
    out.extend_from_slice(&[0, 0, 1, 0, 1]);
    out.extend(std::iter::repeat(0xee).take(room));
    out
}

fn query(name: &str) -> Vec<u8> {
    query_with(name, 0x01, 1, 64)
}

#[test]
fn answers_the_portal_name_with_the_device_address() {
    let mut buffer = query("picohttp");
    let response = DnsPacket::transform_query_to_response(&mut buffer, DEVICE, OUTSIDE).unwrap();
    assert_eq!(&response[response.len() - 4..], &[169, 254, 1, 1]);
}

#[test]
fn answers_any_other_name_with_the_outside_address() {
    for name in ["example.com", "other", "picohttpx", "www.picohttp", "a"] {
        let mut buffer = query(name);
        let response =
            DnsPacket::transform_query_to_response(&mut buffer, DEVICE, OUTSIDE).unwrap();
        assert_eq!(&response[response.len() - 4..], &[198, 51, 100, 0], "{}", name);
    }
}

#[test]
fn answers_names_below_the_portal_name_with_the_device_address() {
    let mut buffer = query("picohttp.local");
    let response = DnsPacket::transform_query_to_response(&mut buffer, DEVICE, OUTSIDE).unwrap();
    assert_eq!(&response[response.len() - 4..], &[169, 254, 1, 1]);
}

#[test]
fn response_is_the_exact_bytes() {
    let mut buffer = query("picohttp");
    let response = DnsPacket::transform_query_to_response(&mut buffer, DEVICE, OUTSIDE).unwrap();
    let expected: Vec<u8> = vec![
        // header: id kept, flags 0x81 0x80, one question, one answer, nothing else
        0x12, 0x34, 0x81, 0x80, 0, 1, 0, 1, 0, 0, 0, 0,
        // the question as it came
        8, b'p', b'i', b'c', b'o', b'h', b't', b't', b'p', 0, 0, 1, 0, 1,
        // pointer to offset 12, type A, class IN, ttl 1, four bytes of data
        0xc0, 12, 0, 1, 0, 1, 0, 0, 0, 1, 0, 4,
        169, 254, 1, 1,
    ];
    assert_eq!(response, &expected[..]);
}

#[test]
fn response_ends_sixteen_bytes_behind_the_question() {
    for name in ["a", "picohttp", "other", "x.y.z", "picohttp.piconet.local"] {
        let mut buffer = query(name);
        let answer_start = 12 + name.len() + 2 + 4;
        let response =
            DnsPacket::transform_query_to_response(&mut buffer, DEVICE, OUTSIDE).unwrap();
        assert_eq!(response.len(), answer_start + 16, "{}", name);
        assert_eq!(&response[answer_start..answer_start + 2], &[0xc0, 12]);
    }
}

#[test]
fn response_is_the_front_of_the_buffer() {
    let mut buffer = query("picohttp");
    let before = buffer.clone();
    let response =
        DnsPacket::transform_query_to_response(&mut buffer, DEVICE, OUTSIDE).unwrap().to_vec();
    assert_eq!(response.len(), 42);
    assert_eq!(&buffer[..42], &response[..]);
    // what lies behind the response is as it was
    assert_eq!(&buffer[42..], &before[42..]);
}

#[test]
fn response_read_back_is_no_query() {
    let mut buffer = query("picohttp");
    let response = DnsPacket::transform_query_to_response(&mut buffer, DEVICE, OUTSIDE).unwrap();
    let header = DnsHeader::new_checked(response).unwrap();
    assert!(!header.is_query());
    assert!(header.is_standard_query());
    assert_eq!(header.question_count(), 1);
}

#[test]
fn response_is_not_answered_again() {
    let mut buffer = query("picohttp");
    let len = DnsPacket::transform_query_to_response(&mut buffer, DEVICE, OUTSIDE).unwrap().len();
    let after_first = buffer.clone();
    assert!(DnsPacket::transform_query_to_response(&mut buffer, DEVICE, OUTSIDE).is_none());
    assert_eq!(buffer, after_first);
    assert!(len <= buffer.len());
}

#[test]
fn drops_a_query_with_two_questions() {
    let mut buffer = query_with("picohttp", 0x01, 2, 64);
    let before = buffer.clone();
    assert!(DnsPacket::transform_query_to_response(&mut buffer, DEVICE, OUTSIDE).is_none());
    assert_eq!(buffer, before);
}

#[test]
fn drops_a_query_with_any_count_but_one() {
    for count in [0u16, 2, 3, 256, 257, 0xffff] {
        let mut buffer = query_with("picohttp", 0x01, count, 64);
        assert!(
            DnsPacket::transform_query_to_response(&mut buffer, DEVICE, OUTSIDE).is_none(),
            "{}",
            count
        );
    }
}

#[test]
fn drops_a_response() {
    let mut buffer = query_with("picohttp", 0x81, 1, 64);
    let before = buffer.clone();
    assert!(DnsPacket::transform_query_to_response(&mut buffer, DEVICE, OUTSIDE).is_none());
    assert_eq!(buffer, before);
    let mut buffer = query_with("picohttp", 0x80, 1, 64);
    assert!(DnsPacket::transform_query_to_response(&mut buffer, DEVICE, OUTSIDE).is_none());
}

#[test]
fn drops_other_opcodes() {
    for flags in [0x08u8, 0x10, 0x20, 0x28, 0x40, 0x78, 0x09] {
        let mut buffer = query_with("picohttp", flags, 1, 64);
        let before = buffer.clone();
        assert!(
            DnsPacket::transform_query_to_response(&mut buffer, DEVICE, OUTSIDE).is_none(),
            "{:#x}",
            flags
        );
        assert_eq!(buffer, before);
    }
}

#[test]
fn drops_a_short_buffer() {
    for len in 0..12 {
        let mut buffer = vec![0u8; len];
        assert!(DnsPacket::transform_query_to_response(&mut buffer, DEVICE, OUTSIDE).is_none());
    }
    // a header and nothing behind it
    let mut buffer = vec![0, 0, 1, 0, 0, 1, 0, 0, 0, 0, 0, 0];
    assert!(DnsPacket::transform_query_to_response(&mut buffer, DEVICE, OUTSIDE).is_none());
}

#[test]
fn drops_a_malformed_name() {
    let mut buffer = query("picohttp");
    buffer[12] = 64;
    let before = buffer.clone();
    assert!(DnsPacket::transform_query_to_response(&mut buffer, DEVICE, OUTSIDE).is_none());
    assert_eq!(buffer, before);

    // a compression pointer in place of the name
    let mut buffer = vec![0, 0, 1, 0, 0, 1, 0, 0, 0, 0, 0, 0, 0xc0, 12, 0, 1, 0, 1];
    buffer.extend_from_slice(&[0; 32]);
    assert!(DnsPacket::transform_query_to_response(&mut buffer, DEVICE, OUTSIDE).is_none());

    // no terminator before the end
    let mut buffer = vec![0, 0, 1, 0, 0, 1, 0, 0, 0, 0, 0, 0, 3, b'a', b'b', b'c'];
    assert!(DnsPacket::transform_query_to_response(&mut buffer, DEVICE, OUTSIDE).is_none());
}

#[test]
fn drops_a_query_without_room_for_the_answer() {
    for room in 0..16 {
        let mut buffer = query_with("picohttp", 0x01, 1, room);
        let before = buffer.clone();
        assert!(
            DnsPacket::transform_query_to_response(&mut buffer, DEVICE, OUTSIDE).is_none(),
            "{}",
            room
        );
        assert_eq!(buffer, before);
    }
    let mut buffer = query_with("picohttp", 0x01, 1, 16);
    let response = DnsPacket::transform_query_to_response(&mut buffer, DEVICE, OUTSIDE).unwrap();
    assert_eq!(response.len(), 42);

    // the name ends with the buffer: type and class are missing
    let mut buffer = vec![0, 0, 1, 0, 0, 1, 0, 0, 0, 0, 0, 0, 1, b'a', 0];
    assert!(DnsPacket::transform_query_to_response(&mut buffer, DEVICE, OUTSIDE).is_none());
}

#[test]
fn rewrite_takes_the_name_to_answer_for() {
    let mut buffer = query("portal.example");
    let response = DnsPacket::rewrite(&mut buffer, "portal.example", DEVICE, OUTSIDE).unwrap();
    assert_eq!(&response[response.len() - 4..], &[169, 254, 1, 1]);

    let mut buffer = query("picohttp");
    let response = DnsPacket::rewrite(&mut buffer, "portal.example", DEVICE, OUTSIDE).unwrap();
    assert_eq!(&response[response.len() - 4..], &[198, 51, 100, 0]);

    let mut buffer = query("picohttp");
    let response = DnsPacket::rewrite(&mut buffer, HOSTNAME, DEVICE, OUTSIDE).unwrap();
    assert_eq!(&response[response.len() - 4..], &[169, 254, 1, 1]);
}

#[test]
fn rewrite_datagram_reads_the_query_inside_the_datagram_only() {
    // header 12, question 14: the query is 26 bytes long
    let mut buffer = query("picohttp");
    let response =
        DnsPacket::rewrite_datagram(&mut buffer, 26, HOSTNAME, DEVICE, OUTSIDE).unwrap();
    assert_eq!(response.len(), 42);
    assert_eq!(&response[38..], &[169, 254, 1, 1]);

    let mut buffer = query("picohttp");
    let before = buffer.clone();
    assert!(DnsPacket::rewrite_datagram(&mut buffer, 25, HOSTNAME, DEVICE, OUTSIDE).is_none());
    assert_eq!(buffer, before);
    assert!(DnsPacket::rewrite_datagram(&mut buffer, 0, HOSTNAME, DEVICE, OUTSIDE).is_none());
    assert!(DnsPacket::rewrite_datagram(&mut buffer, 12, HOSTNAME, DEVICE, OUTSIDE).is_none());
    let too_long = buffer.len() + 1;
    assert!(
        DnsPacket::rewrite_datagram(&mut buffer, too_long, HOSTNAME, DEVICE, OUTSIDE).is_none()
    );
    assert_eq!(buffer, before);
}

#[test]
fn rewrite_datagram_of_the_whole_buffer_is_rewrite() {
    for name in ["picohttp", "other.name", "picohttp.local"] {
        let mut left = query(name);
        let mut right = left.clone();
        let len = left.len();
        let a = DnsPacket::rewrite_datagram(&mut left, len, HOSTNAME, DEVICE, OUTSIDE)
            .map(|r| r.to_vec());
        let b = DnsPacket::rewrite(&mut right, HOSTNAME, DEVICE, OUTSIDE).map(|r| r.to_vec());
        assert!(a.is_some());
        assert_eq!(a, b);
        assert_eq!(left, right);
    }
}

#[test]
fn rewrite_datagram_is_blind_to_what_lies_behind_the_datagram() {
    let clean = query_with("picohttp", 0x01, 1, 40);
    let mut stale = clean.clone();
    // leftovers of an earlier, longer datagram
    for (i, byte) in stale[26..].iter_mut().enumerate() {
        *byte = (i as u8).wrapping_mul(37).wrapping_add(1);
    }
    let mut left = clean.clone();
    let mut right = stale.clone();
    let a = DnsPacket::rewrite_datagram(&mut left, 26, HOSTNAME, DEVICE, OUTSIDE)
        .map(|r| r.to_vec())
        .unwrap();
    let b = DnsPacket::rewrite_datagram(&mut right, 26, HOSTNAME, DEVICE, OUTSIDE)
        .map(|r| r.to_vec())
        .unwrap();
    assert_eq!(a, b);

    // a name cut off by the datagram is not completed from the leftovers
    let mut cut = query_with("picohttp", 0x01, 1, 40);
    let before = cut.clone();
    assert!(DnsPacket::rewrite_datagram(&mut cut, 20, HOSTNAME, DEVICE, OUTSIDE).is_none());
    assert_eq!(cut, before);
}

#[test]
fn hostname_is_the_single_label_picohttp() {
    assert_eq!(HOSTNAME, "picohttp");
    assert_eq!(HOSTNAME.as_bytes(), &[0x70, 0x69, 0x63, 0x6f, 0x68, 0x74, 0x74, 0x70]);
    assert!(!HOSTNAME.contains('.'));
}

#[test]
fn address_holds_its_octets_in_order() {
    let address = Ipv4Address::new(169, 254, 1, 1);
    assert_eq!(address.as_bytes(), &[169, 254, 1, 1]);
    assert_eq!(address, DEVICE);
    assert_eq!(address.0, [169, 254, 1, 1]);
    assert_ne!(address, OUTSIDE);
}
