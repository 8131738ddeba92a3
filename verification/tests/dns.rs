use kernel_core::net::dns::{resolve_hostname, DnsError, DnsResolver};
use kernel_core::net::IpAddress;

fn response(id: u16, flags: u16, questions: u16, answers: u16, body: &[u8]) -> Vec<u8> {
    let mut bytes = Vec::new();
    bytes.extend_from_slice(&id.to_be_bytes());
    bytes.extend_from_slice(&flags.to_be_bytes());
    bytes.extend_from_slice(&questions.to_be_bytes());
    bytes.extend_from_slice(&answers.to_be_bytes());
    bytes.extend_from_slice(&[0, 0, 0, 0]);
    bytes.extend_from_slice(body);
    bytes
}

fn question() -> Vec<u8> {
    vec![1, b'a', 2, b'b', b'c', 0, 0, 1, 0, 1]
}

fn answer_record(atype: u16, aclass: u16, rdata: &[u8]) -> Vec<u8> {
    let mut bytes = vec![1, b'a', 2, b'b', b'c', 0];
    bytes.extend_from_slice(&atype.to_be_bytes());
    bytes.extend_from_slice(&aclass.to_be_bytes());
    bytes.extend_from_slice(&[0, 0, 0, 60]);
    bytes.extend_from_slice(&(rdata.len() as u16).to_be_bytes());
    bytes.extend_from_slice(rdata);
    bytes
}

fn good_body() -> Vec<u8> {
    let mut body = question();
    body.extend_from_slice(&answer_record(1, 1, &[93, 184, 216, 34]));
    body
}

#[test]
fn query_bytes() {
    let mut resolver = DnsResolver::new(IpAddress::new([8, 8, 8, 8]));
    let query = resolver.resolve("www.example.com");
    assert_eq!(
        query,
        vec![
            0, 0, 1, 0, 0, 1, 0, 0, 0, 0, 0, 0, 3, b'w', b'w', b'w', 7, b'e', b'x', b'a', b'm',
            b'p', b'l', b'e', 3, b'c', b'o', b'm', 0, 0, 1, 0, 1
        ]
    );
    assert_eq!(resolver.pending, Some(0));
    assert_eq!(resolver.next_id, 1);
    let second = resolver.resolve("a");
    assert_eq!(second, vec![0, 1, 1, 0, 0, 1, 0, 0, 0, 0, 0, 0, 1, b'a', 0, 0, 1, 0, 1]);
}

#[test]
fn query_keeps_empty_labels() {
    let mut resolver = DnsResolver::new(IpAddress::new([8, 8, 8, 8]));
    assert_eq!(&resolver.resolve("")[12..], &[0, 0, 0, 1, 0, 1]);
    assert_eq!(&resolver.resolve("a.")[12..], &[1, b'a', 0, 0, 0, 1, 0, 1]);
    assert_eq!(&resolver.resolve(".a")[12..], &[0, 1, b'a', 0, 0, 1, 0, 1]);
    assert_eq!(&resolver.resolve("a..b")[12..], &[1, b'a', 0, 1, b'b', 0, 0, 1, 0, 1]);
}

#[test]
fn query_id_wraps() {
    let mut resolver = DnsResolver::new(IpAddress::new([8, 8, 8, 8]));
    resolver.next_id = u16::MAX;
    let query = resolver.resolve("a");
    assert_eq!(&query[..2], &[0xFF, 0xFF]);
    assert_eq!(resolver.next_id, 0);
}

#[test]
fn answer_with_an_address() {
    let bytes = response(7, 0x8180, 1, 1, &good_body());
    assert_eq!(DnsResolver::read_answer(7, &bytes), Ok(IpAddress::new([93, 184, 216, 34])));
    let mut resolver = DnsResolver::new(IpAddress::new([8, 8, 8, 8]));
    resolver.next_id = 7;
    resolver.resolve("a.bc");
    assert_eq!(resolver.complete(&bytes), Ok(IpAddress::new([93, 184, 216, 34])));
    assert_eq!(resolver.pending, None);
    assert_eq!(resolver.complete(&bytes), Err(DnsError::NoQuery));
}

#[test]
fn answer_without_questions() {
    let bytes = response(7, 0x8000, 0, 1, &answer_record(1, 1, &[1, 2, 3, 4]));
    assert_eq!(DnsResolver::read_answer(7, &bytes), Ok(IpAddress::new([1, 2, 3, 4])));
}

#[test]
fn answer_errors_in_their_order() {
    assert_eq!(DnsResolver::read_answer(7, &[0; 11]), Err(DnsError::TooShort));
    assert_eq!(
        DnsResolver::read_answer(8, &response(7, 0x0000, 1, 0, &[])),
        Err(DnsError::IdMismatch)
    );
    assert_eq!(
        DnsResolver::read_answer(7, &response(7, 0x0103, 1, 0, &[])),
        Err(DnsError::NotResponse)
    );
    assert_eq!(
        DnsResolver::read_answer(7, &response(7, 0x8183, 1, 0, &[])),
        Err(DnsError::ServerError)
    );
    assert_eq!(
        DnsResolver::read_answer(7, &response(7, 0x8180, 1, 0, &good_body())),
        Err(DnsError::NoAnswers)
    );
    assert_eq!(
        DnsResolver::read_answer(7, &response(7, 0x8180, 1, 1, &question())),
        Err(DnsError::Truncated)
    );
    assert_eq!(
        DnsResolver::read_answer(7, &response(7, 0x8180, 1, 1, &[])),
        Err(DnsError::Truncated)
    );
    let mut body = question();
    body.extend_from_slice(&answer_record(5, 1, &[1, 2, 3, 4]));
    assert_eq!(
        DnsResolver::read_answer(7, &response(7, 0x8180, 1, 1, &body)),
        Err(DnsError::NotARecord)
    );
    let mut body = question();
    body.extend_from_slice(&answer_record(1, 3, &[1, 2, 3, 4]));
    assert_eq!(
        DnsResolver::read_answer(7, &response(7, 0x8180, 1, 1, &body)),
        Err(DnsError::NotARecord)
    );
    let mut body = question();
    body.extend_from_slice(&answer_record(1, 1, &[1, 2, 3, 4, 5, 6]));
    assert_eq!(
        DnsResolver::read_answer(7, &response(7, 0x8180, 1, 1, &body)),
        Err(DnsError::BadLength)
    );
    let mut body = good_body();
    body.pop();
    assert_eq!(
        DnsResolver::read_answer(7, &response(7, 0x8180, 1, 1, &body)),
        Err(DnsError::Truncated)
    );
    // more questions announced than the message holds
    assert_eq!(
        DnsResolver::read_answer(7, &response(7, 0x8180, 3, 1, &good_body())),
        Err(DnsError::Truncated)
    );
}

#[test]
fn default_server_is_asked() {
    let (resolver, query) = resolve_hostname("example.com");
    assert_eq!(resolver.server, IpAddress::new([8, 8, 8, 8]));
    assert_eq!(resolver.pending, Some(0));
    assert_eq!(&query[12..20], &[7, b'e', b'x', b'a', b'm', b'p', b'l', b'e']);
}
