//! Block padding.
use hickory_proto::op::{Edns, Message, MessageType, OpCode, Query};
use hickory_proto::rr::rdata::opt::{ClientSubnet, EdnsCode, EdnsOption};
use hickory_proto::rr::{Name, RecordType};
use hushwarren::message::OptParts;
use hushwarren::padding::{
    pad_dns_query, padded_options, padding_data_len, whole_blocks, zeros, PaddingError, PADDING_BLOCK,
};

fn make_query(name: &str) -> Vec<u8> {
    let qname = Name::from_ascii(name).unwrap();
    let mut q = Query::new();
    q.set_name(qname);
    q.set_query_type(RecordType::A);

    let mut msg = Message::new(0x1234, MessageType::Query, OpCode::Query);
    msg.metadata.recursion_desired = true;
    msg.add_query(q);
    msg.to_vec().unwrap()
}

fn make_valid_qname(target_len: usize) -> String {
    let char_set = b"abcdefghijklmnopqrstuvwxyz";
    let mut name = String::new();
    let mut remaining = target_len;
    let mut idx: usize = 0;

    while remaining > 0 {
        if !name.is_empty() {
            if remaining < 2 {
                break;
            }
            name.push('.');
            remaining -= 1;
        }
        let label_len = remaining.min(63);
        for _ in 0..label_len {
            name.push(char_set[idx % char_set.len()] as char);
            idx += 1;
        }
        remaining = remaining.saturating_sub(label_len);
    }

    if name.is_empty() {
        name.push('a');
    }

    name
}

#[test]
fn padded_length_is_multiple_of_128_across_qname_lengths() {
    for qlen in 1usize..=253 {
        let name = make_valid_qname(qlen);
        let wire = make_query(&name);
        let padded = pad_dns_query(&wire).unwrap();
        assert_eq!(padded.len() % PADDING_BLOCK, 0, "qlen={qlen}");
    }
}

#[test]
fn padding_idempotent() {
    let wire = make_query("example.com");
    let once = pad_dns_query(&wire).unwrap();
    let twice = pad_dns_query(&once).unwrap();
    assert_eq!(once.len() % PADDING_BLOCK, 0);
    assert_eq!(twice.len() % PADDING_BLOCK, 0);
    assert_eq!(once, twice);
}

#[test]
fn padding_with_existing_opt_record() {
    let qname = Name::from_ascii("test.example.com").unwrap();
    let mut q = Query::new();
    q.set_name(qname);
    q.set_query_type(RecordType::A);

    let mut msg = Message::new(0xABCD, MessageType::Query, OpCode::Query);
    msg.metadata.recursion_desired = true;
    msg.add_query(q);
    let mut edns = Edns::new();
    edns.set_max_payload(1232);
    msg.edns = Some(edns);

    let wire = msg.to_vec().unwrap();
    let padded = pad_dns_query(&wire).unwrap();
    assert_eq!(padded.len() % PADDING_BLOCK, 0);
    assert_eq!(Message::from_vec(&padded).unwrap().edns.unwrap().max_payload(), 1232);
}

#[test]
fn padding_replaces_existing_padding_option() {
    let wire = make_query("example.org");
    let once = pad_dns_query(&wire).unwrap();
    let twice = pad_dns_query(&once).unwrap();
    assert_eq!(twice.len() % PADDING_BLOCK, 0);
    let edns = Message::from_vec(&twice).unwrap().edns.unwrap();
    assert_eq!(edns.options().get_all(EdnsCode::Padding).len(), 1);
}

#[test]
fn padded_message_parses_correctly() {
    let wire = make_query("cloudflare.com");
    let padded = pad_dns_query(&wire).unwrap();
    let msg = Message::from_vec(&padded).expect("padded message must parse");
    assert!(!msg.queries.is_empty(), "query section must survive padding");
    assert!(msg.edns.is_some(), "OPT record must be present after padding");
}

#[test]
fn padding_is_zeros_and_announces_its_payload() {
    let wire = make_query("cloudflare.com");
    let padded = pad_dns_query(&wire).unwrap();
    let edns = Message::from_vec(&padded).unwrap().edns.unwrap();
    assert_eq!(edns.max_payload(), 4096);
    assert_eq!(edns.version(), 0);
    // The OPT record takes eleven bytes, and the head of the option four.
    let want = padding_data_len(wire.len() + 11);
    assert_eq!(padded.len(), wire.len() + 11 + 4 + want);
    match edns.option(EdnsCode::Padding) {
        Some(EdnsOption::Unknown(12, data)) => assert_eq!(data, &zeros(want)),
        other => panic!("expected padding, got {other:?}"),
    }
}

#[test]
fn padding_lengths() {
    assert_eq!(padding_data_len(0), 124);
    assert_eq!(padding_data_len(124), 0);
    assert_eq!(padding_data_len(125), 127);
    assert_eq!(zeros(3), vec![0, 0, 0]);
}

#[test]
fn what_is_no_message_is_refused() {
    let e = pad_dns_query(&[1, 2, 3]).unwrap_err();
    assert!(e.message().starts_with("padding build error: parse: "));
}

#[test]
fn uneven_messages_are_refused() {
    assert_eq!(whole_blocks(vec![0; 256]).unwrap().len(), 256);
    let e = whole_blocks(vec![0; 100]).unwrap_err();
    assert!(matches!(e, PaddingError::Invariant { len: 100, block: 128 }));
    assert_eq!(e.message(), "padding invariant violated: len=100 block=128");
}

#[test]
fn huge_query_leaves_no_room() {
    let mut msg = Message::new(1, MessageType::Query, OpCode::Query);
    let mut edns = Edns::new();
    edns.options_mut().insert(EdnsOption::Unknown(65001, vec![1; 65_500]));
    msg.edns = Some(edns);
    let wire = msg.to_vec().unwrap();
    assert!(pad_dns_query(&wire).is_err());
}

#[test]
fn padding_is_replaced_and_not_stacked() {
    let opt = padded_options(None, None);
    assert_eq!((opt.max_payload, opt.version, opt.flags), (4096, 0, 0));
    assert!(opt.options.is_empty());
    let opt = OptParts {
        max_payload: 1232,
        version: 0,
        flags: 0x8000,
        options: vec![(12, vec![0; 7]), (65001, vec![1]), (12, vec![])],
    };
    let padded = padded_options(Some(opt), Some(vec![0, 0]));
    assert_eq!((padded.max_payload, padded.flags), (1232, 0x8000));
    assert_eq!(padded.options, vec![(65001, vec![1]), (12, vec![0, 0])]);
    assert_eq!(padded_options(Some(padded), None).options, vec![(65001, vec![1])]);
}

#[test]
fn options_of_every_kind_survive_padding() {
    let mut msg = Message::new(7, MessageType::Query, OpCode::Query);
    let mut q = Query::new();
    q.set_name(Name::from_ascii("Survives.Example.").unwrap());
    q.set_query_type(RecordType::AAAA);
    msg.add_query(q);
    let mut edns = Edns::new();
    edns.set_max_payload(1400);
    edns.set_dnssec_ok(true);
    let subnet = ClientSubnet::new("192.0.2.0".parse().unwrap(), 24, 0);
    edns.options_mut().insert(EdnsOption::Subnet(subnet));
    edns.options_mut().insert(EdnsOption::Unknown(65001, vec![9, 8, 7]));
    edns.options_mut().insert(EdnsOption::Unknown(12, vec![0; 50]));
    msg.edns = Some(edns);
    let wire = msg.to_vec().unwrap();
    let padded = pad_dns_query(&wire).unwrap();
    let read = Message::from_vec(&padded).unwrap();
    assert_eq!(read.queries, msg.queries);
    assert_eq!(read.metadata, msg.metadata);
    let opt = read.edns.unwrap();
    assert_eq!(opt.max_payload(), 1400);
    assert!(opt.flags().dnssec_ok);
    assert_eq!(opt.option(EdnsCode::Subnet), Some(&EdnsOption::Subnet(subnet)));
    let own = opt.option(EdnsCode::Unknown(65001));
    assert_eq!(own, Some(&EdnsOption::Unknown(65001, vec![9, 8, 7])));
    assert_eq!(opt.options().get_all(EdnsCode::Padding).len(), 1);
    assert_eq!(pad_dns_query(&padded).unwrap(), padded);
}

/// A query with records: the flags, and for each record its section, its type and its data.
fn wire_with(flags: u16, records: &[(usize, u16, Vec<u8>)]) -> Vec<u8> {
    let mut counts = [1u16, 0, 0, 0];
    for (section, _, _) in records {
        counts[*section] += 1;
    }
    let mut wire = vec![0x12, 0x34];
    wire.extend_from_slice(&flags.to_be_bytes());
    for n in counts {
        wire.extend_from_slice(&n.to_be_bytes());
    }
    wire.extend_from_slice(b"\x04Mail\x07example\x00\x00\x01\x00\x01");
    for at in 1..=3 {
        for (_, kind, data) in records.iter().filter(|(section, _, _)| *section == at) {
            wire.extend_from_slice(&[0xC0, 12]);
            wire.extend_from_slice(&kind.to_be_bytes());
            wire.extend_from_slice(&[0, 1, 0, 0, 0, 60]);
            wire.extend_from_slice(&(data.len() as u16).to_be_bytes());
            wire.extend_from_slice(data);
        }
    }
    wire
}

fn counts_of(wire: &[u8]) -> Vec<u8> {
    wire[4..12].to_vec()
}

#[test]
fn records_of_every_type_survive_padding() {
    let pointer = vec![0xC0u8, 17];
    let after = |head: &[u8], tail: &[u8]| [head, &[2, b'n', b's', 0xC0, 17], tail].concat();
    let records = vec![
        (1, 1, vec![192, 0, 2, 1]),
        (1, 28, vec![0x20; 16]),
        (1, 5, pointer.clone()),
        (1, 12, after(&[], &[])),
        (1, 15, after(&[0, 10], &[])),
        (1, 16, b"\x03abc\x00\x02xy".to_vec()),
        (1, 33, after(&[0, 1, 0, 2, 0, 53], &[])),
        (1, 35, [b"\x00\x01\x00\x02\x01u\x03abc\x00".to_vec(), pointer.clone()].concat()),
        (1, 13, b"\x03cpu\x02os".to_vec()),
        (1, 257, b"\x80\x05issueca.example".to_vec()),
        (1, 65, b"\x00\x01\x00\x00\x01\x00\x03\x02h2\x00\x03\x00\x02\x01\xbb".to_vec()),
        (1, 64, b"\x00\x01\x00\x00\x03\x00\x04\x01\xbb\x00\x00".to_vec()),
        (1, 52, vec![3, 1, 1, 9, 9, 9]),
        (1, 53, vec![3, 1, 1, 9, 9, 9]),
        (1, 44, vec![4, 2, 7, 7]),
        (1, 37, vec![0, 1, 0, 2, 8, 5]),
        (1, 61, vec![1, 2, 3]),
        (1, 62, vec![0, 0, 0, 1, 0xFF, 3, 0, 1, 0x60]),
        (1, 10, vec![0, 1, 2]),
        (1, 39, pointer.clone()),
        (1, 46, vec![5; 30]),
        (1, 65280, vec![1]),
        (2, 2, after(&[], &[])),
        (2, 6, after(&pointer, &[1; 20])),
        (3, 24, vec![6; 25]),
        (3, 250, [b"\x0bHMAC-SHA256\x00".to_vec(), vec![0; 8], vec![0, 2, 8, 8, 1, 2, 0, 16, 0, 0]].concat()),
    ];
    for with_tc in [0x0100u16, 0x0300] {
        for r in &records {
            let wire = wire_with(with_tc, std::slice::from_ref(r));
            check_settled(&wire);
        }
        check_settled(&wire_with(with_tc, &records));
    }
}

/// Pads a query of which nothing has to be cut off, and holds the result against it.
fn check_settled(wire: &[u8]) {
    let asked = Message::from_vec(wire).unwrap();
    let padded = pad_dns_query(wire).unwrap();
    let read = Message::from_vec(&padded).unwrap();
    assert_eq!(padded.len() % PADDING_BLOCK, 0);
    assert_eq!(read.queries, asked.queries);
    assert_eq!(read.metadata, asked.metadata);
    assert_eq!(read.answers, asked.answers);
    assert_eq!(read.authorities, asked.authorities);
    assert_eq!(read.additionals, asked.additionals);
    let mut counts = counts_of(wire);
    counts[7] += 1;
    assert_eq!(counts_of(&padded), counts);
    let mut bare = asked.clone();
    let mut edns = Edns::new();
    edns.set_max_payload(4096);
    bare.edns = Some(edns);
    assert!(padded.len() < bare.to_vec().unwrap().len() + 4 + PADDING_BLOCK);
    assert_eq!(pad_dns_query(&padded).unwrap(), padded);
}

#[test]
fn queries_are_padded_up_to_the_last_whole_block() {
    // Twelve bytes of head, eighteen of question, twelve of record and eleven of OPT record.
    let whole = wire_with(0x0100, &[(1, 10, vec![7; 65404 - 12 - 18 - 12 - 11])]);
    let padded = pad_dns_query(&whole).unwrap();
    assert_eq!(padded.len(), 65408);
    assert_eq!(pad_dns_query(&padded).unwrap(), padded);
    let over = wire_with(0x0100, &[(1, 10, vec![7; 65405 - 12 - 18 - 12 - 11])]);
    match pad_dns_query(&over) {
        Ok(p) => assert_ne!(counts_of(&p)[7], 1),
        Err(e) => assert!(matches!(e, PaddingError::Invariant { block: PADDING_BLOCK, .. })),
    }
}
