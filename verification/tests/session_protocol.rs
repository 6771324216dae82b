//! Tests of the ticket codec, the wire envelope, the resolver and the
//! session bootstrap.

use ferrischat::error::DecodeError;
use ferrischat::message::Message;
use ferrischat::message::MessageBody;
use ferrischat::peer::PeerId;
use ferrischat::reception::Rendered;
use ferrischat::reception::Resolver;
use ferrischat::reception::short_hex_of;
use ferrischat::session::Session;
use ferrischat::ticket::Ticket;

fn pid(fill: u8) -> PeerId {
    PeerId::new(vec![fill; 32])
}

#[test]
fn ticket_round_trip_two_endpoints() {
    let topic: Vec<u8> = (0..32).collect();
    let ticket = Ticket { topic: topic.clone(), endpoints: vec![pid(7), pid(9)] };
    let token = ticket.to_token();
    let back = Ticket::from_token(token.as_str()).unwrap();
    assert_eq!(back.topic, topic);
    assert_eq!(back.endpoints.len(), 2);
    assert_eq!(back.endpoints[0].bytes, vec![7u8; 32]);
    assert_eq!(back.endpoints[1].bytes, vec![9u8; 32]);
}

#[test]
fn ticket_round_trip_no_endpoints() {
    let topic = vec![0xabu8; 32];
    let ticket = Ticket { topic: topic.clone(), endpoints: vec![] };
    let back = Ticket::from_token(ticket.to_token().as_str()).unwrap();
    assert_eq!(back.topic, topic);
    assert_eq!(back.endpoints.len(), 0);
}

#[test]
fn ticket_token_is_lowercase_base32() {
    let ticket = Ticket { topic: vec![0x5au8; 32], endpoints: vec![pid(1)] };
    let token = ticket.to_token();
    assert!(!token.is_empty());
    for c in token.chars() {
        assert!(c.is_ascii_lowercase() || ('2'..='7').contains(&c), "bad char {c}");
    }
}

#[test]
fn ticket_decode_is_case_insensitive() {
    let ticket = Ticket { topic: vec![3u8; 32], endpoints: vec![pid(4)] };
    let upper = ticket.to_token().to_ascii_uppercase();
    let back = Ticket::from_token(upper.as_str()).unwrap();
    assert_eq!(back.topic, vec![3u8; 32]);
}

#[test]
fn ticket_decode_rejects_bad_alphabet() {
    assert!(matches!(Ticket::from_token("a1!zzz"), Err(DecodeError::Base32)));
    assert!(matches!(Ticket::from_token("0189"), Err(DecodeError::Base32)));
}

#[test]
fn ticket_decode_rejects_wrong_shape() {
    // Eight valid symbols decode to five bytes: far short of a topic.
    assert!(matches!(Ticket::from_token("aaaaaaaa"), Err(DecodeError::Structure)));
    // 56 symbols decode to 35 bytes: not 32 plus whole 32-byte records.
    let t = "a".repeat(56);
    assert!(matches!(Ticket::from_token(t.as_str()), Err(DecodeError::Structure)));
}

#[test]
fn message_round_trip_about_me() {
    let m = Message::new(MessageBody::AboutMe { from: pid(5), name: String::from("alice") });
    let wire = m.to_vec();
    let back = Message::from_bytes(&wire).unwrap();
    match back.body {
        MessageBody::AboutMe { from, name } => {
            assert_eq!(from.bytes, vec![5u8; 32]);
            assert_eq!(name, "alice");
        },
        _ => panic!("wrong variant"),
    }
}

#[test]
fn message_round_trip_chat_unicode() {
    let text = String::from("griaß di — зд😀");
    let m = Message::new(MessageBody::Message { from: pid(0xee), text: text.clone() });
    let back = Message::from_bytes(&m.to_vec()).unwrap();
    match back.body {
        MessageBody::Message { from, text: t } => {
            assert_eq!(from.bytes, vec![0xeeu8; 32]);
            assert_eq!(t, text);
        },
        _ => panic!("wrong variant"),
    }
}

#[test]
fn message_decode_rejects_truncated_and_bad_tag() {
    assert!(Message::from_bytes(&vec![1u8; 10]).is_err());
    let mut wire = Message::new(MessageBody::Message { from: pid(1), text: String::from("x") })
        .to_vec();
    wire[0] = 9;
    assert!(matches!(Message::from_bytes(&wire), Err(DecodeError::Structure)));
}

#[test]
fn message_decode_rejects_bad_utf8() {
    let mut wire = vec![2u8];
    wire.extend_from_slice(&[0u8; 32]);
    wire.extend_from_slice(&[0xff, 0xfe]);
    assert!(matches!(Message::from_bytes(&wire), Err(DecodeError::Utf8)));
}

#[test]
fn resolver_attributes_after_about_me() {
    let mut resolver = Resolver::new();
    let p = pid(0x12);
    let about = Message::new(MessageBody::AboutMe {
        from: PeerId::new(p.bytes.clone()),
        name: String::from("alice"),
    });
    match resolver.handle_frame(&about.to_vec()) {
        Rendered::Announced { peer, name } => {
            assert_eq!(peer, p.bytes);
            assert_eq!(name, "alice");
        },
        _ => panic!("expected announcement"),
    }
    let chat = Message::new(MessageBody::Message {
        from: PeerId::new(p.bytes.clone()),
        text: String::from("hi"),
    });
    match resolver.handle_frame(&chat.to_vec()) {
        Rendered::Chat { name, text } => {
            assert_eq!(name, "alice");
            assert_eq!(text, "hi");
        },
        _ => panic!("expected chat line"),
    }
}

#[test]
fn resolver_falls_back_before_about_me() {
    let mut resolver = Resolver::new();
    let bytes: Vec<u8> = vec![0x12, 0x34, 0x56, 0x78, 0x90, 0, 0, 0, 0, 0, 0, 0, 0, 0, 0, 0, 0, 0,
        0, 0, 0, 0, 0, 0, 0, 0, 0, 0, 0, 0, 0, 0];
    let chat = Message::new(MessageBody::Message {
        from: PeerId::new(bytes.clone()),
        text: String::from("hi"),
    });
    match resolver.handle_frame(&chat.to_vec()) {
        Rendered::Chat { name, text } => {
            assert_eq!(name, "1234567890");
            assert!(!name.is_empty());
            assert_eq!(text, "hi");
        },
        _ => panic!("expected chat line"),
    }
}

#[test]
fn resolver_overwrites_on_second_about_me() {
    let mut resolver = Resolver::new();
    let about = |name: &str| {
        Message::new(MessageBody::AboutMe { from: pid(3), name: String::from(name) }).to_vec()
    };
    resolver.handle_frame(&about("alice"));
    resolver.handle_frame(&about("alicia"));
    let chat = Message::new(MessageBody::Message { from: pid(3), text: String::from("yo") });
    match resolver.handle_frame(&chat.to_vec()) {
        Rendered::Chat { name, .. } => assert_eq!(name, "alicia"),
        _ => panic!("expected chat line"),
    }
}

#[test]
fn resolver_survives_malformed_frame() {
    let mut resolver = Resolver::new();
    match resolver.handle_frame(&vec![0xde, 0xad]) {
        Rendered::Malformed => {},
        _ => panic!("expected malformed"),
    }
    // The session goes on: a later good frame still works.
    let about = Message::new(MessageBody::AboutMe { from: pid(1), name: String::from("bob") });
    match resolver.handle_frame(&about.to_vec()) {
        Rendered::Announced { name, .. } => assert_eq!(name, "bob"),
        _ => panic!("expected announcement"),
    }
}

#[test]
fn short_hex_renders_first_five_bytes() {
    let bytes = vec![0xde, 0xad, 0xbe, 0xef, 0x01, 0xff, 0xff, 0xff];
    assert_eq!(short_hex_of(&bytes), "deadbeef01");
}

#[test]
fn session_announces_then_chats() {
    let mut session = Session::new(pid(8), String::from("alice"));
    let announce = session.announce_frame();
    match Message::from_bytes(&announce).unwrap().body {
        MessageBody::AboutMe { from, name } => {
            assert_eq!(from.bytes, vec![8u8; 32]);
            assert_eq!(name, "alice");
        },
        _ => panic!("bootstrap frame must announce"),
    }
    let chat = session.chat_frame(String::from("hello"));
    match Message::from_bytes(&chat).unwrap().body {
        MessageBody::Message { from, text } => {
            assert_eq!(from.bytes, vec![8u8; 32]);
            assert_eq!(text, "hello");
        },
        _ => panic!("chat frame must be a message"),
    }
}
