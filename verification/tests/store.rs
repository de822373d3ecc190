use pvaccess::error::DecodeError;
use pvaccess::msgpack::{ChannelStore, Header, MsgError, MsgType, WithMsgPackRedis};
use pvaccess::wire::{
    bytes_eq, is_short_text, map_ipv4, put_string, put_u16, put_u32, read_string, read_u16,
    read_u32, read_u32_pair, text_eq, unmap_ipv4, write_u32_pair,
};

#[test]
fn wire_integers_in_both_byte_orders() {
    let mut out = Vec::new();
    put_u16(&mut out, 0x1234, true);
    put_u16(&mut out, 0x1234, false);
    put_u32(&mut out, 0xDEADBEEF, true);
    put_u32(&mut out, 0xDEADBEEF, false);
    assert_eq!(out, vec![0x12, 0x34, 0x34, 0x12, 0xDE, 0xAD, 0xBE, 0xEF, 0xEF, 0xBE, 0xAD, 0xDE]);
    assert_eq!(read_u16(&out, 0, true), Ok((0x1234, 2)));
    assert_eq!(read_u16(&out, 2, false), Ok((0x1234, 4)));
    assert_eq!(read_u32(&out, 4, true), Ok((0xDEADBEEF, 8)));
    assert_eq!(read_u32(&out, 8, false), Ok((0xDEADBEEF, 12)));
    assert_eq!(read_u32(&out, 9, false), Err(DecodeError::Truncated));
    assert_eq!(read_u16(&out, 11, true), Err(DecodeError::Truncated));
    assert_eq!(read_u16(&out, 0, false), Ok((0x3412, 2)));
    assert_eq!(write_u32_pair(1, 2, false), vec![1, 0, 0, 0, 2, 0, 0, 0]);
    assert_eq!(read_u32_pair(&[1, 0, 0, 0, 2, 0, 0, 0], false), Ok((1, 2)));
}

#[test]
fn wire_strings() {
    let mut out = Vec::new();
    put_string(&mut out, "grüß");
    assert_eq!(out, vec![6, b'g', b'r', 0xC3, 0xBC, 0xC3, 0x9F]);
    assert_eq!(read_string(&out, 0), Ok(("grüß".to_string(), 7)));
    assert_eq!(read_string(&out[..4], 0), Err(DecodeError::Truncated));
    assert_eq!(read_string(&[2, 0xC3, 0x28], 0), Err(DecodeError::MalformedString));
    assert_eq!(read_string(&[0], 0), Ok((String::new(), 1)));
    assert!(is_short_text(&"a".repeat(255)));
    assert!(!is_short_text(&"a".repeat(256)));
    assert!(!is_short_text(&"ü".repeat(128)));
    assert!(text_eq("abc", "abc"));
    assert!(!text_eq("abc", "abd"));
    assert!(!text_eq("abc", "ab"));
    assert!(bytes_eq(&[], &[]));
    assert!(!bytes_eq(&[1], &[2]));
}

#[test]
fn wire_ipv4_in_ipv6() {
    let mapped = map_ipv4([192, 168, 1, 1]);
    assert_eq!(mapped, [0, 0, 0, 0, 0, 0, 0, 0, 0, 0, 0xFF, 0xFF, 192, 168, 1, 1]);
    assert_eq!(unmap_ipv4(&mapped), Some([192, 168, 1, 1]));
    let mut other = mapped;
    other[0] = 1;
    assert_eq!(unmap_ipv4(&other), None);
    let mut other = mapped;
    other[10] = 0;
    assert_eq!(unmap_ipv4(&other), None);
    let mut other = mapped;
    other[9] = 1;
    assert_eq!(unmap_ipv4(&other), None);
}

#[test]
fn text_header() {
    let h = Header::new(1, 2, 3);
    assert_eq!((h.version, h.msg_type, h.msg_size), (1, 2, 3));
    let h = Header::from_bytes(&[1, 2, 0, 0, 1, 0, 99]);
    assert_eq!(h, Header::new(1, 2, 256));
    assert_eq!(Header::parse(&[1, 2, 0, 0, 1]), None);
    assert_eq!(Header::parse(&[1, 2, 0xFF, 0, 0, 1]), Some(Header::new(1, 2, 0xFF00_0001)));
    let r = WithMsgPackRedis;
    assert_eq!(r.process_bytes(&[1, 0, 0, 0, 0, 0]), Ok(MsgType::Echo));
    assert_eq!(r.process_bytes(&[1, 1, 0, 0, 0, 0, 5]), Ok(MsgType::ConnectionValidation));
    assert_eq!(r.process_bytes(&[1, 2, 0, 0, 0, 0]), Ok(MsgType::Chat));
    assert_eq!(r.process_bytes(&[1, 3, 0, 0, 0, 0]), Err(MsgError::UnknownType));
    assert_eq!(r.process_bytes(&[1, 0, 0]), Err(MsgError::ShortHeader));
}

#[test]
fn store_channels() {
    let mut s = ChannelStore::new();
    assert!(s.create_channel("a", "{}".to_string()));
    assert!(!s.create_channel("a", "other".to_string()));
    assert!(s.create_channel("b", "[]".to_string()));
    assert_eq!(s.len(), 2);
    assert_eq!(s.get_channel_schema("a"), Some("{}".to_string()));
    assert_eq!(s.get_channel_schema("c"), None);
    assert!(s.put_message("a", "one".to_string()));
    assert!(s.put_message("a", "two".to_string()));
    assert!(s.put_message("a", "three".to_string()));
    assert!(!s.put_message("c", "x".to_string()));
    assert_eq!(s.get_messages("a", 2), vec!["one".to_string(), "two".to_string()]);
    assert_eq!(s.get_messages("a", 10).len(), 3);
    assert!(s.get_messages("b", 10).is_empty());
    assert!(s.get_messages("c", 10).is_empty());
    assert!(s.delete_channel("a"));
    assert!(!s.delete_channel("a"));
    assert_eq!(s.len(), 1);
}

#[test]
fn store_search_reads_names_as_patterns() {
    let mut s = ChannelStore::new();
    s.create_channel("temp.*", String::new());
    s.create_channel("^pressure$", String::new());
    s.create_channel("e", String::new());
    assert!(s.can_search("temperature"));
    assert_eq!(
        s.search_channels("temperature"),
        vec!["temp.*".to_string(), "e".to_string()]
    );
    assert_eq!(
        s.try_search_channels("pressure"),
        Some(vec!["^pressure$".to_string(), "e".to_string()])
    );
    assert_eq!(s.try_search_channels("zzz"), Some(vec![]));
    s.create_channel("(", String::new());
    assert!(!s.can_search("temperature"));
    assert_eq!(s.try_search_channels("temperature"), None);
}
