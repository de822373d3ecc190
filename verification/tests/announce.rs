use pvaccess::announce::{
    announcement, is_space, server_address, Client, ClientDefaults, DEFAULT_BUFFER_SIZE,
    WORD_LENGTH,
};

fn defaults() -> ClientDefaults {
    ClientDefaults {
        udp_port: Some(5000),
        tcp_port: Some(8000),
        buffer_size: Some(2048),
        server_addr: None,
        udp_bind_addr: None,
    }
}

/// What the standard library makes of the same text.
fn by_std(text: &str) -> Option<String> {
    if text.starts_with("DISCOVER_SERVER:") {
        Some(text.replace("DISCOVER_SERVER:", "").trim().to_string())
    } else {
        None
    }
}

#[test]
fn announcement_names_the_address() {
    assert_eq!(WORD_LENGTH, "DISCOVER_SERVER:".chars().count());
    assert_eq!(announcement("127.0.0.1:8000"), "DISCOVER_SERVER:127.0.0.1:8000");
    assert_eq!(announcement(""), "DISCOVER_SERVER:");
    assert_eq!(
        server_address("DISCOVER_SERVER:127.0.0.1:8000"),
        Some("127.0.0.1:8000".to_string())
    );
    assert_eq!(
        server_address(&announcement("[::1]:9000")),
        Some("[::1]:9000".to_string())
    );
}

#[test]
fn other_text_is_no_announcement() {
    assert_eq!(server_address(""), None);
    assert_eq!(server_address("HELLO"), None);
    assert_eq!(server_address("DISCOVER_SERVER"), None);
    assert_eq!(server_address(" DISCOVER_SERVER:127.0.0.1:8000"), None);
    assert_eq!(server_address("discover_server:127.0.0.1:8000"), None);
    assert_eq!(server_address("127.0.0.1:8000 DISCOVER_SERVER:"), None);
}

#[test]
fn announced_address_is_trimmed() {
    assert_eq!(server_address("DISCOVER_SERVER:"), Some(String::new()));
    assert_eq!(server_address("DISCOVER_SERVER: \t\r\n"), Some(String::new()));
    assert_eq!(
        server_address("DISCOVER_SERVER:  10.0.0.1:8000\r\n"),
        Some("10.0.0.1:8000".to_string())
    );
    assert_eq!(
        server_address("DISCOVER_SERVER:\u{3000}host name:1\u{2028}\u{A0}"),
        Some("host name:1".to_string())
    );
    assert_eq!(
        server_address("DISCOVER_SERVER:\u{200B}a\u{200B}"),
        Some("\u{200B}a\u{200B}".to_string())
    );
}

#[test]
fn announcement_word_is_left_out_wherever_it_stands() {
    assert_eq!(
        server_address("DISCOVER_SERVER:DISCOVER_SERVER:a"),
        Some("a".to_string())
    );
    assert_eq!(
        server_address("DISCOVER_SERVER: a DISCOVER_SERVER:b "),
        Some("a b".to_string())
    );
    assert_eq!(
        server_address("DISCOVER_SERVER:DISCOVER_DISCOVER_SERVER:x"),
        Some("DISCOVER_x".to_string())
    );
    assert_eq!(
        server_address("DISCOVER_SERVER:é:1 DISCOVER_SERVER: "),
        Some("é:1".to_string())
    );
}

#[test]
fn announced_address_is_what_the_standard_library_gives() {
    let texts = [
        "",
        "D",
        "DISCOVER_SERVER:",
        "DISCOVER_SERVER:127.0.0.1:8000",
        "DISCOVER_SERVER:  x  ",
        "DISCOVER_SERVER:DISCOVER_SERVER:",
        "DISCOVER_SERVER:DISCOVER_SERVERDISCOVER_SERVER::",
        "DISCOVER_SERVER:DDISCOVER_SERVER:ISCOVER_SERVER:",
        "DISCOVER_SERVER:\u{85}\u{1680}a\u{202F}\u{205F}",
        "DISCOVER_SERVER:\u{2000}\u{200A}b\u{2029}\u{0B}\u{0C}",
        "DISCOVER_SERVER:\u{1F}c\u{1F}",
        "DISCOVER_SERVER: DISCOVER_SERVER: ",
        "xDISCOVER_SERVER:1",
        "DISCOVER_SERVER;1",
    ];
    for text in texts {
        assert_eq!(server_address(text), by_std(text), "{text:?}");
    }
}

#[test]
fn white_space_is_what_the_standard_library_calls_so() {
    for code in 0..=0x10FFFFu32 {
        if let Some(c) = char::from_u32(code) {
            assert_eq!(is_space(c), c.is_whitespace(), "{code:#x}");
        }
    }
}

#[test]
fn client_takes_arguments_before_the_configuration() {
    let c = Client::new(None, None, None, None, None, defaults());
    assert_eq!(c.udp_port, 5000);
    assert_eq!(c.tcp_port, 8000);
    assert_eq!(c.buffer_size, 2048);
    assert_eq!(c.server_addr, None);
    assert_eq!(c.udp_bind_addr, "0.0.0.0:0");
    let mut configured = defaults();
    configured.buffer_size = None;
    configured.server_addr = Some("10.0.0.1:8000".to_string());
    configured.udp_bind_addr = Some("127.0.0.1".to_string());
    let c = Client::new(None, None, None, None, None, configured.clone());
    assert_eq!(c.buffer_size, DEFAULT_BUFFER_SIZE);
    assert_eq!(c.buffer_size, 1024);
    assert_eq!(c.server_addr, Some("10.0.0.1:8000".to_string()));
    assert_eq!(c.udp_bind_addr, "127.0.0.1");
    configured.udp_port = None;
    configured.tcp_port = None;
    let c = Client::new(
        Some(1),
        Some(2),
        Some(3),
        Some("a:1".to_string()),
        Some("b".to_string()),
        configured,
    );
    assert_eq!(
        c,
        Client {
            udp_port: 1,
            tcp_port: 2,
            buffer_size: 3,
            server_addr: Some("a:1".to_string()),
            udp_bind_addr: "b".to_string(),
        }
    );
}

#[test]
fn client_keeps_the_announced_address() {
    let mut c = Client::new(None, None, None, None, None, defaults());
    assert_eq!(c.on_datagram("HELLO"), None);
    assert_eq!(c.server_addr, None);
    assert_eq!(
        c.on_datagram("DISCOVER_SERVER:127.0.0.1:8000"),
        Some("127.0.0.1:8000".to_string())
    );
    assert_eq!(c.server_addr, Some("127.0.0.1:8000".to_string()));
    assert_eq!(c.on_datagram("noise"), None);
    assert_eq!(c.server_addr, Some("127.0.0.1:8000".to_string()));
    assert_eq!(
        c.on_datagram("DISCOVER_SERVER:10.0.0.2:9000\n"),
        Some("10.0.0.2:9000".to_string())
    );
    assert_eq!(c.server_addr, Some("10.0.0.2:9000".to_string()));
    assert_eq!(c.udp_port, 5000);
    assert_eq!(c.udp_bind_addr, "0.0.0.0:0");
}
