use gotatun_throughput::address::{
    parse_ip, AddrParseError, IpAddr, Ipv4Addr, Ipv6Addr, SocketAddr, SocketAddrV6,
};

fn text_of(ip: &IpAddr) -> String {
    match ip {
        IpAddr::V4(ip) => ip.to_text(),
        IpAddr::V6(ip) => ip.to_text(),
    }
}

fn v6(segments: [u16; 8]) -> Ipv6Addr {
    Ipv6Addr { segments }
}

#[test]
fn ipv4_addresses_are_dot_decimal() {
    assert_eq!(Ipv4Addr::new(10, 0, 1, 1).to_text(), "10.0.1.1");
    assert_eq!(Ipv4Addr::new(255, 255, 255, 255).to_text(), "255.255.255.255");
    assert_eq!(parse_ip("10.0.0.1"), Ok(IpAddr::V4(Ipv4Addr::new(10, 0, 0, 1))));
}

#[test]
fn texts_that_are_no_addresses_are_refused() {
    let texts = [
        "", ".", "1", "1.2.3", "1.2.3.4.5", "1.2.3.256", "01.2.3.4", "1.2.3.04", "1..2.3", "1.2.3.",
        "+1.2.3.4", " 1.2.3.4", "1.2.3.4 ", "a.b.c.d", ":", ":::", "1::2::3", "1:2:3:4:5:6:7",
        "1:2:3:4:5:6:7:8:9", "1:2:3:4:5:6:7::8", "::1:2:3:4:5:6:7:8", "12345::", "g::", "::1.2.3",
        "1.2.3.4::", "::1.2.3.4:5", "1:2:3:4:5:6:7:1.2.3.4", "localhost", "[::1]", "::1%1",
    ];
    for text in texts {
        assert_eq!(parse_ip(text), Err(AddrParseError), "{text:?}");
    }
    assert_eq!(AddrParseError.message(), "invalid IP address syntax");
}

#[test]
fn ipv6_addresses_are_read() {
    let cases = [
        ("::", [0, 0, 0, 0, 0, 0, 0, 0]),
        ("::1", [0, 0, 0, 0, 0, 0, 0, 1]),
        ("1::", [1, 0, 0, 0, 0, 0, 0, 0]),
        ("1:2:3:4:5:6:7:8", [1, 2, 3, 4, 5, 6, 7, 8]),
        ("1:2:3:4:5:6:7::", [1, 2, 3, 4, 5, 6, 7, 0]),
        ("::2:3:4:5:6:7:8", [0, 2, 3, 4, 5, 6, 7, 8]),
        ("FE80::00aB", [0xfe80, 0, 0, 0, 0, 0, 0, 0xab]),
        ("::ffff:1.2.3.4", [0, 0, 0, 0, 0, 0xffff, 0x0102, 0x0304]),
        ("1:2:3:4:5:6:7.8.9.10", [1, 2, 3, 4, 5, 6, 0x0708, 0x090a]),
        ("1::7.8.9.10", [1, 0, 0, 0, 0, 0, 0x0708, 0x090a]),
    ];
    for (text, segments) in cases {
        assert_eq!(parse_ip(text), Ok(IpAddr::V6(v6(segments))), "{text:?}");
    }
}

#[test]
fn ipv6_addresses_are_written_short() {
    let cases = [
        ("::", [0, 0, 0, 0, 0, 0, 0, 0]),
        ("::1", [0, 0, 0, 0, 0, 0, 0, 1]),
        ("1::", [1, 0, 0, 0, 0, 0, 0, 0]),
        ("1:2:3:4:5:6:7:8", [1, 2, 3, 4, 5, 6, 7, 8]),
        ("1:0:3:4:5:6:7:8", [1, 0, 3, 4, 5, 6, 7, 8]),
        ("1::4:0:0:7:8", [1, 0, 0, 4, 0, 0, 7, 8]),
        ("1:0:0:4::8", [1, 0, 0, 4, 0, 0, 0, 8]),
        ("::ffff:1.2.3.4", [0, 0, 0, 0, 0, 0xffff, 0x0102, 0x0304]),
        ("::102:304", [0, 0, 0, 0, 0, 0, 0x0102, 0x0304]),
        ("2001:db8::ab:0", [0x2001, 0xdb8, 0, 0, 0, 0, 0xab, 0]),
    ];
    for (text, segments) in cases {
        assert_eq!(v6(segments).to_text(), text);
    }
}

#[test]
fn addresses_are_read_as_the_standard_library_reads_them() {
    let pieces = ["", "0", "1", "ff", "00ab", "12345", "1.2.3.4", "g"];
    let mut texts: Vec<String> = Vec::new();
    for a in pieces {
        for b in pieces {
            texts.push(format!("{a}:{b}"));
            texts.push(format!("{a}::{b}"));
            texts.push(format!("1:2:3:{a}:5:6:7:{b}"));
            texts.push(format!("1:2:3:4:5:{a}:{b}"));
            texts.push(format!("1:2:3:4::{a}:{b}"));
            texts.push(format!("{a}.{b}.3.4"));
            for c in pieces {
                texts.push(format!("{a}::{b}:{c}"));
                texts.push(format!("{a}:{b}::{c}"));
                texts.push(format!("{a}:2:3:4:5:{b}::{c}"));
                texts.push(format!("::2:3:4:{a}:{b}:{c}"));
            }
        }
    }
    for text in texts {
        let theirs = text.parse::<ipnetwork::IpNetwork>().ok().map(|n| n.ip().to_string());
        let ours = parse_ip(&text).ok().map(|ip| text_of(&ip));
        assert_eq!(ours, theirs, "{text:?}");
    }
}

#[test]
fn address_texts_are_read_back() {
    let mut state: u32 = 1;
    for _ in 0..2000 {
        let mut segments = [0u16; 8];
        for segment in segments.iter_mut() {
            state = state.wrapping_mul(1664525).wrapping_add(1013904223);
            *segment = if state >> 30 == 0 { (state >> 8) as u16 } else { 0 };
        }
        let ip = IpAddr::V6(v6(segments));
        assert_eq!(parse_ip(&text_of(&ip)), Ok(ip));
        let [a, b, c, d] = state.to_be_bytes();
        let ip = IpAddr::V4(Ipv4Addr::new(a, b, c, d));
        assert_eq!(parse_ip(&text_of(&ip)), Ok(ip));
    }
}

#[test]
fn socket_addresses_have_a_port() {
    let v4 = IpAddr::V4(Ipv4Addr::new(10, 0, 0, 2));
    assert_eq!(SocketAddr::new(v4, 51821).to_text(), "10.0.0.2:51821");
    let ip = v6([0xfe80, 0, 0, 0, 0, 0, 0, 1]);
    assert_eq!(SocketAddr::new(IpAddr::V6(ip), 80).to_text(), "[fe80::1]:80");
    let scoped = SocketAddr::V6(SocketAddrV6 { ip, port: 80, flowinfo: 5, scope_id: 3 });
    assert_eq!(scoped.to_text(), "[fe80::1%3]:80");
}
