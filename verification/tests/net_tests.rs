use localcoder::net::{read_address, IpAddress};

const CASES: [(&str, Option<(&str, u16)>); 43] = [
    ("127.0.0.1:80", Some(("127.0.0.1", 80))),
    ("127.0.0.1", None),
    ("127.0.0.1:", None),
    ("127.0.0.1:65536", None),
    ("127.0.0.1:00080", Some(("127.0.0.1", 80))),
    ("01.2.3.4:5", None),
    ("1.2.3:4", None),
    ("1.2.3.4.5:6", None),
    ("256.1.1.1:1", None),
    ("1.2.3.4:+5", None),
    (" 1.2.3.4:5", None),
    ("localhost:80", None),
    ("0.0.0.0:0", Some(("0.0.0.0", 0))),
    ("255.255.255.255:65535", Some(("255.255.255.255", 65535))),
    ("[::]:0", Some(("::", 0))),
    ("[::1]:80", Some(("::1", 80))),
    ("[::1]", None),
    ("[::1]80", None),
    ("[1::8]:1", Some(("1::8", 1))),
    ("[1:2:3:4:5:6:7:8]:1", Some(("1:2:3:4:5:6:7:8", 1))),
    ("[1:2:3:4:5:6:7:8:9]:1", None),
    ("[1:2:3:4:5:6:7::]:1", Some(("1:2:3:4:5:6:7:0", 1))),
    ("[::2:3:4:5:6:7:8]:1", Some(("0:2:3:4:5:6:7:8", 1))),
    ("[1::2::3]:1", None),
    ("[12345::]:1", None),
    ("[::ffff:1.2.3.4]:1", Some(("::ffff:1.2.3.4", 1))),
    ("[::1.2.3.4]:1", Some(("::102:304", 1))),
    ("[1:2:3:4:5:6:1.2.3.4]:1", Some(("1:2:3:4:5:6:102:304", 1))),
    ("[1:2:3:4:5:6:7:1.2.3.4]:1", None),
    ("[::1.2.3]:1", None),
    ("[fe80::1%12]:1", Some(("fe80::1", 1))),
    ("[fe80::1%]:1", None),
    ("[fe80::1%4294967296]:1", None),
    ("[FFFF::ABCD]:1", Some(("ffff::abcd", 1))),
    ("[g::]:1", None),
    ("::1:80", None),
    ("[0:0:1:0:0:0:1:0]:7", Some(("0:0:1::1:0", 7))),
    ("[1:0:0:2:0:0:0:0]:7", Some(("1:0:0:2::", 7))),
    ("[1:0:0:2:0:0:3:4]:7", Some(("1::2:0:0:3:4", 7))),
    ("[::ffff:0:0]:7", Some(("::ffff:0.0.0.0", 7))),
    ("[0001::]:7", Some(("1::", 7))),
    ("", None),
    ("[", None),
];

#[test]
fn addresses_are_read_and_written() {
    for (text, expected) in CASES {
        let found = read_address(text).map(|address| (address.ip.to_text(), address.port));
        let expected = expected.map(|(ip, port)| (ip.to_string(), port));
        assert_eq!(found, expected, "{text}");
    }
}

#[test]
fn written_addresses_are_read_again() {
    for (_, expected) in CASES {
        if let Some((ip, port)) = expected {
            let text = if ip.contains(':') {
                format!("[{ip}]:{port}")
            } else {
                format!("{ip}:{port}")
            };
            let again = read_address(&text).unwrap();
            assert_eq!(again.ip.to_text(), ip);
            assert_eq!(again.port, port);
        }
    }
}

#[test]
fn parts_of_an_address() {
    let dotted = read_address("1.2.3.4:5").unwrap();
    assert!(matches!(dotted.ip, IpAddress::V4(1, 2, 3, 4)));
}
