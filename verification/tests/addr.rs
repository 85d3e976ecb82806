use cfst::addr::{Family, SocketAddr};
use cfst::common::PingData;
use cfst::single::Single;

#[test]
fn addresses_with_and_without_a_port() {
    for (family, ip, port, text) in [
        (Family::V4, "1.1.1.1", 443, "1.1.1.1:443"),
        (Family::V6 { scope_id: 0 }, "2606:4700::1111", 80, "[2606:4700::1111]:80"),
        (Family::V6 { scope_id: 7 }, "fe80::1", 0, "[fe80::1%7]:0"),
        (Family::V6 { scope_id: 0 }, "::", 65535, "[::]:65535"),
    ] {
        let addr = SocketAddr { family, ip: ip.to_owned(), port };
        assert_eq!(addr.to_text(), text);
        let data = PingData::new(addr.clone(), 4, 4, Single::zero());
        assert_eq!(data.display_addr(true), text);
        assert_eq!(data.display_addr(false), ip);
    }
}
