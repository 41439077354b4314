use dbus_marshal::address::{to_decimal, ServerAddress, TcpSocketAddr, UnixDomainSocketAddr};

#[test]
fn unix_address_with_all_keys() {
    let a = UnixDomainSocketAddr {
        path: Some("/run/bus".to_string()),
        tmpdir: Some("/tmp".to_string()),
        abstract_name: Some("/abs".to_string()),
        runtime: Some("yes".to_string()),
    };
    assert_eq!(a.to_address(), "unix:path=/run/bus;tmpdir=/tmp;abstract=/abs;runtime=yes");
}

#[test]
fn unix_address_skips_absent_keys() {
    let a = UnixDomainSocketAddr { path: None, tmpdir: Some("/tmp".to_string()), abstract_name: None, runtime: None };
    assert_eq!(a.to_address(), "unix:tmpdir=/tmp");
    let b = UnixDomainSocketAddr { path: None, tmpdir: None, abstract_name: None, runtime: None };
    assert_eq!(b.to_address(), "unix:");
}

#[test]
fn tcp_address() {
    let a = TcpSocketAddr {
        host: Some("localhost".to_string()),
        bind: Some("*".to_string()),
        port: Some(55556),
        family: Some("ipv4".to_string()),
    };
    assert_eq!(a.to_address(), "tcp:host=localhost;bind=*;port=55556;family=ipv4");
    let b = TcpSocketAddr { host: None, bind: None, port: Some(0), family: None };
    assert_eq!(b.to_address(), "tcp:port=0");
}

#[test]
fn decimal_text() {
    assert_eq!(to_decimal(0), "0");
    assert_eq!(to_decimal(7), "7");
    assert_eq!(to_decimal(10), "10");
    assert_eq!(to_decimal(65535), "65535");
}
