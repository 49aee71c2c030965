use vswitch::config::{Config, Mode};

#[test]
fn server_mode_getters() {
    let c = Config {
        log_level: String::from("info"),
        mode: Mode::Server {
            listen: String::from("0.0.0.0:4789"),
            tun_name: String::from("tun0"),
            mtu: 1500,
        },
    };
    assert_eq!(c.get_tun_name(), "tun0");
    assert_eq!(c.get_mtu(), 1500);
}

#[test]
fn client_mode_getters() {
    let c = Config {
        log_level: String::from("debug"),
        mode: Mode::Client {
            server: String::from("192.0.2.1:4789"),
            tun_name: String::from("tun1"),
            mtu: 1400,
        },
    };
    assert_eq!(c.get_tun_name(), "tun1");
    assert_eq!(c.get_mtu(), 1400);
}
