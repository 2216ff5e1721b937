use servers::cli::Cli;

#[test]
fn cli_defaults() {
    assert_eq!(
        Cli::default(),
        Cli {
            host: "0.0.0.0".to_string(),
            port: "9999".to_string(),
            ws_port: "9998".to_string(),
            ws_enable: false,
        }
    );
}

#[test]
fn cli_addresses_are_host_colon_port() {
    let cli = Cli {
        host: "127.0.0.1".to_string(),
        port: "7000".to_string(),
        ws_port: "0".to_string(),
        ws_enable: true,
    };
    assert_eq!(cli.tcp_address(), "127.0.0.1:7000");
    assert_eq!(cli.ws_address(), "127.0.0.1:0");
    assert_eq!(Cli::default().tcp_address(), "0.0.0.0:9999");
    assert_eq!(Cli::default().ws_address(), "0.0.0.0:9998");
}
