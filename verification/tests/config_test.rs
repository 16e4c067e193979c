use lib2ra::config::{config_path, ClientConfig, Config, ServerConfig};
use lib2ra::instance::{Instance, StartStep, Stats};

fn server_config(http_response: &str) -> ServerConfig {
    ServerConfig {
        http_response: http_response.to_string(),
        buffer_size: 1024,
        inbound_addr: "127.0.0.1:9999".to_string(),
        cert_pem_path: "./cert/cert.pem".to_string(),
        key_pem_path: "./cert/key.pem".to_string(),
        separator: vec!['\r', '\n', '\r', '\n'],
        udp_bind_addr: "".to_string(),
    }
}

fn client_config(http_request: &str) -> ClientConfig {
    ClientConfig {
        http_request: http_request.to_string(),
        buffer_size: 1024,
        tx_sni: "tx.com".to_string(),
        rx_sni: "rx.com".to_string(),
        insecure_tls: true,
        inbound_addr: "127.0.0.1:8989".to_string(),
        outbound_addr: "127.0.0.1:9999".to_string(),
        separator: vec!['\r', '\n', '\r', '\n'],
        client_pool: 5,
        udp_bind_addr: "127.0.0.1:0".to_string(),
    }
}

fn strings(args: &[&str]) -> Vec<String> {
    args.iter().map(|a| a.to_string()).collect()
}

#[test]
fn the_first_config_argument_counts() {
    assert_eq!(
        config_path(&strings(&["./2ra", "--config=path/to/config.toml"])),
        Some("path/to/config.toml".to_string())
    );
    assert_eq!(
        config_path(&strings(&["./2ra", "-v", "--config=a", "--config=b"])),
        Some("a".to_string())
    );
    assert_eq!(
        config_path(&strings(&["./2ra", "--config="])),
        Some("".to_string())
    );
    assert_eq!(config_path(&strings(&["./2ra", "--config", "a"])), None);
    assert_eq!(config_path(&strings(&["./2ra", " --config=a"])), None);
    assert_eq!(config_path(&vec![]), None);
}

#[test]
fn heads_are_trimmed_and_ended() {
    let config = server_config("\nHTTP/1.0 200 OK\nServer: gws\n");
    let prepared = config.prepared();
    assert_eq!(
        prepared.http_response,
        "HTTP/1.0 200 OK\nServer: gws\r\n\r\n"
    );
    assert_eq!(prepared.inbound_addr, config.inbound_addr);
    assert_eq!(prepared.cert_pem_path, config.cert_pem_path);
    assert_eq!(prepared.key_pem_path, config.key_pem_path);
    assert_eq!(prepared.separator, config.separator);
    assert_eq!(prepared.buffer_size, 1024);

    let config = client_config("\u{2003}\u{a0}GET / HTTP/1.0\u{3000}\u{85}\t ");
    let prepared = config.prepared();
    assert_eq!(prepared.http_request, "GET / HTTP/1.0\r\n\r\n");
    assert_eq!(prepared.tx_sni, "tx.com");
    assert_eq!(prepared.rx_sni, "rx.com");
    assert!(prepared.insecure_tls);
    assert_eq!(prepared.outbound_addr, "127.0.0.1:9999");
    assert_eq!(prepared.client_pool, 5);
    assert_eq!(prepared.udp_bind_addr, "127.0.0.1:0");

    // Not white space.
    assert_eq!(
        client_config("\u{200b}a\u{feff}").prepared().http_request,
        "\u{200b}a\u{feff}\r\n\r\n"
    );
    assert_eq!(client_config(" \n ").prepared().http_request, "\r\n\r\n");
}

#[test]
fn only_white_space_is_trimmed() {
    let others = (0x3100..0x110000u32).step_by(97);
    for n in (0..0x3100u32).chain(others) {
        let Some(c) = char::from_u32(n) else {
            continue;
        };
        let white = matches!(n, 0x9..=0xd | 0x20 | 0x85 | 0xa0 | 0x1680 | 0x2000..=0x200a
            | 0x2028 | 0x2029 | 0x202f | 0x205f | 0x3000);
        let head = client_config(&format!("{c}a{c}b{c}")).prepared().http_request;
        if white {
            assert_eq!(head, format!("a{c}b\r\n\r\n"), "{:x}", n);
        } else {
            assert_eq!(head, format!("{c}a{c}b{c}\r\n\r\n"), "{:x}", n);
        }
    }
}

#[test]
fn the_server_starts_before_the_client() {
    let instance = Instance::new(Config {
        server: Some(server_config(" response ")),
        client: Some(client_config(" request ")),
    });
    assert_eq!(instance.stats, Stats::new());
    let steps = instance.start();
    assert_eq!(steps.len(), 3);
    match &steps[0] {
        StartStep::SpawnServer(c) => assert_eq!(c.http_response, "response\r\n\r\n"),
        other => panic!("{:?}", other),
    }
    assert!(matches!(steps[1], StartStep::Pause { millis: 100 }));
    match &steps[2] {
        StartStep::SpawnClient(c) => assert_eq!(c.http_request, "request\r\n\r\n"),
        other => panic!("{:?}", other),
    }
    // The configuration itself is kept as it was.
    assert_eq!(
        instance.config.server.as_ref().unwrap().http_response,
        " response "
    );
}

#[test]
fn either_side_may_be_missing() {
    let instance = Instance::new(Config {
        server: None,
        client: Some(client_config("")),
    });
    let steps = instance.start();
    assert!(matches!(
        steps[..],
        [StartStep::Pause { .. }, StartStep::SpawnClient(_)]
    ));
    let instance = Instance::new(Config {
        server: Some(server_config("")),
        client: None,
    });
    let steps = instance.start();
    assert!(matches!(
        steps[..],
        [StartStep::SpawnServer(_), StartStep::Pause { .. }]
    ));
    let instance = Instance::new(Config {
        server: None,
        client: None,
    });
    assert!(matches!(
        instance.start()[..],
        [StartStep::Pause { millis: 100 }]
    ));
}

#[test]
fn counters_start_over_when_full() {
    let mut stats = Stats::new();
    stats.count_client_conn();
    stats.count_client_conn();
    stats.count_server_conn();
    assert_eq!(stats.client_handled_tcp_conn, 2);
    assert_eq!(stats.server_handled_tcp_conn, 1);
    stats.client_handled_tcp_conn = usize::MAX;
    stats.count_client_conn();
    assert_eq!(stats.client_handled_tcp_conn, 0);
    assert_eq!(stats.server_handled_tcp_conn, 1);
}
