use dap::supervisor::{bootstrap, Bootstrap, Disposition, Endpoint, Ipv4, TransportType};

#[test]
fn tcp_bootstrap_spawns_waits_and_connects_to_loopback() {
    assert_eq!(
        bootstrap(TransportType::TCP, 5668),
        Bootstrap {
            stdin: Disposition::Null,
            stdout: Disposition::Piped,
            stderr: Disposition::Piped,
            kill_on_drop: true,
            warm_up_millis: 1000,
            endpoint: Endpoint::Tcp { host: Ipv4(127, 0, 0, 1), port: 5668 },
        }
    );
}

#[test]
fn stdio_bootstrap_pipes_all_streams_and_has_no_network_step() {
    assert_eq!(
        bootstrap(TransportType::STDIO, 5668),
        Bootstrap {
            stdin: Disposition::Piped,
            stdout: Disposition::Piped,
            stderr: Disposition::Piped,
            kill_on_drop: true,
            warm_up_millis: 0,
            endpoint: Endpoint::Stdio,
        }
    );
}
