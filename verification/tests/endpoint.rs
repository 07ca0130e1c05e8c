use scaproust::endpoint::{Backoff, EndpointDesc};
use scaproust::error::ErrorKind;
use scaproust::ids::EndpointId;
use scaproust::proto::pipe::Pipe;
use scaproust::url::{check_url, check_url_bytes};

#[test]
fn backoff_starts_at_100_ms_and_doubles_up_to_10_s() {
    let mut backoff = Backoff::new();
    let mut delays = Vec::new();
    for _ in 0..10 {
        delays.push(backoff.failed());
    }
    assert_eq!(
        vec![100, 200, 400, 800, 1600, 3200, 6400, 10_000, 10_000, 10_000],
        delays
    );
}

#[test]
fn backoff_starts_over_after_a_success() {
    let mut backoff = Backoff::new();
    backoff.failed();
    backoff.failed();
    backoff.succeeded();
    assert_eq!(100, backoff.failed());
    assert_eq!(200, backoff.failed());
}

#[test]
fn a_pipe_has_the_priorities_of_its_endpoint() {
    let desc = EndpointDesc {
        send_priority: 3,
        recv_priority: 12,
        tcp_no_delay: true,
        recv_max_size: 1024,
    };
    let pipe = Pipe::new(EndpointId::from(7), &desc);
    assert_eq!(3, pipe.get_send_priority());
    assert_eq!(12, pipe.get_recv_priority());
    assert_eq!(EndpointId::from(7), pipe.eid);
}

#[test]
fn tcp_urls_with_host_and_port_are_accepted() {
    assert_eq!(Ok(()), check_url(&"tcp://127.0.0.1:5454".to_string()));
    assert_eq!(Ok(()), check_url(&"tcp://localhost:80".to_string()));
    assert_eq!(Ok(()), check_url(&"tcp://*:5455".to_string()));
    assert_eq!(Ok(()), check_url(&"tcp://[::1]:5455".to_string()));
    assert_eq!(Ok(()), check_url_bytes(b"tcp://a:1"));
}

#[test]
fn urls_that_are_not_tcp_host_and_port_are_refused() {
    for url in [
        "",
        "tcp",
        "tcp://",
        "tcp://some random crap",
        "tcp://127.0.0.1",
        "tcp://127.0.0.1:",
        "tcp://:5454",
        "tcp://host:54a4",
        "tcp://host:5454 ",
        "tcp:/host:5454",
        "udp://host:5454",
        "ipc:///tmp/test.ipc",
        "inproc://test",
        "TCP://host:5454",
        "tcp://5454",
    ] {
        let res = check_url(&url.to_string());
        assert_eq!(ErrorKind::InvalidInput, res.unwrap_err().kind(), "{}", url);
    }
}
