use std::time::Duration;

use scaproust::error::{
    convert_notify_err, invalid_data_io_error, invalid_input_io_error, other_io_error,
    timedout_io_error, would_block_io_error, Error, ErrorKind, NotifyFailure,
};
use scaproust::ids::{DeviceId, EndpointId, ProbeId, Scheduled, SocketId};
use scaproust::socket_type::SocketType;
use scaproust::time::{checked_millis_of, duration_to_millis, millis_of, ToMillis};

const ALL: [SocketType; 10] = [
    SocketType::Pair,
    SocketType::Pub,
    SocketType::Sub,
    SocketType::Req,
    SocketType::Rep,
    SocketType::Push,
    SocketType::Pull,
    SocketType::Surveyor,
    SocketType::Respondent,
    SocketType::Bus,
];

#[test]
fn socket_types_have_their_protocol_ids() {
    assert_eq!(16, SocketType::Pair.id());
    assert_eq!(32, SocketType::Pub.id());
    assert_eq!(33, SocketType::Sub.id());
    assert_eq!(48, SocketType::Req.id());
    assert_eq!(49, SocketType::Rep.id());
    assert_eq!(80, SocketType::Push.id());
    assert_eq!(81, SocketType::Pull.id());
    assert_eq!(98, SocketType::Surveyor.id());
    assert_eq!(99, SocketType::Respondent.id());
    assert_eq!(112, SocketType::Bus.id());
}

#[test]
fn socket_types_have_their_peers() {
    assert_eq!(SocketType::Pair, SocketType::Pair.peer());
    assert_eq!(SocketType::Sub, SocketType::Pub.peer());
    assert_eq!(SocketType::Pub, SocketType::Sub.peer());
    assert_eq!(SocketType::Rep, SocketType::Req.peer());
    assert_eq!(SocketType::Req, SocketType::Rep.peer());
    assert_eq!(SocketType::Pull, SocketType::Push.peer());
    assert_eq!(SocketType::Push, SocketType::Pull.peer());
    assert_eq!(SocketType::Respondent, SocketType::Surveyor.peer());
    assert_eq!(SocketType::Surveyor, SocketType::Respondent.peer());
    assert_eq!(SocketType::Bus, SocketType::Bus.peer());
}

#[test]
fn socket_types_match_their_peer_and_nothing_else() {
    for a in ALL.iter() {
        for b in ALL.iter() {
            assert_eq!(a.peer() == *b, a.matches(*b));
            assert_eq!(a.matches(*b), b.matches(*a));
        }
        assert_eq!(*a, a.peer().peer());
    }
    assert!(SocketType::Push.matches(SocketType::Pull));
    assert!(!SocketType::Push.matches(SocketType::Push));
    assert!(SocketType::Pair.matches(SocketType::Pair));
}

#[test]
fn ids_are_equal_when_their_numbers_are() {
    assert_eq!(EndpointId::from(3), EndpointId::from(3));
    assert_ne!(EndpointId::from(3), EndpointId::from(4));
    assert_eq!(SocketId::from(3), SocketId(3));
    assert_eq!(ProbeId::from(5), ProbeId(5));
    assert_eq!(DeviceId::from(5), DeviceId::from(5));
    assert_ne!(DeviceId::from(5), DeviceId::from(6));
    assert_eq!(Scheduled(1), Scheduled(1));
    let n: usize = EndpointId::from(42).into();
    assert_eq!(42, n);
}

#[test]
fn errors_have_the_kind_they_are_made_for() {
    assert_eq!(ErrorKind::Other, other_io_error("a").kind());
    assert_eq!(ErrorKind::InvalidData, invalid_data_io_error("b").kind());
    assert_eq!(ErrorKind::WouldBlock, would_block_io_error("c").kind());
    assert_eq!(ErrorKind::InvalidInput, invalid_input_io_error("d").kind());
    assert_eq!(ErrorKind::TimedOut, timedout_io_error("e").kind());
    assert_eq!("a", other_io_error("a").message);
    assert_eq!(Error::new(ErrorKind::Other, "x"), other_io_error("x"));
}

#[test]
fn notify_failures_convert_to_errors() {
    let inner = invalid_data_io_error("wake up failed");
    assert_eq!(inner, convert_notify_err(NotifyFailure::Io(inner)));
    assert_eq!(
        Error::new(ErrorKind::Other, "cmd channel closed"),
        convert_notify_err(NotifyFailure::Closed)
    );
    assert_eq!(
        Error::new(ErrorKind::WouldBlock, "cmd channel full"),
        convert_notify_err(NotifyFailure::Full)
    );
}

#[test]
fn durations_are_told_in_whole_milliseconds() {
    assert_eq!(0, Duration::new(0, 0).to_millis());
    assert_eq!(0, Duration::new(0, 999_999).to_millis());
    assert_eq!(1, Duration::new(0, 1_000_000).to_millis());
    assert_eq!(1_500, Duration::new(1, 500_000_000).to_millis());
    assert_eq!(2_999, Duration::new(2, 999_999_999).to_millis());
    assert_eq!(50, Duration::from_millis(50).to_millis());
    assert_eq!(Some(7_250), duration_to_millis(&Duration::new(7, 250_000_000)));
}

#[test]
fn a_duration_that_does_not_fit_has_no_milliseconds() {
    assert_eq!(None, duration_to_millis(&Duration::new(u64::MAX, 0)));
    assert_eq!(None, duration_to_millis(&Duration::new(u64::MAX / 1_000 + 1, 0)));
    assert_eq!(
        Some(u64::MAX / 1_000 * 1_000 + 615),
        duration_to_millis(&Duration::new(u64::MAX / 1_000, 615_000_000))
    );
    assert_eq!(
        None,
        duration_to_millis(&Duration::new(u64::MAX / 1_000, 616_000_000))
    );
}

#[test]
fn seconds_and_nanoseconds_make_milliseconds() {
    assert_eq!(3_004, millis_of(3, 4_999_999));
    assert_eq!(Some(3_004), checked_millis_of(3, 4_999_999));
    assert_eq!(None, checked_millis_of(u64::MAX, 0));
    assert_eq!(Some(u64::MAX), checked_millis_of(u64::MAX / 1_000, 615_000_000));
}
