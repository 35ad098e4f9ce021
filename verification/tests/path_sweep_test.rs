use monstertruck_ops::errors::{Error, TopologyError};
use monstertruck_ops::path_sweep::check_path_sweep;

#[test]
fn zero_divisions_is_an_error() {
    assert_eq!(check_path_sweep(false, true, 0, false).unwrap_err(), Error::TooFewDivisions);
}

#[test]
fn open_profile_wire_is_an_error() {
    assert_eq!(check_path_sweep(false, false, 4, false).unwrap_err(), Error::OpenWire);
}

#[test]
fn periodic_path_is_rejected() {
    assert_eq!(check_path_sweep(false, true, 8, true).unwrap_err(), Error::ClosedPathNotSupported);
}

#[test]
fn empty_profile_is_a_topology_error() {
    assert_eq!(
        check_path_sweep(true, false, 0, true).unwrap_err(),
        Error::FromTopology(TopologyError::EmptyWire)
    );
}

#[test]
fn one_division_is_accepted() {
    assert_eq!(check_path_sweep(false, true, 1, false), Ok(()));
}
