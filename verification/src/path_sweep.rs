//! Sweeping a closed profile wire along a path curve: the checks of the
//! request. The sweep frames and cross sections are computed by the
//! caller.

use crate::errors::{Error, TopologyError};
use vstd::prelude::*;

verus! {

/// The checks of a path sweep, in the order they are made: the profile
/// wire is not empty and is closed, at least one division is asked for,
/// and the path is not periodic (closing the tube into a torus-like solid
/// is not supported).
pub fn check_path_sweep(
    profile_is_empty: bool,
    profile_is_closed: bool,
    divisions: usize,
    path_is_periodic: bool,
) -> (r: Result<(), Error>)
    ensures
        profile_is_empty ==> r == Err::<(), Error>(Error::FromTopology(TopologyError::EmptyWire)),
        !profile_is_empty && !profile_is_closed ==> r == Err::<(), Error>(Error::OpenWire),
        !profile_is_empty && profile_is_closed && divisions < 1 ==> r == Err::<(), Error>(
            Error::TooFewDivisions,
        ),
        !profile_is_empty && profile_is_closed && divisions >= 1 && path_is_periodic ==> r
            == Err::<(), Error>(Error::ClosedPathNotSupported),
        !profile_is_empty && profile_is_closed && divisions >= 1 && !path_is_periodic ==> r
            == Ok::<(), Error>(()),
{
    if profile_is_empty {
        return Err(Error::FromTopology(TopologyError::EmptyWire));
    }
    if !profile_is_closed {
        return Err(Error::OpenWire);
    }
    if divisions < 1 {
        return Err(Error::TooFewDivisions);
    }
    if path_is_periodic {
        return Err(Error::ClosedPathNotSupported);
    }
    Ok(())
}

} // verus!
