//! Decisions of the session around the signal path.
use vstd::prelude::*;

verus! {

/// The device that a stream runs on.
#[derive(Clone, Copy, Debug, PartialEq, Eq, Structural)]
pub enum DeviceChoice {
    /// The device at this place in the host's list.
    Listed(usize),
    /// The host's default device.
    Default,
}

/// The device for a wish `index` where the host lists `listed` devices: the
/// one wished for if the list reaches that far, and the default device where
/// it does not, or where nothing was wished for.
pub open spec fn chosen(index: Option<usize>, listed: nat) -> DeviceChoice {
    match index {
        Some(i) => if i < listed {
            DeviceChoice::Listed(i)
        } else {
            DeviceChoice::Default
        },
        None => DeviceChoice::Default,
    }
}

/// Chooses the device for a wish `index` where the host lists `listed`
/// devices.
pub fn nth_device(index: Option<usize>, listed: usize) -> (choice: DeviceChoice)
    ensures
        choice == chosen(index, listed as nat),
{
    match index {
        Some(i) => {
            if i < listed {
                DeviceChoice::Listed(i)
            } else {
                DeviceChoice::Default
            }
        },
        None => DeviceChoice::Default,
    }
}

} // verus!
