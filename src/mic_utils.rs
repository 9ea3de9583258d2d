use vstd::prelude::*;

verus! {

/// How a line entered to pick an input device was understood.
#[derive(Clone, Copy, Debug, PartialEq, Eq, Structural)]
pub enum DeviceChoice {
    /// The device at this zero-based index of the listing.
    Chosen(u32),
    /// The line was not a number.
    NotANumber,
    /// The number names no listed device.
    OutOfRange,
}

/// Reads a device choice. Devices are listed from 1 to `device_count`;
/// `entered` is the number typed, if the line held one. A listed number
/// gives the device's zero-based index.
pub fn device_choice(entered: Option<u32>, device_count: u32) -> (r: DeviceChoice)
    ensures
        match entered {
            None => r == DeviceChoice::NotANumber,
            Some(n) => if 1 <= n <= device_count {
                r == DeviceChoice::Chosen((n - 1) as u32)
            } else {
                r == DeviceChoice::OutOfRange
            },
        },
{
    match entered {
        None => DeviceChoice::NotANumber,
        Some(n) => {
            if 1 <= n && n <= device_count {
                DeviceChoice::Chosen(n - 1)
            } else {
                DeviceChoice::OutOfRange
            }
        },
    }
}

} // verus!
