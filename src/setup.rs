use vstd::prelude::*;
use vstd::string::StringExecFns;

verus! {

/// Why no platform or device could be chosen.
#[derive(Clone, Copy, Debug, PartialEq, Eq, Structural)]
pub enum SetupError {
    /// The host reports no compute platform.
    NoPlatform,
    /// The chosen platform reports no device.
    NoDevice,
}

/// Text that describes each error.
pub open spec fn error_text(e: SetupError) -> Seq<char> {
    match e {
        SetupError::NoPlatform => "no compute platform is available"@,
        SetupError::NoDevice => "no device is available on the platform"@,
    }
}

impl SetupError {
    /// Text that describes the error.
    pub fn message(&self) -> (r: String)
        ensures
            r@ == error_text(*self),
    {
        match self {
            SetupError::NoPlatform => String::from_str("no compute platform is available"),
            SetupError::NoDevice => String::from_str("no device is available on the platform"),
        }
    }
}

/// Chooses the first entry of `items`, or fails with `missing` when there is none.
pub fn first_of<T: Copy>(items: &Vec<T>, missing: SetupError) -> (r: Result<T, SetupError>)
    ensures
        items@.len() == 0 ==> r == Err::<T, SetupError>(missing),
        items@.len() > 0 ==> r == Ok::<T, SetupError>(items@[0]),
{
    if items.len() == 0 {
        Err(missing)
    } else {
        Ok(items[0])
    }
}

} // verus!
