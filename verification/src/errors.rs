use vstd::prelude::*;

verus! {

/// The failure classes of the binding layer.
///
/// Every recoverable failure of loading or configuring the kernel library
/// falls in exactly one of these classes; contract violations discovered
/// inside the native callback (bad UTF-8, a poisoned registry lock) are
/// fatal and are never reported through this type.
#[derive(Clone, Copy, Debug, PartialEq, Eq, Structural)]
pub enum SkeError {
    /// A filesystem failure while materializing the embedded kernel library.
    IoError,
    /// The kernel library could not be loaded (missing file, wrong format,
    /// unresolved required symbols).
    LoadError,
    /// The configuration path does not name an existing regular file.
    NotFound,
    /// The configuration path cannot be encoded as the NUL-terminated byte
    /// string the native loader requires.
    EncodingError,
}

impl SkeError {
    /// A short description of the failure class, for operator-facing messages.
    pub fn describe(&self) -> (r: &'static str)
        ensures
            *self == SkeError::IoError ==> r@ == "failed to prepare the kernel library file"@,
            *self == SkeError::LoadError ==> r@ == "the kernel library could not be loaded"@,
            *self == SkeError::NotFound ==> r@ == "the configuration file does not exist"@,
            *self == SkeError::EncodingError ==> r@ == "the configuration path cannot be encoded"@,
    {
        match self {
            SkeError::IoError => "failed to prepare the kernel library file",
            SkeError::LoadError => "the kernel library could not be loaded",
            SkeError::NotFound => "the configuration file does not exist",
            SkeError::EncodingError => "the configuration path cannot be encoded",
        }
    }
}

} // verus!
