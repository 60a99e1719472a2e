//! The build variant a multi-configuration layout is analyzed for.

use vstd::prelude::*;

verus! {

/// Named build configuration used to select the variant subdirectory of a
/// multi-configuration layout; `SingleConfig` selects the flat layout.
#[derive(Clone, Copy, PartialEq, Eq, Structural, Debug)]
pub enum BuildVariant {
    Debug,
    DevRelease,
    Release,
    SingleConfig,
}

impl BuildVariant {
    /// The variant's directory name.
    pub open spec fn spec_name(&self) -> Seq<char> {
        match self {
            BuildVariant::Debug => "Debug"@,
            BuildVariant::DevRelease => "DevRelease"@,
            BuildVariant::Release => "Release"@,
            BuildVariant::SingleConfig => "SingleConfig"@,
        }
    }

    /// The variant's directory name, as written in the build tree.
    pub fn variant_name(&self) -> (r: String)
        ensures
            r@ == self.spec_name(),
    {
        match self {
            BuildVariant::Debug => String::from_str("Debug"),
            BuildVariant::DevRelease => String::from_str("DevRelease"),
            BuildVariant::Release => String::from_str("Release"),
            BuildVariant::SingleConfig => String::from_str("SingleConfig"),
        }
    }
}

} // verus!
