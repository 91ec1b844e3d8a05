use vstd::prelude::*;

verus! {

/// Where a binding came from, weakest first.
#[derive(Debug, PartialEq, Eq, Clone, Copy, Structural)]
pub enum VarOrigin {
    Default,
    Environment,
    EnvironmentOverride,
    File,
    CommandLine,
    Override,
    Automatic,
}

/// The display string of an origin, as `$(origin ...)` reports it.
pub open spec fn origin_text(origin: VarOrigin) -> Seq<char> {
    match origin {
        VarOrigin::Default => "default"@,
        VarOrigin::Environment => "environment"@,
        VarOrigin::EnvironmentOverride => "environment override"@,
        VarOrigin::File => "file"@,
        VarOrigin::CommandLine => "command line"@,
        VarOrigin::Override => "override"@,
        VarOrigin::Automatic => "automatic"@,
    }
}

/// Origins whose bindings a later file-level assignment never replaces.
pub open spec fn is_override_tier(origin: VarOrigin) -> bool {
    origin == VarOrigin::Override || origin == VarOrigin::EnvironmentOverride
}

pub fn get_origin_str(origin: VarOrigin) -> (r: &'static str)
    ensures
        r@ == origin_text(origin),
{
    match origin {
        VarOrigin::Default => "default",
        VarOrigin::Environment => "environment",
        VarOrigin::EnvironmentOverride => "environment override",
        VarOrigin::File => "file",
        VarOrigin::CommandLine => "command line",
        VarOrigin::Override => "override",
        VarOrigin::Automatic => "automatic",
    }
}

} // verus!
