//! The parts of an Oracle Cloud instance configuration the deployer reads.
use vstd::prelude::*;

verus! {

/// The image an instance boots from.
pub struct SourceDetails {
    pub image_id: String,
}

/// The shape and image of an instance.
pub struct LaunchDetails {
    pub shape: String,
    pub source_details: SourceDetails,
}

/// How instances are launched.
pub struct InstanceDetails {
    pub launch_details: LaunchDetails,
}

/// An instance configuration of a compartment.
pub struct InstanceConfiguration {
    pub id: String,
    pub display_name: String,
    pub compartment_id: String,
    pub instance_details: InstanceDetails,
}

} // verus!
