//! Requests for extra permissions and the profiles they ask for.
use vstd::prelude::*;

verus! {

/// Network access asked for.
#[derive(Debug, Clone, Default, PartialEq, Eq)]
pub struct NetworkPermissions {
    pub enabled: Option<bool>,
}

/// File system access asked for: paths to read and paths to write.
#[derive(Debug, Clone, Default, PartialEq, Eq)]
pub struct FileSystemPermissions {
    pub read: Option<Vec<String>>,
    pub write: Option<Vec<String>>,
}

/// Access to the macOS preferences.
#[derive(Debug, Clone, Copy, Default, PartialEq, Eq)]
pub enum MacOsPreferencesPermission {
    #[default]
    NoAccess,
    ReadOnly,
    ReadWrite,
}

/// Which applications may be automated on macOS.
#[derive(Debug, Clone, Default, PartialEq, Eq)]
pub enum MacOsAutomationPermission {
    #[default]
    Disabled,
    All,
    BundleIds(Vec<String>),
}

/// Access to the macOS contacts.
#[derive(Debug, Clone, Copy, Default, PartialEq, Eq)]
pub enum MacOsContactsPermission {
    #[default]
    NoAccess,
    ReadOnly,
    ReadWrite,
}

/// The macOS sandbox extensions asked for.
#[derive(Debug, Clone, Default, PartialEq, Eq)]
pub struct MacOsSeatbeltProfileExtensions {
    pub macos_preferences: MacOsPreferencesPermission,
    pub macos_automation: MacOsAutomationPermission,
    pub macos_launch_services: bool,
    pub macos_accessibility: bool,
    pub macos_calendar: bool,
    pub macos_reminders: bool,
    pub macos_contacts: MacOsContactsPermission,
}

/// A granted permission profile.
#[derive(Debug, Clone, Default, PartialEq, Eq)]
pub struct PermissionProfile {
    pub network: Option<NetworkPermissions>,
    pub file_system: Option<FileSystemPermissions>,
    pub macos: Option<MacOsSeatbeltProfileExtensions>,
}

/// How long a grant lasts.
#[derive(Debug, Clone, Copy, Default, PartialEq, Eq, Structural)]
pub enum PermissionGrantScope {
    #[default]
    Turn,
    Session,
}

/// The permissions a request asks for.
#[derive(Debug, Clone, Default, PartialEq, Eq)]
pub struct RequestPermissionProfile {
    pub network: Option<NetworkPermissions>,
    pub file_system: Option<FileSystemPermissions>,
    pub macos: Option<MacOsSeatbeltProfileExtensions>,
}

impl RequestPermissionProfile {
    /// Whether the request asks for nothing.
    pub fn is_empty(&self) -> (r: bool)
        ensures
            r == (self.network is None && self.file_system is None && self.macos is None),
    {
        self.network.is_none() && self.file_system.is_none() && self.macos.is_none()
    }
}

impl From<RequestPermissionProfile> for PermissionProfile {
    fn from(value: RequestPermissionProfile) -> (r: Self) {
        PermissionProfile { network: value.network, file_system: value.file_system, macos: value.macos }
    }
}

impl vstd::std_specs::convert::FromSpecImpl<RequestPermissionProfile> for PermissionProfile {
    open spec fn obeys_from_spec() -> bool {
        true
    }

    open spec fn from_spec(value: RequestPermissionProfile) -> Self {
        PermissionProfile { network: value.network, file_system: value.file_system, macos: value.macos }
    }
}

impl From<PermissionProfile> for RequestPermissionProfile {
    fn from(value: PermissionProfile) -> (r: Self) {
        RequestPermissionProfile {
            network: value.network,
            file_system: value.file_system,
            macos: value.macos,
        }
    }
}

impl vstd::std_specs::convert::FromSpecImpl<PermissionProfile> for RequestPermissionProfile {
    open spec fn obeys_from_spec() -> bool {
        true
    }

    open spec fn from_spec(value: PermissionProfile) -> Self {
        RequestPermissionProfile {
            network: value.network,
            file_system: value.file_system,
            macos: value.macos,
        }
    }
}

/// A request profile turned into a granted profile and back is the request profile, and a
/// granted profile turned into a request and back is the granted profile: the two carry the
/// same permissions.
pub proof fn law_permission_profiles_round_trip(r: RequestPermissionProfile, p: PermissionProfile)
    ensures
        <RequestPermissionProfile as vstd::std_specs::convert::FromSpec<PermissionProfile>>::from_spec(
            <PermissionProfile as vstd::std_specs::convert::FromSpec<RequestPermissionProfile>>::from_spec(r),
        ) == r,
        <PermissionProfile as vstd::std_specs::convert::FromSpec<RequestPermissionProfile>>::from_spec(
            <RequestPermissionProfile as vstd::std_specs::convert::FromSpec<PermissionProfile>>::from_spec(p),
        ) == p,
{
}

/// The arguments of a permission request.
#[derive(Debug, Clone, PartialEq, Eq)]
pub struct RequestPermissionsArgs {
    pub reason: Option<String>,
    pub permissions: RequestPermissionProfile,
}

/// The answer to a permission request: what is granted, and for how long.
#[derive(Debug, Clone, PartialEq, Eq)]
pub struct RequestPermissionsResponse {
    pub permissions: RequestPermissionProfile,
    pub scope: PermissionGrantScope,
}

/// A permission request as an event: the tool call and turn it belongs to, why, and what.
#[derive(Debug, Clone, PartialEq, Eq)]
pub struct RequestPermissionsEvent {
    pub call_id: String,
    pub turn_id: String,
    pub reason: Option<String>,
    pub permissions: RequestPermissionProfile,
}

} // verus!
