//! The federation switch shared by every endpoint, and the profile query.

use vstd::prelude::*;
use vstd::string::*;

verus! {

/// Every federation endpoint first passes this gate: with federation
/// switched off it fails with a configuration error.
pub fn federation_gate(enabled: bool) -> (r: Result<(), String>)
    ensures
        enabled ==> r is Ok,
        !enabled ==> (r matches Err(m) && m@ == "Federation is disabled."@),
{
    if enabled {
        Ok(())
    } else {
        Err(String::from_str("Federation is disabled."))
    }
}

/// The one profile field that a query may ask for.
pub enum ProfileField {
    DisplayName,
    AvatarUrl,
}

/// Whether a query for `field` (`None`: every field) reports the display name.
pub open spec fn reports_displayname(field: Option<ProfileField>) -> bool {
    !(field matches Some(ProfileField::AvatarUrl))
}

/// Whether a query for `field` (`None`: every field) reports the avatar URL.
pub open spec fn reports_avatar_url(field: Option<ProfileField>) -> bool {
    !(field matches Some(ProfileField::DisplayName))
}

/// Whether the display name is to be looked up.
pub fn wants_displayname(field: &Option<ProfileField>) -> (r: bool)
    ensures
        r == reports_displayname(*field),
{
    !matches!(field, Some(ProfileField::AvatarUrl))
}

/// Whether the avatar URL is to be looked up.
pub fn wants_avatar_url(field: &Option<ProfileField>) -> (r: bool)
    ensures
        r == reports_avatar_url(*field),
{
    !matches!(field, Some(ProfileField::DisplayName))
}

/// The answer to a profile query.
pub struct ProfileInfo {
    pub displayname: Option<String>,
    pub avatar_url: Option<String>,
}

/// The answer to a query for `field`, from the user's stored display name
/// and avatar URL: a field that was not asked for is left out.
pub fn profile_response(field: Option<ProfileField>, displayname: Option<String>, avatar_url: Option<
    String,
>) -> (r: ProfileInfo)
    ensures
        r.displayname == if reports_displayname(field) {
            displayname
        } else {
            None
        },
        r.avatar_url == if reports_avatar_url(field) {
            avatar_url
        } else {
            None
        },
{
    let d = if wants_displayname(&field) {
        displayname
    } else {
        None
    };
    let a = if wants_avatar_url(&field) {
        avatar_url
    } else {
        None
    };
    ProfileInfo { displayname: d, avatar_url: a }
}

} // verus!
