//! The texts of the desktop notifications.
use vstd::prelude::*;

use crate::country::{flag_of, iso2_to_flag};
use crate::events::AutoSwitch;
use crate::text::{concat, concat3, owned};

verus! {

/// A notification's title and body.
#[derive(Debug, Clone)]
pub struct Notification {
    pub title: String,
    pub body: String,
}

/// "<group> switched", and "<flag> <from> → <flag> <to>".
pub fn auto_switch_notification(sw: &AutoSwitch) -> (r: Notification)
    ensures
        r.title@ == sw.group@ + " switched"@,
        r.body@ == flag_of(sw.from_country@) + " "@ + sw.from@ + " → "@ + flag_of(
            sw.to_country@,
        ) + " "@ + sw.to@,
{
    let title = concat(sw.group.as_str(), " switched");
    let mut body = iso2_to_flag(sw.from_country.as_str());
    body.append(" ");
    body.append(sw.from.as_str());
    body.append(" → ");
    let to_flag = iso2_to_flag(sw.to_country.as_str());
    body.append(to_flag.as_str());
    body.append(" ");
    body.append(sw.to.as_str());
    Notification { title, body }
}

/// The notification for a controller that stopped answering at `url`.
pub fn connection_lost_notification(url: &str) -> (r: Notification)
    ensures
        r.title@ == "Clash unreachable"@,
        r.body@ == url@ + " — check OpenClash on the router"@,
{
    Notification {
        title: owned("Clash unreachable"),
        body: concat(url, " — check OpenClash on the router"),
    }
}

/// The notification for a controller at `url` that answers again.
pub fn connection_restored_notification(url: &str) -> (r: Notification)
    ensures
        r.title@ == "Clash reconnected"@,
        r.body@ == "Connection to "@ + url@ + " restored"@,
{
    Notification { title: owned("Clash reconnected"), body: concat3("Connection to ", url, " restored") }
}

} // verus!
