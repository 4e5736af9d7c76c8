//! Notifications of a KDE Connect device.
use vstd::prelude::*;

verus! {

/// Properties of one notification as the `notifications` interface publishes them.
#[derive(Debug)]
pub struct NotificationData {
    pub has_icon: bool,
    pub internal_id: String,
    pub is_conversation: bool,
    pub app_name: String,
    pub group_name: String,
    pub is_group_conversation: bool,
    pub reply_id: String,
    pub icon_path: String,
    pub silent: bool,
    pub text: String,
    pub dismissable: bool,
    pub ticker: String,
    pub title: String,
}

} // verus!
