//! Where KDE Connect publishes its objects on the session bus: object paths
//! and interface names, and which device a configuration picks.
use crate::text::{chars_eq, to_chars};
use vstd::prelude::*;

verus! {

/// Object path of the KDE Connect daemon.
pub const PATH_ROOT: &'static str = "/modules/kdeconnect";

/// Interface name prefix of KDE Connect.
pub const INTERFACE_ROOT: &'static str = "org.kde.kdeconnect";

/// `part` appended to the path `base` as a path component: an absolute
/// `part` replaces `base`, and a separator is put between them unless
/// `base` is empty or ends with one.
pub open spec fn path_join(base: Seq<char>, part: Seq<char>) -> Seq<char> {
    if part.len() > 0 && part[0] == '/' {
        part
    } else if base.len() == 0 || base.last() == '/' {
        base + part
    } else {
        base + seq!['/'] + part
    }
}

/// Joins the path component `part` to `base`.
pub fn join_path(base: &str, part: &str) -> (r: String)
    ensures
        r@ == path_join(base@, part@),
{
    let p = to_chars(part);
    if p.len() > 0 && p[0] == '/' {
        return String::from_str(part);
    }
    let b = to_chars(base);
    let mut out = String::from_str(base);
    if !(b.len() == 0 || b[b.len() - 1] == '/') {
        out.append("/");
        proof {
            reveal_strlit("/");
        }
    }
    out.append(part);
    out
}

/// Interface of the daemon.
pub open spec fn spec_daemon_interface() -> Seq<char> {
    INTERFACE_ROOT@ + ".daemon"@
}

/// Interface of a device.
pub open spec fn spec_device_interface() -> Seq<char> {
    INTERFACE_ROOT@ + ".device"@
}

/// Interface of the battery of a device.
pub open spec fn spec_battery_interface() -> Seq<char> {
    spec_device_interface() + ".battery"@
}

/// Interface of the notifications of a device.
pub open spec fn spec_notifications_interface() -> Seq<char> {
    spec_device_interface() + ".notifications"@
}

/// Object path of the device `id`.
pub open spec fn spec_device_path(id: Seq<char>) -> Seq<char> {
    path_join(path_join(PATH_ROOT@, "devices"@), id)
}

pub fn daemon_interface() -> (r: String)
    ensures
        r@ == spec_daemon_interface(),
{
    let mut s = String::from_str(INTERFACE_ROOT);
    s.append(".daemon");
    s
}

pub fn device_interface() -> (r: String)
    ensures
        r@ == spec_device_interface(),
{
    let mut s = String::from_str(INTERFACE_ROOT);
    s.append(".device");
    s
}

pub fn battery_interface() -> (r: String)
    ensures
        r@ == spec_battery_interface(),
{
    let mut s = device_interface();
    s.append(".battery");
    s
}

pub fn notifications_interface() -> (r: String)
    ensures
        r@ == spec_notifications_interface(),
{
    let mut s = device_interface();
    s.append(".notifications");
    s
}

/// Object path of the device `id`.
pub fn device_path(id: &str) -> (r: String)
    ensures
        r@ == spec_device_path(id@),
{
    let devices = join_path(PATH_ROOT, "devices");
    join_path(devices.as_str(), id)
}

/// Object path of the battery of the device `id`.
pub fn battery_path(id: &str) -> (r: String)
    ensures
        r@ == path_join(spec_device_path(id@), "battery"@),
{
    join_path(device_path(id).as_str(), "battery")
}

/// Object path of the notifications of the device `id`.
pub fn notifications_path(id: &str) -> (r: String)
    ensures
        r@ == path_join(spec_device_path(id@), "notifications"@),
{
    join_path(device_path(id).as_str(), "notifications")
}

/// Object path of the notification `notification_id` of the device `device_id`.
pub fn notification_path(device_id: &str, notification_id: &str) -> (r: String)
    ensures
        r@ == path_join(path_join(spec_device_path(device_id@), "notifications"@), notification_id@),
{
    join_path(notifications_path(device_id).as_str(), notification_id)
}

/// The device to show among `devices` (pairs of an id and whether the
/// device is reachable): the first with the wanted id, or, when no id is
/// wanted, the first reachable one.
pub open spec fn spec_select_device(devices: Seq<(String, bool)>, wanted: Option<Seq<char>>) -> Option<int>
    decreases devices.len(),
{
    if devices.len() == 0 {
        None
    } else if (match wanted {
        Some(id) => devices[0].0@ == id,
        None => devices[0].1,
    }) {
        Some(0)
    } else {
        match spec_select_device(devices.drop_first(), wanted) {
            Some(i) => Some(i + 1),
            None => None,
        }
    }
}

/// The id of the wanted device: `override_id`, else `config_id`.
pub open spec fn wanted_id(override_id: Option<&str>, config_id: Option<&str>) -> Option<Seq<char>> {
    match override_id {
        Some(id) => Some(id@),
        None => match config_id {
            Some(id) => Some(id@),
            None => None,
        },
    }
}

/// The device shown is the first that matches: with a wanted id, the first
/// device of that id; without, the first reachable device. No device is
/// shown only when none matches.
pub proof fn lemma_select_device(devices: Seq<(String, bool)>, wanted: Option<Seq<char>>)
    ensures
        match spec_select_device(devices, wanted) {
            Some(i) => 0 <= i < devices.len() && match wanted {
                Some(id) => devices[i].0@ == id && forall|j: int| 0 <= j < i ==> devices[j].0@ != id,
                None => devices[i].1 && forall|j: int| 0 <= j < i ==> !devices[j].1,
            },
            None => match wanted {
                Some(id) => forall|j: int| 0 <= j < devices.len() ==> devices[j].0@ != id,
                None => forall|j: int| 0 <= j < devices.len() ==> !devices[j].1,
            },
        },
    decreases devices.len(),
{
    if devices.len() > 0 {
        let rest = devices.drop_first();
        lemma_select_device(rest, wanted);
        assert forall|j: int| 0 < j < devices.len() implies devices[j] == rest[j - 1] by {}
    }
}

pub open spec fn opt_chars_view(o: Option<Vec<char>>) -> Option<Seq<char>> {
    match o {
        Some(w) => Some(w@),
        None => None,
    }
}

/// Index of the device to show (see [`spec_select_device`]); the wanted id
/// is `override_id`, else `config_id`.
pub fn select_device(devices: &Vec<(String, bool)>, override_id: Option<&str>, config_id: Option<&str>) -> (r: Option<usize>)
    ensures
        match r {
            Some(k) => spec_select_device(devices@, wanted_id(override_id, config_id)) == Some(k as int),
            None => spec_select_device(devices@, wanted_id(override_id, config_id)) is None,
        },
{
    let wanted = match override_id {
        Some(id) => Some(to_chars(id)),
        None => match config_id {
            Some(id) => Some(to_chars(id)),
            None => None,
        },
    };
    let ghost wanted_view = opt_chars_view(wanted);
    let mut i: usize = 0;
    assert(devices@.skip(0) =~= devices@);
    while i < devices.len()
        invariant
            i <= devices@.len(),
            wanted_view == opt_chars_view(wanted),
            wanted_view == wanted_id(override_id, config_id),
            spec_select_device(devices@, wanted_view) == match spec_select_device(devices@.skip(i as int), wanted_view) {
                Some(k) => Some(k + i),
                None => None,
            },
        decreases devices.len() - i,
    {
        assert(devices@.skip(i as int).drop_first() =~= devices@.skip(i + 1));
        assert(devices@.skip(i as int)[0] == devices@[i as int]);
        let found = match &wanted {
            Some(w) => chars_eq(&to_chars(devices[i].0.as_str()), w),
            None => devices[i].1,
        };
        if found {
            return Some(i);
        }
        i = i + 1;
    }
    None
}

} // verus!
