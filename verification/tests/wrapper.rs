use kdeconnect_waybar::wrapper::client::{
    battery_interface, battery_path, daemon_interface, device_interface, device_path, join_path,
    notification_path, notifications_interface, notifications_path, select_device,
};
use kdeconnect_waybar::wrapper::device::{BatteryStatus, DeviceInfoData, DeviceType};
use kdeconnect_waybar::wrapper::error::{DBusError, DBusErrorKind, Error};
use kdeconnect_waybar::wrapper::notifications::NotificationData;
use kdeconnect_waybar::wrapper::parsing::{
    camel_to_snake_case, snake_to_camel_case, DBusValue, FromDbusMap, FromDbusValue, PropMap,
};

fn integer(i: i64) -> DBusValue {
    DBusValue { as_i64: Some(i), as_str: None, as_iter: None }
}

fn text(s: &str) -> DBusValue {
    DBusValue { as_i64: None, as_str: Some(s.to_string()), as_iter: None }
}

fn list(items: Vec<DBusValue>) -> DBusValue {
    DBusValue { as_i64: None, as_str: None, as_iter: Some(items) }
}

fn parse_message(e: Error) -> String {
    match e {
        Error::DBusParsingFail(m) => m,
        _ => panic!("not a parsing error"),
    }
}

#[test]
fn camel_case_keys() {
    assert_eq!(snake_to_camel_case("is_charging"), "isCharging");
    assert_eq!(snake_to_camel_case("status_icon_name"), "statusIconName");
    assert_eq!(snake_to_camel_case("type_"), "type");
    assert_eq!(snake_to_camel_case("a__b"), "aB");
    assert_eq!(snake_to_camel_case("charge"), "charge");
}

#[test]
fn snake_case_names() {
    assert_eq!(camel_to_snake_case("Phone"), "phone");
    assert_eq!(camel_to_snake_case("DeviceType"), "device_type");
    assert_eq!(camel_to_snake_case("already_snake"), "already_snake");
}

#[test]
fn device_type_names() {
    assert!(matches!(DeviceType::from_name("phone"), Ok(DeviceType::Phone)));
    assert!(matches!(DeviceType::from_name("tablet"), Ok(DeviceType::Tablet)));
    assert!(matches!(DeviceType::from_name("desktop"), Ok(DeviceType::Desktop)));
    assert!(matches!(DeviceType::from_name("laptop"), Ok(DeviceType::Laptop)));
    let e = DeviceType::from_name("Phone").err().unwrap();
    assert_eq!(parse_message(e), "invalid DeviceType variant: Phone");
    assert!(matches!(DeviceType::from_dbus(&text("tablet")), Some(DeviceType::Tablet)));
    assert!(DeviceType::from_dbus(&integer(1)).is_none());
}

#[test]
fn dbus_values() {
    assert_eq!(bool::from_dbus(&integer(0)), Some(false));
    assert_eq!(bool::from_dbus(&integer(2)), Some(true));
    assert_eq!(bool::from_dbus(&text("1")), None);
    assert_eq!(i64::from_dbus(&integer(-3)), Some(-3));
    assert_eq!(String::from_dbus(&text("x")), Some("x".to_string()));
    assert_eq!(<Vec<String>>::from_dbus(&list(vec![text("a"), text("b")])), Some(vec!["a".to_string(), "b".to_string()]));
    assert_eq!(<Vec<String>>::from_dbus(&list(vec![text("a"), integer(1)])), None);
    assert_eq!(<Vec<String>>::from_dbus(&text("a")), None);
    assert_eq!(<Vec<String>>::from_dbus(&list(vec![])), Some(vec![]));
}

#[test]
fn battery_from_props() {
    let props: PropMap = vec![("charge".into(), integer(80)), ("isCharging".into(), integer(1))];
    let b = BatteryStatus::from_props(&props).ok().unwrap();
    assert_eq!(b.charge, 80);
    assert!(b.is_charging);
    let props: PropMap = vec![("isCharging".into(), integer(0))];
    assert_eq!(parse_message(BatteryStatus::from_props(&props).err().unwrap()), "missing property: charge");
    let props: PropMap = vec![("isCharging".into(), text("yes")), ("charge".into(), integer(1))];
    assert_eq!(parse_message(BatteryStatus::from_props(&props).err().unwrap()), "invalid property type: isCharging");
}

fn device_props() -> PropMap {
    vec![
        ("statusIconName".into(), text("icon")),
        ("isPaired".into(), integer(1)),
        ("isReachable".into(), integer(1)),
        ("isPairRequestedByPeer".into(), integer(0)),
        ("name".into(), text("Pixel")),
        ("iconName".into(), text("phone")),
        ("activeProviderNames".into(), list(vec![text("lan")])),
        ("isPairRequested".into(), integer(0)),
        ("reachableAddresses".into(), list(vec![text("10.0.0.2")])),
        ("pairState".into(), integer(3)),
        ("supportedPlugins".into(), list(vec![])),
        ("type".into(), text("phone")),
        ("verificationKey".into(), text("k")),
    ]
}

#[test]
fn device_info_from_props() {
    let d = DeviceInfoData::from_props(&device_props()).ok().unwrap();
    assert_eq!(d.name, "Pixel");
    assert!(d.is_reachable);
    assert_eq!(d.reachable_addresses, vec!["10.0.0.2".to_string()]);
    assert_eq!(d.type_, DeviceType::Phone);
    assert_eq!(d.pair_state, 3);
    let mut props = device_props();
    props.retain(|(k, _)| k != "type");
    assert_eq!(parse_message(DeviceInfoData::from_props(&props).err().unwrap()), "missing property: type");
}

#[test]
fn notification_from_props() {
    let props: PropMap = vec![
        ("hasIcon".into(), integer(0)),
        ("internalId".into(), text("0|org.app|1")),
        ("isConversation".into(), integer(0)),
        ("appName".into(), text("Signal")),
        ("groupName".into(), text("")),
        ("isGroupConversation".into(), integer(1)),
        ("replyId".into(), text("")),
        ("iconPath".into(), text("")),
        ("silent".into(), integer(0)),
        ("text".into(), text("hi")),
        ("dismissable".into(), integer(1)),
        ("ticker".into(), text("Signal: hi")),
        ("title".into(), text("Bob")),
    ];
    let n = NotificationData::from_props(&props).ok().unwrap();
    assert_eq!(n.app_name, "Signal");
    assert!(n.is_group_conversation);
    assert_eq!(n.title, "Bob");
}

#[test]
fn object_paths() {
    assert_eq!(device_path("abc"), "/modules/kdeconnect/devices/abc");
    assert_eq!(battery_path("abc"), "/modules/kdeconnect/devices/abc/battery");
    assert_eq!(notifications_path("abc"), "/modules/kdeconnect/devices/abc/notifications");
    assert_eq!(notification_path("abc", "7"), "/modules/kdeconnect/devices/abc/notifications/7");
    assert_eq!(join_path("/a/", "b"), "/a/b");
    assert_eq!(join_path("", "b"), "b");
    assert_eq!(join_path("/a", "/b"), "/b");
    assert_eq!(daemon_interface(), "org.kde.kdeconnect.daemon");
    assert_eq!(device_interface(), "org.kde.kdeconnect.device");
    assert_eq!(battery_interface(), "org.kde.kdeconnect.device.battery");
    assert_eq!(notifications_interface(), "org.kde.kdeconnect.device.notifications");
}

#[test]
fn dbus_errors() {
    let e = DBusError::from_parts(Some("org.freedesktop.DBus.Error.UnknownObject"), Some("gone"));
    assert!(matches!(e.kind, DBusErrorKind::UnknownObject));
    assert_eq!(e.message.as_deref(), Some("gone"));
    assert!(Error::DBusError(e).is_unknown_object());
    let e = DBusError::from_parts(Some("org.freedesktop.DBus.Error.ServiceUnknown"), None);
    assert!(matches!(&e.kind, DBusErrorKind::Unknown(Some(n)) if n == "org.freedesktop.DBus.Error.ServiceUnknown"));
    assert!(!Error::DBusError(e).is_unknown_object());
    let e = DBusError::from_parts(None, None);
    assert!(matches!(e.kind, DBusErrorKind::Unknown(None)));
    assert!(!Error::KdeConnectNotStarted.is_unknown_object());
}

#[test]
fn device_selection() {
    let devices = vec![("a".to_string(), false), ("b".to_string(), true), ("c".to_string(), true)];
    assert_eq!(select_device(&devices, None, None), Some(1));
    assert_eq!(select_device(&devices, None, Some("c")), Some(2));
    assert_eq!(select_device(&devices, Some("a"), Some("c")), Some(0));
    assert_eq!(select_device(&devices, Some("z"), None), None);
    assert_eq!(select_device(&vec![("a".to_string(), false)], None, None), None);
}
