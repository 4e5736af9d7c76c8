use kdeconnect_waybar::config::Config;
use kdeconnect_waybar::formatter::notification::sanitizate_html_tags;
use kdeconnect_waybar::formatter::{
    DeviceCategoryDataCache, FieldCategory, Format, FormatError, GlobalFormat, Notification,
    NotificationFormat, NotificationFormatField, OutputFormat,
};
use kdeconnect_waybar::wrapper::device::{BatteryStatus, DeviceInfoData, DeviceType};
use kdeconnect_waybar::wrapper::notifications::NotificationData;
use std::time::Duration;

fn notification_format(s: &str) -> NotificationFormat {
    Format::parse(s).ok().unwrap()
}

fn base_config() -> Config {
    Config {
        name: None,
        device_id: None,
        update_interval: Duration::from_secs(5),
        format: Format::parse("{Battery::ChargePercent}%").ok().unwrap(),
        tooltip_format: None,
        device_not_found_text: "none".to_string(),
        device_not_found_tooltip_text: "no device".to_string(),
        is_charging_text: "charging".to_string(),
        isnt_charging_text: "discharging".to_string(),
        charge_ranges: vec![25, 50, 75],
        is_charging_texts: vec!["C0".into(), "C1".into(), "C2".into(), "C3".into()],
        isnt_charging_texts: vec!["Critical".into(), "Low".into(), "Good".into(), "Super".into()],
        device_phone_text: "Phone".to_string(),
        device_tablet_text: "Tablet".to_string(),
        device_desktop_text: "Desktop".to_string(),
        device_laptop_text: "Laptop".to_string(),
        notification_grouped_format: Some(notification_format("{AppName}:{Count} ")),
        notification_single_format: Some(notification_format("[{Title}|{Content}]")),
        notifications_count_text: vec![],
        app_icons: vec![],
    }
}

fn device_info(reachable: bool, device_type: DeviceType, addresses: Vec<String>) -> DeviceInfoData {
    DeviceInfoData {
        status_icon_name: "icon".into(),
        is_paired: true,
        is_reachable: reachable,
        is_pair_requested_by_peer: false,
        name: "Pixel".into(),
        icon_name: "phone".into(),
        active_provider_names: vec![],
        is_pair_requested: false,
        reachable_addresses: addresses,
        pair_state: 3,
        supported_plugins: vec![],
        type_: device_type,
        verification_key: "key".into(),
    }
}

fn notification(app: &str, title: &str, text: &str, group: bool) -> NotificationData {
    NotificationData {
        has_icon: false,
        internal_id: format!("{app}-{title}"),
        is_conversation: false,
        app_name: app.into(),
        group_name: String::new(),
        is_group_conversation: group,
        reply_id: String::new(),
        icon_path: String::new(),
        silent: false,
        text: text.into(),
        dismissable: true,
        ticker: String::new(),
        title: title.into(),
    }
}

fn loaded_cache(charge: i64, charging: bool) -> DeviceCategoryDataCache {
    let mut cache = DeviceCategoryDataCache::new(device_info(true, DeviceType::Phone, vec!["192.168.1.2".into()]));
    cache.set_battery(BatteryStatus { is_charging: charging, charge });
    cache
}

fn render(format: &str, config: &Config, cache: &DeviceCategoryDataCache) -> Result<String, FormatError> {
    let f: GlobalFormat = Format::parse(format)?;
    f.to_string(config, cache)
}

#[test]
fn plain_text_renders_verbatim() {
    let config = base_config();
    let cache = loaded_cache(50, false);
    assert_eq!(render("hello world", &config, &cache).ok().unwrap(), "hello world");
    assert_eq!(render("", &config, &cache).ok().unwrap(), "");
}

#[test]
fn charge_percent_field() {
    let config = base_config();
    let cache = loaded_cache(42, false);
    assert_eq!(render("Battery: {Battery::ChargePercent}%", &config, &cache).ok().unwrap(), "Battery: 42%");
    let cache = loaded_cache(-7, false);
    assert_eq!(render("{Battery::ChargePercent}", &config, &cache).ok().unwrap(), "-7");
    let cache = loaded_cache(i64::MIN, false);
    assert_eq!(render("{Battery::ChargePercent}", &config, &cache).ok().unwrap(), i64::MIN.to_string());
}

#[test]
fn charge_texts_follow_ranges() {
    let config = base_config();
    let expect = [(0, "Critical"), (25, "Critical"), (26, "Low"), (50, "Low"), (51, "Good"), (75, "Good"), (76, "Super"), (100, "Super")];
    for (charge, text) in expect {
        let cache = loaded_cache(charge, false);
        assert_eq!(render("{Battery::ChargeTexts}", &config, &cache).ok().unwrap(), text);
    }
    let cache = loaded_cache(60, true);
    assert_eq!(render("{Battery::ChargeTexts}", &config, &cache).ok().unwrap(), "C2");
}

#[test]
fn charge_texts_missing_range_text() {
    let mut config = base_config();
    config.isnt_charging_texts = vec!["only".into()];
    let cache = loaded_cache(60, false);
    assert!(matches!(render("{Battery::ChargeTexts}", &config, &cache), Err(FormatError::NoChargeRangeText)));
    let cache = loaded_cache(10, false);
    assert_eq!(render("{Battery::ChargeTexts}", &config, &cache).ok().unwrap(), "only");
}

#[test]
fn is_charging_text_field() {
    let config = base_config();
    assert_eq!(render("{Battery::IsChargingText}", &config, &loaded_cache(1, true)).ok().unwrap(), "charging");
    assert_eq!(render("{Battery::IsChargingText}", &config, &loaded_cache(1, false)).ok().unwrap(), "discharging");
}

#[test]
fn device_info_fields() {
    let config = base_config();
    let cache = loaded_cache(1, false);
    assert_eq!(
        render("{DeviceInfo::DeviceName} {DeviceInfo::DeviceTypeText} {DeviceInfo::Address}", &config, &cache).ok().unwrap(),
        "Pixel Phone 192.168.1.2"
    );
    for (t, text) in [(DeviceType::Tablet, "Tablet"), (DeviceType::Desktop, "Desktop"), (DeviceType::Laptop, "Laptop")] {
        let cache = DeviceCategoryDataCache::new(device_info(true, t, vec![]));
        assert_eq!(render("{DeviceInfo::DeviceTypeText}", &config, &cache).ok().unwrap(), text);
    }
    let cache = DeviceCategoryDataCache::new(device_info(true, DeviceType::Phone, vec![]));
    assert!(matches!(render("{DeviceInfo::Address}", &config, &cache), Err(FormatError::AddressNotFound)));
}

#[test]
fn field_parse_errors() {
    assert!(matches!(GlobalFormat::parse("{Battery}"), Err(FormatError::MissingField(s)) if s == "Battery"));
    assert!(matches!(GlobalFormat::parse("x}"), Err(FormatError::MissingField(s)) if s == "x"));
    assert!(matches!(GlobalFormat::parse("{Foo::Bar}"), Err(FormatError::UnknownCategory(s)) if s == "Foo"));
    assert!(matches!(GlobalFormat::parse("{Battery::Foo}"), Err(FormatError::UnknownField(s)) if s == "Foo"));
    assert!(matches!(GlobalFormat::parse("{Battery::}"), Err(FormatError::UnknownField(s)) if s.is_empty()));
    assert!(matches!(NotificationFormat::parse("{Nope}"), Err(FormatError::UnknownField(s)) if s == "Nope"));
    assert!(matches!(
        kdeconnect_waybar::formatter::field::failed_to_parse_field_kind("x"),
        FormatError::UnknownField(s) if s == "x"
    ));
}

#[test]
fn field_parse_edge_cases() {
    let config = base_config();
    let cache = loaded_cache(9, false);
    // a third component is ignored
    assert_eq!(render("{Battery::ChargePercent::extra}", &config, &cache).ok().unwrap(), "9");
    // an opening brace only ends the text before it
    assert_eq!(render("a{b", &config, &cache).ok().unwrap(), "ab");
    assert_eq!(render("a{{b", &config, &cache).ok().unwrap(), "ab");
    let f: GlobalFormat = Format::parse("a{Battery::ChargePercent}b").ok().unwrap();
    assert_eq!(f.chunks().len(), 3);
    assert!(matches!(&f.chunks()[1], kdeconnect_waybar::formatter::Chunk::Field(FieldCategory::Battery(_))));
    let empty: GlobalFormat = Format::default();
    assert_eq!(empty.to_string(&config, &cache).ok().unwrap(), "");
}

#[test]
fn missing_data_is_requested() {
    let config = base_config();
    let mut cache = DeviceCategoryDataCache::new(device_info(true, DeviceType::Phone, vec![]));
    assert!(matches!(render("{Battery::ChargePercent}", &config, &cache), Err(FormatError::BatteryNotLoaded)));
    assert!(matches!(render("{Notification::Single}", &config, &cache), Err(FormatError::NotificationsNotLoaded)));
    assert_eq!(render("{DeviceInfo::DeviceName}", &config, &cache).ok().unwrap(), "Pixel");
    cache.set_battery(BatteryStatus { is_charging: false, charge: 3 });
    assert_eq!(render("{Battery::ChargePercent}", &config, &cache).ok().unwrap(), "3");
    cache.set_notifications(vec![]);
    assert_eq!(render("{Notification::Single}", &config, &cache).ok().unwrap(), "");
}

#[test]
fn notifications_grouped_by_app() {
    let mut config = base_config();
    let mut cache = loaded_cache(1, false);
    cache.set_notifications(vec![
        notification("b", "t1", "x", false),
        notification("a", "t2", "y", false),
        notification("b", "t3", "z", false),
    ]);
    assert_eq!(render("{Notification::Grouped}", &config, &cache).ok().unwrap(), "a:1 b:2 ");
    config.notification_grouped_format = Some(notification_format("{CountText};"));
    config.notifications_count_text = vec![(2, "two".into()), (0, "many".into())];
    assert_eq!(render("{Notification::Grouped}", &config, &cache).ok().unwrap(), "many;two;");
    config.notifications_count_text = vec![(1, "one".into())];
    assert_eq!(render("{Notification::Grouped}", &config, &cache).ok().unwrap(), "one;2;");
}

#[test]
fn custom_icons() {
    let mut config = base_config();
    config.notification_grouped_format = Some(notification_format("{CustomIcon}"));
    let mut cache = loaded_cache(1, false);
    cache.set_notifications(vec![notification("YouTube", "t", "x", false), notification("Mail", "t", "x", false)]);
    assert_eq!(render("{Notification::Grouped}", &config, &cache).ok().unwrap(), "??");
    config.app_icons = vec![("YouTube".into(), "Y".into())];
    assert_eq!(render("{Notification::Grouped}", &config, &cache).ok().unwrap(), "?Y");
    config.app_icons = vec![("YouTube".into(), "Y".into()), ("".into(), "*".into())];
    assert_eq!(render("{Notification::Grouped}", &config, &cache).ok().unwrap(), "*Y");
    assert_eq!(Notification::get_custom_icon("youtube", &config), "*");
}

#[test]
fn single_notifications_are_escaped() {
    let config = base_config();
    let mut cache = loaded_cache(1, false);
    cache.set_notifications(vec![
        notification("b", "<b>", "a & 'b' \"c\"", false),
        notification("a", "T", "l1<br/>l2<br/", true),
    ]);
    assert_eq!(
        render("{Notification::Single}", &config, &cache).ok().unwrap(),
        "[T|l1\nl2<br/][&lt;b&gt;|a &amp; &apos;b&apos; &quot;c&quot;]"
    );
}

#[test]
fn notification_fields_by_mode() {
    let mut config = base_config();
    let mut cache = loaded_cache(1, false);
    cache.set_notifications(vec![notification("a", "t", "x", false)]);
    config.notification_single_format = Some(notification_format("{Count}"));
    assert!(matches!(render("{Notification::Single}", &config, &cache), Err(FormatError::NotAvailableInSingle)));
    config.notification_grouped_format = Some(notification_format("{Title}"));
    assert!(matches!(render("{Notification::Grouped}", &config, &cache), Err(FormatError::NotAvailableInGrouped)));
    config.notification_grouped_format = None;
    assert!(matches!(render("{Notification::Grouped}", &config, &cache), Err(FormatError::GroupedFormatUndefined)));
    config.notification_single_format = None;
    assert!(matches!(render("{Notification::Single}", &config, &cache), Err(FormatError::SingleFormatUndefined)));
}

#[test]
fn notification_format_field_methods() {
    let config = base_config();
    let n = notification("App", "Title", "x", false);
    let mut s = String::new();
    NotificationFormatField::AppName.format_single(&mut s, &n, &config).ok().unwrap();
    NotificationFormatField::Title.format_single(&mut s, &n, &config).ok().unwrap();
    assert_eq!(s, "AppTitle");
    let mut s = String::new();
    let group = vec![&n, &n];
    NotificationFormatField::Count.format_grouped(&mut s, "App", &group, &config).ok().unwrap();
    assert_eq!(s, "2");
    let text = Notification::Single.to_string(&[n], &config).ok().unwrap();
    assert_eq!(text, "[Title|x]");
}

#[test]
fn notifications_sorted_stably() {
    let mut cache = loaded_cache(1, false);
    cache.set_notifications(vec![
        notification("b", "1", "", false),
        notification("a", "2", "", false),
        notification("b", "3", "", false),
        notification("B", "4", "", false),
    ]);
    let ns = cache.get_notifications().ok().unwrap();
    let order: Vec<&str> = ns.iter().map(|n| n.title.as_str()).collect();
    assert_eq!(order, vec!["4", "2", "1", "3"]);
}

#[test]
fn sanitize_html() {
    let mut s = String::from("x");
    sanitizate_html_tags(&mut s, "<a href=\"u\">'&'</a>");
    assert_eq!(s, "x&lt;a href=&quot;u&quot;&gt;&apos;&amp;&apos;&lt;/a&gt;");
}

#[test]
fn output_for_device() {
    let mut config = base_config();
    let none = OutputFormat::format_output(None, &config).ok().unwrap();
    assert_eq!(none.text, "none");
    assert_eq!(none.tooltip.as_deref(), Some("no device"));
    let unreachable = DeviceCategoryDataCache::new(device_info(false, DeviceType::Phone, vec![]));
    let out = OutputFormat::format_output(Some(&unreachable), &config).ok().unwrap();
    assert_eq!(out.text, "none");
    let cache = loaded_cache(80, true);
    let out = OutputFormat::format_output(Some(&cache), &config).ok().unwrap();
    assert_eq!(out.text, "80%");
    assert_eq!(out.tooltip, None);
    config.tooltip_format = Some(Format::parse("{DeviceInfo::DeviceName}").ok().unwrap());
    let out = OutputFormat::format_output(Some(&cache), &config).ok().unwrap();
    assert_eq!(out.tooltip.as_deref(), Some("Pixel"));
    let empty = DeviceCategoryDataCache::new(device_info(true, DeviceType::Phone, vec![]));
    assert!(matches!(OutputFormat::format_output(Some(&empty), &config), Err(FormatError::BatteryNotLoaded)));
}

#[test]
fn chunk_methods() {
    let config = base_config();
    let cache = loaded_cache(5, false);
    let f: GlobalFormat = Format::parse("x{Battery::ChargePercent}").ok().unwrap();
    assert_eq!(f.chunks()[0].to_str(&config, &cache).ok().unwrap(), "x");
    assert_eq!(f.chunks()[1].to_str(&config, &cache).ok().unwrap(), "5");
    let field: FieldCategory = f.chunks().iter().find_map(|c| match c {
        kdeconnect_waybar::formatter::Chunk::Field(x) => Some(*x),
        _ => None,
    }).unwrap();
    assert_eq!(field.get_from_device(&config, &cache).ok().unwrap(), "5");
}

#[test]
fn undefined_notification_format_leaves_text_unchanged() {
    let mut config = base_config();
    config.notification_grouped_format = None;
    let ns = vec![notification("Signal", "Ann", "hi", false)];
    let mut f = String::from("before");
    let r = Notification::Grouped.format(&mut f, &ns, &config);
    assert!(matches!(r, Err(FormatError::GroupedFormatUndefined)));
    assert_eq!(f, "before");
}

#[test]
fn failing_field_keeps_text_rendered_before_it() {
    let config = base_config();
    let cache = DeviceCategoryDataCache::new(device_info(true, DeviceType::Phone, vec![]));
    let format: GlobalFormat = Format::parse("name {DeviceInfo::DeviceName} at {DeviceInfo::Address} end").ok().unwrap();
    let mut f = String::from(">");
    let r = format.format(&mut f, &config, &cache);
    assert!(matches!(r, Err(FormatError::AddressNotFound)));
    assert_eq!(f, ">name Pixel at ");
}

#[test]
fn failing_single_format_keeps_earlier_notifications() {
    let mut config = base_config();
    config.notification_single_format = Some(notification_format("<{AppName}>{Count}"));
    let ns = vec![notification("Mail", "a", "b", false)];
    let mut f = String::new();
    let r = Notification::Single.format(&mut f, &ns, &config);
    assert!(matches!(r, Err(FormatError::NotAvailableInSingle)));
    assert_eq!(f, "<Mail>");
}

#[test]
fn html_escaping_is_reversible() {
    let mut f = String::new();
    sanitizate_html_tags(&mut f, "a<b>&\"c'");
    assert_eq!(f, "a&lt;b&gt;&amp;&quot;c&apos;");
    let back = f
        .replace("&lt;", "<")
        .replace("&gt;", ">")
        .replace("&quot;", "\"")
        .replace("&apos;", "'")
        .replace("&amp;", "&");
    assert_eq!(back, "a<b>&\"c'");
    let mut plain = String::new();
    sanitizate_html_tags(&mut plain, "plain text");
    assert_eq!(plain, "plain text");
}
