use kdeconnect_waybar::config::defaults::{
    default_charge_ranges, default_device_not_found_text, default_device_not_found_tooltip_text,
    default_device_phone_text, default_device_tablet_text, default_is_charging_text,
    default_is_charging_texts, default_isnt_charging_text, default_isnt_charging_texts,
    default_update_interval,
};
use kdeconnect_waybar::config::{Config, ConfigFile};
use kdeconnect_waybar::formatter::Format;
use std::time::Duration;

fn named_config(name: Option<&str>) -> Config {
    Config {
        name: name.map(|s| s.to_string()),
        device_id: None,
        update_interval: default_update_interval(),
        format: Format::new(),
        tooltip_format: None,
        device_not_found_text: default_device_not_found_text(),
        device_not_found_tooltip_text: default_device_not_found_tooltip_text(),
        is_charging_text: default_is_charging_text(),
        isnt_charging_text: default_isnt_charging_text(),
        charge_ranges: default_charge_ranges(),
        is_charging_texts: default_is_charging_texts(),
        isnt_charging_texts: default_isnt_charging_texts(),
        device_phone_text: default_device_phone_text(),
        device_tablet_text: default_device_tablet_text(),
        device_desktop_text: String::new(),
        device_laptop_text: String::new(),
        notification_grouped_format: None,
        notification_single_format: None,
        notifications_count_text: vec![],
        app_icons: vec![],
    }
}

#[test]
fn default_values() {
    assert_eq!(default_update_interval(), Duration::from_secs(5));
    assert_eq!(default_device_not_found_text(), "\u{f00c}");
    assert_eq!(default_device_not_found_tooltip_text(), "\u{f00d}");
    assert_eq!(default_is_charging_text(), "\u{f140b}");
    assert_eq!(default_isnt_charging_text(), "\u{f00d}");
    assert_eq!(default_device_phone_text(), "\u{f10b}");
    assert_eq!(default_device_tablet_text(), "\u{f10a}");
    assert_eq!(default_charge_ranges(), vec![10, 20, 30, 40, 50, 60, 70, 80, 90]);
    assert_eq!(default_is_charging_texts()[0], "\u{f089c}");
    assert_eq!(default_is_charging_texts()[9], "\u{f0085}");
    assert_eq!(default_isnt_charging_texts()[0], "\u{f007a}");
    assert_eq!(default_isnt_charging_texts()[9], "\u{f0079}");
}

#[test]
fn default_ranges_have_one_text_each() {
    let ranges = default_charge_ranges();
    assert_eq!(default_is_charging_texts().len(), ranges.len() + 1);
    assert_eq!(default_isnt_charging_texts().len(), ranges.len() + 1);
    assert!(ranges.windows(2).all(|w| w[0] <= w[1]));
}

#[test]
fn config_selection() {
    let file = ConfigFile { configs: vec![named_config(None), named_config(Some("work")), named_config(Some("work"))] };
    assert_eq!(file.select_index(None), Some(0));
    assert_eq!(file.select_index(Some("work")), Some(1));
    assert_eq!(file.select_index(Some("home")), None);
    let selected = file.select(Some("work")).unwrap();
    assert_eq!(selected.name.as_deref(), Some("work"));
    let empty = ConfigFile { configs: vec![] };
    assert_eq!(empty.select_index(None), None);
}

#[test]
fn blank_name_is_the_default_config() {
    let file = ConfigFile { configs: vec![named_config(Some("work")), named_config(None)] };
    assert_eq!(file.select_index(None), Some(1));
    let selected = file.select(None).unwrap();
    assert_eq!(selected.name, None);
    let no_blank = ConfigFile { configs: vec![named_config(Some("work")), named_config(Some("home"))] };
    assert_eq!(no_blank.select_index(None), Some(0));
}
