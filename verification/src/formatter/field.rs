//! Fields of a [`super::GlobalFormat`]: `Category::Field`, and their text for a device.
use super::notification::{
    sort_by_app_name, sort_notifications, spec_notification_text, spec_notification_written, Notification,
};
use super::{text_result_view, FieldFormat, FormatError, FormatErrorView};
use crate::config::Config;
use crate::text::{eq_literal, int_decimal, push_i64_decimal, to_chars, string_from_chars};
use crate::wrapper::device::{BatteryStatus, DeviceInfoData, DeviceType};
use crate::wrapper::notifications::NotificationData;
use vstd::prelude::*;

verus! {

/// The categories of fields of a [`super::GlobalFormat`].
#[derive(Debug, Clone, Copy)]
pub enum FieldCategory {
    DeviceInfo(DeviceInfo),
    Battery(Battery),
    Notification(Notification),
}

/// Information about the device.
#[derive(Debug, Clone, Copy)]
pub enum DeviceInfo {
    /// The first reachable address of the device.
    Address,
    /// The name of the device.
    DeviceName,
    /// [`Config::device_phone_text`], [`Config::device_tablet_text`],
    /// [`Config::device_desktop_text`] or [`Config::device_laptop_text`] by the
    /// type of the device.
    DeviceTypeText,
}

/// The battery of the device.
#[derive(Debug, Clone, Copy)]
pub enum Battery {
    /// The charge in percent, without a percent sign.
    ChargePercent,
    /// [`Config::is_charging_text`] or [`Config::isnt_charging_text`].
    IsChargingText,
    /// The text of [`Config::is_charging_texts`] or [`Config::isnt_charging_texts`]
    /// for the range of [`Config::charge_ranges`] that holds the charge.
    ChargeTexts,
}

impl DeviceInfo {
    pub open spec fn spec_from_name(s: Seq<char>) -> Option<DeviceInfo> {
        if s == "Address"@ {
            Some(DeviceInfo::Address)
        } else if s == "DeviceName"@ {
            Some(DeviceInfo::DeviceName)
        } else if s == "DeviceTypeText"@ {
            Some(DeviceInfo::DeviceTypeText)
        } else {
            None
        }
    }

    /// The field spelled `s`.
    pub fn from_name(s: &Vec<char>) -> (r: Option<DeviceInfo>)
        ensures
            r == Self::spec_from_name(s@),
    {
        if eq_literal(s, "Address") {
            Some(DeviceInfo::Address)
        } else if eq_literal(s, "DeviceName") {
            Some(DeviceInfo::DeviceName)
        } else if eq_literal(s, "DeviceTypeText") {
            Some(DeviceInfo::DeviceTypeText)
        } else {
            None
        }
    }
}

impl Battery {
    pub open spec fn spec_from_name(s: Seq<char>) -> Option<Battery> {
        if s == "ChargePercent"@ {
            Some(Battery::ChargePercent)
        } else if s == "IsChargingText"@ {
            Some(Battery::IsChargingText)
        } else if s == "ChargeTexts"@ {
            Some(Battery::ChargeTexts)
        } else {
            None
        }
    }

    /// The field spelled `s`.
    pub fn from_name(s: &Vec<char>) -> (r: Option<Battery>)
        ensures
            r == Self::spec_from_name(s@),
    {
        if eq_literal(s, "ChargePercent") {
            Some(Battery::ChargePercent)
        } else if eq_literal(s, "IsChargingText") {
            Some(Battery::IsChargingText)
        } else if eq_literal(s, "ChargeTexts") {
            Some(Battery::ChargeTexts)
        } else {
            None
        }
    }
}

impl Notification {
    pub open spec fn spec_from_name(s: Seq<char>) -> Option<Notification> {
        if s == "Grouped"@ {
            Some(Notification::Grouped)
        } else if s == "Single"@ {
            Some(Notification::Single)
        } else {
            None
        }
    }

    /// The field spelled `s`.
    pub fn from_name(s: &Vec<char>) -> (r: Option<Notification>)
        ensures
            r == Self::spec_from_name(s@),
    {
        if eq_literal(s, "Grouped") {
            Some(Notification::Grouped)
        } else if eq_literal(s, "Single") {
            Some(Notification::Single)
        } else {
            None
        }
    }
}

/// Whether `::` starts at index `i` of `s`.
pub open spec fn is_separator_at(s: Seq<char>, i: int) -> bool {
    0 <= i && i + 1 < s.len() && s[i] == ':' && s[i + 1] == ':'
}

/// The first index at or after `from` where `::` starts.
pub open spec fn separator_from(s: Seq<char>, from: int) -> Option<int>
    decreases s.len() - from,
{
    if from < 0 || from + 1 >= s.len() {
        None
    } else if is_separator_at(s, from) {
        Some(from)
    } else {
        separator_from(s, from + 1)
    }
}

/// The field that `s` names: the category before the first `::`, the field
/// name between it and the next `::` (or the end).
pub open spec fn spec_parse_field_category(s: Seq<char>) -> Result<FieldCategory, FormatErrorView> {
    match separator_from(s, 0) {
        None => Err(FormatErrorView::MissingField(s)),
        Some(p) => {
            let category = s.subrange(0, p);
            let end = match separator_from(s, p + 2) {
                Some(q) => q,
                None => s.len() as int,
            };
            let field = s.subrange(p + 2, end);
            if category == "Battery"@ {
                match Battery::spec_from_name(field) {
                    Some(b) => Ok(FieldCategory::Battery(b)),
                    None => Err(FormatErrorView::UnknownField(field)),
                }
            } else if category == "DeviceInfo"@ {
                match DeviceInfo::spec_from_name(field) {
                    Some(d) => Ok(FieldCategory::DeviceInfo(d)),
                    None => Err(FormatErrorView::UnknownField(field)),
                }
            } else if category == "Notification"@ {
                match Notification::spec_from_name(field) {
                    Some(n) => Ok(FieldCategory::Notification(n)),
                    None => Err(FormatErrorView::UnknownField(field)),
                }
            } else {
                Err(FormatErrorView::UnknownCategory(category))
            }
        },
    }
}

fn find_separator(s: &Vec<char>, from: usize) -> (r: Option<usize>)
    ensures
        match r {
            Some(p) => separator_from(s@, from as int) == Some(p as int) && is_separator_at(s@, p as int) && from <= p,
            None => separator_from(s@, from as int) is None,
        },
{
    let mut i = from;
    while i < s.len() && i + 1 < s.len()
        invariant
            from <= i,
            separator_from(s@, from as int) == separator_from(s@, i as int),
        decreases s.len() - i,
    {
        if s[i] == ':' && s[i + 1] == ':' {
            return Some(i);
        }
        i = i + 1;
    }
    None
}

impl FieldFormat for FieldCategory {
    open spec fn spec_parse(s: Seq<char>) -> Result<FieldCategory, FormatErrorView> {
        spec_parse_field_category(s)
    }

    fn parse(s: &str) -> (r: Result<FieldCategory, FormatError>) {
        let chars = to_chars(s);
        assert(chars@.subrange(0, chars@.len() as int) =~= chars@);
        let p = match find_separator(&chars, 0) {
            Some(p) => p,
            None => return Err(FormatError::MissingField(string_from_chars(&chars, 0, chars.len()))),
        };
        let end = match find_separator(&chars, p + 2) {
            Some(q) => q,
            None => chars.len(),
        };
        let category = string_from_chars(&chars, 0, p);
        let category_chars = to_chars(category.as_str());
        let field_chars = to_chars(string_from_chars(&chars, p + 2, end).as_str());
        if eq_literal(&category_chars, "Battery") {
            match Battery::from_name(&field_chars) {
                Some(b) => Ok(FieldCategory::Battery(b)),
                None => Err(FormatError::UnknownField(string_from_chars(&chars, p + 2, end))),
            }
        } else if eq_literal(&category_chars, "DeviceInfo") {
            match DeviceInfo::from_name(&field_chars) {
                Some(d) => Ok(FieldCategory::DeviceInfo(d)),
                None => Err(FormatError::UnknownField(string_from_chars(&chars, p + 2, end))),
            }
        } else if eq_literal(&category_chars, "Notification") {
            match Notification::from_name(&field_chars) {
                Some(n) => Ok(FieldCategory::Notification(n)),
                None => Err(FormatError::UnknownField(string_from_chars(&chars, p + 2, end))),
            }
        } else {
            Err(FormatError::UnknownCategory(category))
        }
    }
}

/// The error of a field that could not be parsed from `s`.
pub fn failed_to_parse_field_kind(s: &str) -> (r: FormatError)
    ensures
        r@ == FormatErrorView::UnknownField(s@),
{
    FormatError::UnknownField(String::from_str(s))
}

/// Index of the range of `ranges` that holds `charge`: the first bound that
/// `charge` does not exceed, or the number of bounds when it exceeds all.
pub open spec fn charge_range_index(ranges: Seq<i64>, charge: i64) -> nat
    decreases ranges.len(),
{
    if ranges.len() == 0 {
        0
    } else if charge <= ranges[0] {
        0
    } else {
        1 + charge_range_index(ranges.drop_first(), charge)
    }
}

/// The index of [`charge_range_index`] in words: every bound before it is
/// below the charge, and the bound at it (if any) is not.
pub proof fn lemma_charge_range_index(ranges: Seq<i64>, charge: i64)
    ensures
        charge_range_index(ranges, charge) <= ranges.len(),
        forall|j: int| 0 <= j < charge_range_index(ranges, charge) ==> ranges[j] < charge,
        charge_range_index(ranges, charge) < ranges.len() ==> charge <= ranges[charge_range_index(
            ranges,
            charge,
        ) as int],
    decreases ranges.len(),
{
    if ranges.len() > 0 && charge > ranges[0] {
        lemma_charge_range_index(ranges.drop_first(), charge);
        assert forall|j: int| 0 <= j < charge_range_index(ranges, charge) implies ranges[j] < charge by {
            if j > 0 {
                assert(ranges[j] == ranges.drop_first()[j - 1]);
            }
        }
    }
}

/// With bounds in ascending order, a higher charge never falls in a lower range.
pub proof fn lemma_charge_range_index_monotonic(ranges: Seq<i64>, low: i64, high: i64)
    requires
        low <= high,
        forall|i: int, j: int| 0 <= i <= j < ranges.len() ==> ranges[i] <= ranges[j],
    ensures
        charge_range_index(ranges, low) <= charge_range_index(ranges, high),
    decreases ranges.len(),
{
    if ranges.len() > 0 && low > ranges[0] {
        lemma_charge_range_index_monotonic(ranges.drop_first(), low, high);
    }
}

/// With one text per range (one more text than bounds), `ChargeTexts` has a
/// text for every charge.
pub proof fn lemma_charge_texts_complete(status: BatteryStatus, config: Config)
    requires
        config.is_charging_texts@.len() == config.charge_ranges@.len() + 1,
        config.isnt_charging_texts@.len() == config.charge_ranges@.len() + 1,
    ensures
        spec_battery_text(Battery::ChargeTexts, status, config) is Ok,
{
    lemma_charge_range_index(config.charge_ranges@, status.charge);
}

/// Finds the range of `ranges` that holds `charge`.
pub fn charge_range(ranges: &Vec<i64>, charge: i64) -> (r: usize)
    ensures
        r == charge_range_index(ranges@, charge),
{
    let mut i: usize = 0;
    assert(ranges@.skip(0) =~= ranges@);
    while i < ranges.len() && !(charge <= ranges[i])
        invariant
            i <= ranges@.len(),
            charge_range_index(ranges@, charge) == i + charge_range_index(ranges@.skip(i as int), charge),
        decreases ranges.len() - i,
    {
        assert(ranges@.skip(i as int).drop_first() =~= ranges@.skip(i + 1));
        i = i + 1;
    }
    i
}

/// The text of a battery field for the battery status `status`.
pub open spec fn spec_battery_text(b: Battery, status: BatteryStatus, config: Config) -> Result<Seq<char>, FormatErrorView> {
    match b {
        Battery::ChargePercent => Ok(int_decimal(status.charge as int)),
        Battery::IsChargingText => Ok(
            if status.is_charging {
                config.is_charging_text@
            } else {
                config.isnt_charging_text@
            },
        ),
        Battery::ChargeTexts => {
            let texts = if status.is_charging {
                config.is_charging_texts@
            } else {
                config.isnt_charging_texts@
            };
            let i = charge_range_index(config.charge_ranges@, status.charge);
            if i < texts.len() {
                Ok(texts[i as int]@)
            } else {
                Err(FormatErrorView::NoChargeRangeText)
            }
        },
    }
}

/// The text of a device information field.
pub open spec fn spec_device_info_text(d: DeviceInfo, info: DeviceInfoData, config: Config) -> Result<Seq<char>, FormatErrorView> {
    match d {
        DeviceInfo::Address => if info.reachable_addresses@.len() > 0 {
            Ok(info.reachable_addresses@[0]@)
        } else {
            Err(FormatErrorView::AddressNotFound)
        },
        DeviceInfo::DeviceName => Ok(info.name@),
        DeviceInfo::DeviceTypeText => Ok(
            match info.type_ {
                DeviceType::Phone => config.device_phone_text@,
                DeviceType::Tablet => config.device_tablet_text@,
                DeviceType::Desktop => config.device_desktop_text@,
                DeviceType::Laptop => config.device_laptop_text@,
            },
        ),
    }
}

/// The data of one device that fields are rendered from: its information,
/// and its battery status and notifications once they are loaded.
#[derive(Debug)]
pub struct DeviceCategoryDataCache {
    device_info: DeviceInfoData,
    battery: Option<BatteryStatus>,
    notification: Option<Vec<NotificationData>>,
}

impl DeviceCategoryDataCache {
    pub closed spec fn spec_device_info(&self) -> DeviceInfoData {
        self.device_info
    }

    pub closed spec fn spec_battery(&self) -> Option<BatteryStatus> {
        self.battery
    }

    pub closed spec fn spec_notifications(&self) -> Option<Seq<NotificationData>> {
        match self.notification {
            Some(v) => Some(v@),
            None => None,
        }
    }

    /// A cache of a device with the information `device_info`, with nothing loaded yet.
    pub fn new(device_info: DeviceInfoData) -> (r: Self)
        ensures
            r.spec_device_info() == device_info,
            r.spec_battery() is None,
            r.spec_notifications() is None,
    {
        DeviceCategoryDataCache { device_info, battery: None, notification: None }
    }

    pub fn get_device_info(&self) -> (r: &DeviceInfoData)
        ensures
            *r == self.spec_device_info(),
    {
        &self.device_info
    }

    /// The battery status, or [`FormatError::BatteryNotLoaded`].
    pub fn get_battery(&self) -> (r: Result<&BatteryStatus, FormatError>)
        ensures
            match self.spec_battery() {
                Some(b) => r == Ok::<&BatteryStatus, FormatError>(&b),
                None => r matches Err(e) && e@ == FormatErrorView::BatteryNotLoaded,
            },
    {
        match &self.battery {
            Some(b) => Ok(b),
            None => Err(FormatError::BatteryNotLoaded),
        }
    }

    /// The notifications, or [`FormatError::NotificationsNotLoaded`].
    pub fn get_notifications(&self) -> (r: Result<&Vec<NotificationData>, FormatError>)
        ensures
            match self.spec_notifications() {
                Some(ns) => r matches Ok(v) && v@ == ns,
                None => r matches Err(e) && e@ == FormatErrorView::NotificationsNotLoaded,
            },
    {
        match &self.notification {
            Some(n) => Ok(n),
            None => Err(FormatError::NotificationsNotLoaded),
        }
    }

    /// Stores the battery status of the device.
    pub fn set_battery(&mut self, battery: BatteryStatus)
        ensures
            final(self).spec_battery() == Some(battery),
            final(self).spec_device_info() == old(self).spec_device_info(),
            final(self).spec_notifications() == old(self).spec_notifications(),
    {
        self.battery = Some(battery);
    }

    /// Stores the notifications of the device, sorted by application name
    /// (stable: notifications of one application keep their order).
    pub fn set_notifications(&mut self, notifications: Vec<NotificationData>)
        ensures
            final(self).spec_notifications() == Some(sort_by_app_name(notifications@)),
            final(self).spec_device_info() == old(self).spec_device_info(),
            final(self).spec_battery() == old(self).spec_battery(),
    {
        self.notification = Some(sort_notifications(notifications));
    }
}

/// The text of the field `f` for the data in `cache`.
pub open spec fn spec_field_text(f: FieldCategory, config: Config, cache: DeviceCategoryDataCache) -> Result<Seq<char>, FormatErrorView> {
    match f {
        FieldCategory::Battery(b) => match cache.spec_battery() {
            None => Err(FormatErrorView::BatteryNotLoaded),
            Some(status) => spec_battery_text(b, status, config),
        },
        FieldCategory::DeviceInfo(d) => spec_device_info_text(d, cache.spec_device_info(), config),
        FieldCategory::Notification(n) => match cache.spec_notifications() {
            None => Err(FormatErrorView::NotificationsNotLoaded),
            Some(ns) => spec_notification_text(n, ns, config),
        },
    }
}

/// Device fields render the device's own data: `Address` its first
/// reachable address (an error when it has none), `DeviceName` its name,
/// `DeviceTypeText` the text configured for its type. With the battery
/// loaded, `ChargePercent` is the charge in decimal and `IsChargingText`
/// the text configured for charging or not charging.
pub proof fn lemma_device_field_texts(config: Config, cache: DeviceCategoryDataCache)
    ensures
        ({
            let addresses = cache.spec_device_info().reachable_addresses@;
            spec_field_text(FieldCategory::DeviceInfo(DeviceInfo::Address), config, cache) == if addresses.len() > 0 {
                Ok::<_, FormatErrorView>(addresses[0]@)
            } else {
                Err::<Seq<char>, _>(FormatErrorView::AddressNotFound)
            }
        }),
        spec_field_text(FieldCategory::DeviceInfo(DeviceInfo::DeviceName), config, cache) == Ok::<_, FormatErrorView>(
            cache.spec_device_info().name@,
        ),
        cache.spec_device_info().type_ == DeviceType::Phone ==> spec_field_text(
            FieldCategory::DeviceInfo(DeviceInfo::DeviceTypeText),
            config,
            cache,
        ) == Ok::<_, FormatErrorView>(config.device_phone_text@),
        cache.spec_device_info().type_ == DeviceType::Tablet ==> spec_field_text(
            FieldCategory::DeviceInfo(DeviceInfo::DeviceTypeText),
            config,
            cache,
        ) == Ok::<_, FormatErrorView>(config.device_tablet_text@),
        cache.spec_device_info().type_ == DeviceType::Desktop ==> spec_field_text(
            FieldCategory::DeviceInfo(DeviceInfo::DeviceTypeText),
            config,
            cache,
        ) == Ok::<_, FormatErrorView>(config.device_desktop_text@),
        cache.spec_device_info().type_ == DeviceType::Laptop ==> spec_field_text(
            FieldCategory::DeviceInfo(DeviceInfo::DeviceTypeText),
            config,
            cache,
        ) == Ok::<_, FormatErrorView>(config.device_laptop_text@),
        cache.spec_battery() matches Some(status) ==> spec_field_text(
            FieldCategory::Battery(Battery::ChargePercent),
            config,
            cache,
        ) == Ok::<_, FormatErrorView>(int_decimal(status.charge as int)),
        cache.spec_battery() matches Some(status) ==> spec_field_text(
            FieldCategory::Battery(Battery::IsChargingText),
            config,
            cache,
        ) == Ok::<_, FormatErrorView>(
            if status.is_charging {
                config.is_charging_text@
            } else {
                config.isnt_charging_text@
            },
        ),
        cache.spec_battery() is None ==> spec_field_text(FieldCategory::Battery(Battery::ChargePercent), config, cache)
            == Err::<Seq<char>, _>(FormatErrorView::BatteryNotLoaded),
{
}

/// The text the field `f` appends for the data in `cache`, whether it
/// succeeds or not: its text, or nothing when it fails, except that a
/// notification field leaves what it rendered before it failed (see
/// [`spec_notification_written`]).
pub open spec fn spec_field_written(f: FieldCategory, config: Config, cache: DeviceCategoryDataCache) -> Seq<char> {
    match f {
        FieldCategory::Notification(n) => match cache.spec_notifications() {
            None => Seq::empty(),
            Some(ns) => spec_notification_written(n, ns, config),
        },
        _ => match spec_field_text(f, config, cache) {
            Ok(t) => t,
            Err(_) => Seq::empty(),
        },
    }
}

impl FieldCategory {
    /// The text that replaces this field.
    pub fn get_from_device(&self, config: &Config, cache: &DeviceCategoryDataCache) -> (r: Result<String, FormatError>)
        ensures
            text_result_view(r) == spec_field_text(*self, *config, *cache),
    {
        let mut s = String::new();
        match self.format_from_device(&mut s, config, cache) {
            Ok(()) => Ok(s),
            Err(e) => Err(e),
        }
    }

    /// Appends the text that replaces this field to `f`.
    pub fn format_from_device(&self, f: &mut String, config: &Config, cache: &DeviceCategoryDataCache) -> (r: Result<(), FormatError>)
        ensures
            old(f)@.is_prefix_of(final(f)@),
            final(f)@ == old(f)@ + spec_field_written(*self, *config, *cache),
            match spec_field_text(*self, *config, *cache) {
                Ok(t) => r is Ok && final(f)@ == old(f)@ + t,
                Err(e) => r matches Err(x) && x@ == e,
            },
    {
        assert(old(f)@ + Seq::<char>::empty() =~= old(f)@);
        match *self {
            FieldCategory::Battery(b) => {
                let status = match cache.get_battery() {
                    Ok(s) => s,
                    Err(e) => return Err(e),
                };
                match b {
                    Battery::ChargePercent => {
                        push_i64_decimal(f, status.charge);
                    },
                    Battery::IsChargingText => {
                        if status.is_charging {
                            f.append(config.is_charging_text.as_str());
                        } else {
                            f.append(config.isnt_charging_text.as_str());
                        }
                    },
                    Battery::ChargeTexts => {
                        let index = charge_range(&config.charge_ranges, status.charge);
                        let texts = if status.is_charging {
                            &config.is_charging_texts
                        } else {
                            &config.isnt_charging_texts
                        };
                        if index < texts.len() {
                            f.append(texts[index].as_str());
                        } else {
                            return Err(FormatError::NoChargeRangeText);
                        }
                    },
                }
            },
            FieldCategory::DeviceInfo(d) => {
                let info = cache.get_device_info();
                match d {
                    DeviceInfo::Address => {
                        if info.reachable_addresses.len() > 0 {
                            f.append(info.reachable_addresses[0].as_str());
                        } else {
                            return Err(FormatError::AddressNotFound);
                        }
                    },
                    DeviceInfo::DeviceName => {
                        f.append(info.name.as_str());
                    },
                    DeviceInfo::DeviceTypeText => match info.type_ {
                        DeviceType::Phone => f.append(config.device_phone_text.as_str()),
                        DeviceType::Tablet => f.append(config.device_tablet_text.as_str()),
                        DeviceType::Desktop => f.append(config.device_desktop_text.as_str()),
                        DeviceType::Laptop => f.append(config.device_laptop_text.as_str()),
                    },
                }
            },
            FieldCategory::Notification(n) => {
                let notifications = match cache.get_notifications() {
                    Ok(ns) => ns,
                    Err(e) => return Err(e),
                };
                return n.format(f, notifications.as_slice(), config);
            },
        }
        Ok(())
    }
}

} // verus!
