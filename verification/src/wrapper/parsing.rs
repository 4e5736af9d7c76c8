//! Reading D-Bus property maps into the data types of the wrapper.
//!
//! A D-Bus value is held as what the accessors of a D-Bus argument give:
//! its integer, its string, and its items. A property map lists property
//! names with their values; property names are the field names in camel case.
use super::device::{BatteryStatus, DeviceInfoData, DeviceType};
use super::error::{Error, ErrorView};
use super::notifications::NotificationData;
use crate::text::{chars_eq, push_char, to_chars};
use vstd::prelude::*;

verus! {

/// A D-Bus value, as its accessors read it: `as_i64`, `as_str` and `as_iter`.
#[derive(Debug)]
pub struct DBusValue {
    pub as_i64: Option<i64>,
    pub as_str: Option<String>,
    pub as_iter: Option<Vec<DBusValue>>,
}

/// Property names with their values, as a D-Bus `GetAll` returns them.
pub type PropMap = Vec<(String, DBusValue)>;

/// Types read from one D-Bus value.
pub trait FromDbusValue: Sized + DeepView {
    /// The value that `v` holds, if it holds one of this type.
    spec fn spec_from_dbus(v: DBusValue) -> Option<<Self as DeepView>::V>;

    fn from_dbus(v: &DBusValue) -> (r: Option<Self>)
        ensures
            match r {
                Some(x) => Self::spec_from_dbus(*v) == Some(x.deep_view()),
                None => Self::spec_from_dbus(*v) is None,
            },
    ;
}

impl FromDbusValue for bool {
    /// An integer, true when it is not zero.
    open spec fn spec_from_dbus(v: DBusValue) -> Option<bool> {
        match v.as_i64 {
            Some(i) => Some(i != 0),
            None => None,
        }
    }

    fn from_dbus(v: &DBusValue) -> (r: Option<bool>) {
        match v.as_i64 {
            Some(i) => Some(i != 0),
            None => None,
        }
    }
}

impl FromDbusValue for i64 {
    open spec fn spec_from_dbus(v: DBusValue) -> Option<i64> {
        v.as_i64
    }

    fn from_dbus(v: &DBusValue) -> (r: Option<i64>) {
        v.as_i64
    }
}

impl FromDbusValue for String {
    open spec fn spec_from_dbus(v: DBusValue) -> Option<Seq<char>> {
        match v.as_str {
            Some(s) => Some(s@),
            None => None,
        }
    }

    fn from_dbus(v: &DBusValue) -> (r: Option<String>) {
        match &v.as_str {
            Some(s) => Some(s.clone()),
            None => None,
        }
    }
}

/// Each of `items` read as a `T`, or none when one of them is not a `T`.
pub open spec fn spec_all_from_dbus<T: FromDbusValue>(items: Seq<DBusValue>) -> Option<Seq<<T as DeepView>::V>>
    decreases items.len(),
{
    if items.len() == 0 {
        Some(Seq::empty())
    } else {
        match spec_all_from_dbus::<T>(items.drop_last()) {
            None => None,
            Some(prefix) => match T::spec_from_dbus(items.last()) {
                None => None,
                Some(x) => Some(prefix.push(x)),
            },
        }
    }
}

impl<T: FromDbusValue> FromDbusValue for Vec<T> {
    /// A list whose items all read as `T`.
    open spec fn spec_from_dbus(v: DBusValue) -> Option<Seq<<T as DeepView>::V>> {
        match v.as_iter {
            Some(items) => spec_all_from_dbus::<T>(items@),
            None => None,
        }
    }

    fn from_dbus(v: &DBusValue) -> (r: Option<Vec<T>>) {
        let items = match &v.as_iter {
            Some(items) => items,
            None => return None,
        };
        let mut out: Vec<T> = Vec::new();
        let mut i: usize = 0;
        assert(items@.take(0) =~= Seq::<DBusValue>::empty());
        assert(out.deep_view() =~= Seq::<<T as DeepView>::V>::empty());
        while i < items.len()
            invariant
                i <= items@.len(),
                v.as_iter == Some(*items),
                spec_all_from_dbus::<T>(items@.take(i as int)) == Some(out.deep_view()),
            decreases items.len() - i,
        {
            assert(items@.take(i + 1).drop_last() =~= items@.take(i as int));
            assert(items@.take(i + 1).last() == items@[i as int]);
            match T::from_dbus(&items[i]) {
                Some(x) => {
                    let ghost before = out.deep_view();
                    out.push(x);
                    assert(out.deep_view() =~= before.push(x.deep_view()));
                },
                None => {
                    proof {
                        lemma_all_from_dbus_none::<T>(items@, i as int + 1);
                    }
                    return None;
                },
            }
            i = i + 1;
        }
        assert(items@.take(items@.len() as int) =~= items@);
        Some(out)
    }
}

proof fn lemma_all_from_dbus_none<T: FromDbusValue>(items: Seq<DBusValue>, i: int)
    requires
        0 <= i <= items.len(),
        spec_all_from_dbus::<T>(items.take(i)) is None,
    ensures
        spec_all_from_dbus::<T>(items) is None,
    decreases items.len() - i,
{
    if i < items.len() {
        assert(items.take(i + 1).drop_last() =~= items.take(i));
        lemma_all_from_dbus_none::<T>(items, i + 1);
    } else {
        assert(items.take(i) =~= items);
    }
}

/// Whether `c` is an ASCII capital letter.
pub open spec fn is_ascii_upper(c: char) -> bool {
    'A' <= c && c <= 'Z'
}

/// The ASCII capital of a small letter; other characters unchanged.
pub open spec fn ascii_upper(c: char) -> char {
    if 'a' <= c && c <= 'z' {
        (((c as u32) - 32) as u8) as char
    } else {
        c
    }
}

/// The ASCII small letter of a capital; other characters unchanged.
pub open spec fn ascii_lower(c: char) -> char {
    if is_ascii_upper(c) {
        (((c as u32) + 32) as u8) as char
    } else {
        c
    }
}

fn to_ascii_upper(c: char) -> (r: char)
    ensures
        r == ascii_upper(c),
{
    if 'a' <= c && c <= 'z' {
        ((c as u8) - 32) as char
    } else {
        c
    }
}

fn to_ascii_lower(c: char) -> (r: char)
    ensures
        r == ascii_lower(c),
{
    if 'A' <= c && c <= 'Z' {
        ((c as u8) + 32) as char
    } else {
        c
    }
}

/// Camel case of the snake case name `s`: each `_` dropped, the letter after
/// it made a capital (`upper` says that an `_` came just before `s`).
pub open spec fn camel_from(s: Seq<char>, upper: bool) -> Seq<char>
    decreases s.len(),
{
    if s.len() == 0 {
        Seq::empty()
    } else if s[0] == '_' {
        camel_from(s.skip(1), true)
    } else if upper {
        seq![ascii_upper(s[0])] + camel_from(s.skip(1), false)
    } else {
        seq![s[0]] + camel_from(s.skip(1), false)
    }
}

/// Camel case of a snake case name, e.g. `is_charging` to `isCharging`.
pub open spec fn snake_to_camel(s: Seq<char>) -> Seq<char> {
    camel_from(s, false)
}

/// The camel case of the snake case name `s`.
pub fn snake_to_camel_case(s: &str) -> (r: String)
    ensures
        r@ == snake_to_camel(s@),
{
    let chars = to_chars(s);
    let mut out = String::new();
    let mut upper = false;
    let mut i: usize = 0;
    assert(chars@.skip(0) =~= chars@);
    while i < chars.len()
        invariant
            i <= chars@.len(),
            chars@ == s@,
            out@ + camel_from(chars@.skip(i as int), upper) == snake_to_camel(s@),
        decreases chars.len() - i,
    {
        let c = chars[i];
        assert(chars@.skip(i as int).skip(1) =~= chars@.skip(i + 1));
        if c == '_' {
            upper = true;
        } else if upper {
            push_char(&mut out, to_ascii_upper(c));
            upper = false;
        } else {
            push_char(&mut out, c);
        }
        assert(out@ + camel_from(chars@.skip(i + 1), upper) =~= snake_to_camel(s@));
        i = i + 1;
    }
    assert(chars@.skip(i as int) =~= Seq::<char>::empty());
    assert(out@ =~= out@ + camel_from(chars@.skip(i as int), upper));
    out
}

/// Snake case of a camel case name: a `_` before each capital but the first
/// character, each capital made small, e.g. `DeviceType` to `device_type`.
pub open spec fn camel_to_snake(s: Seq<char>) -> Seq<char>
    decreases s.len(),
{
    if s.len() == 0 {
        Seq::empty()
    } else {
        let c = s.last();
        camel_to_snake(s.drop_last()) + if is_ascii_upper(c) {
            if s.len() - 1 != 0 {
                seq!['_', ascii_lower(c)]
            } else {
                seq![ascii_lower(c)]
            }
        } else {
            seq![c]
        }
    }
}

/// The snake case of the camel case name `s`.
pub fn camel_to_snake_case(s: &str) -> (r: String)
    ensures
        r@ == camel_to_snake(s@),
{
    let mut out = String::new();
    let mut first = true;
    for c in it: s.chars()
        invariant
            it.seq() == s@,
            first == (it.index() == 0),
            out@ == camel_to_snake(s@.take(it.index() as int)),
    {
        let ghost i = it.index() as int;
        assert(s@.take(i + 1).drop_last() =~= s@.take(i));
        assert(s@.take(i + 1).last() == c);
        if 'A' <= c && c <= 'Z' {
            if !first {
                push_char(&mut out, '_');
            }
            push_char(&mut out, to_ascii_lower(c));
        } else {
            push_char(&mut out, c);
        }
        assert(out@ =~= camel_to_snake(s@.take(i + 1)));
        first = false;
    }
    assert(s@.take(s@.len() as int) =~= s@);
    out
}

impl DeepView for DeviceType {
    type V = DeviceType;

    open spec fn deep_view(&self) -> DeviceType {
        *self
    }
}

impl DeviceType {
    /// The type whose variant name in snake case is `s`: `phone`, `tablet`,
    /// `desktop` or `laptop`.
    pub open spec fn spec_from_name(s: Seq<char>) -> Option<DeviceType> {
        if s == camel_to_snake("Phone"@) {
            Some(DeviceType::Phone)
        } else if s == camel_to_snake("Tablet"@) {
            Some(DeviceType::Tablet)
        } else if s == camel_to_snake("Desktop"@) {
            Some(DeviceType::Desktop)
        } else if s == camel_to_snake("Laptop"@) {
            Some(DeviceType::Laptop)
        } else {
            None
        }
    }

    /// The device type named `s`, or an error naming `s`.
    pub fn from_name(s: &str) -> (r: Result<DeviceType, Error>)
        ensures
            match Self::spec_from_name(s@) {
                Some(t) => r == Ok::<DeviceType, Error>(t),
                None => r matches Err(e) && e@ == ErrorView::DBusParsingFail("invalid DeviceType variant: "@ + s@),
            },
    {
        let chars = to_chars(s);
        if chars_eq(&chars, &to_chars(camel_to_snake_case("Phone").as_str())) {
            return Ok(DeviceType::Phone);
        }
        if chars_eq(&chars, &to_chars(camel_to_snake_case("Tablet").as_str())) {
            return Ok(DeviceType::Tablet);
        }
        if chars_eq(&chars, &to_chars(camel_to_snake_case("Desktop").as_str())) {
            return Ok(DeviceType::Desktop);
        }
        if chars_eq(&chars, &to_chars(camel_to_snake_case("Laptop").as_str())) {
            return Ok(DeviceType::Laptop);
        }
        let mut message = String::from_str("invalid DeviceType variant: ");
        message.append(s);
        Err(Error::DBusParsingFail(message))
    }
}

impl FromDbusValue for DeviceType {
    /// A string naming a device type.
    open spec fn spec_from_dbus(v: DBusValue) -> Option<DeviceType> {
        match v.as_str {
            Some(s) => DeviceType::spec_from_name(s@),
            None => None,
        }
    }

    fn from_dbus(v: &DBusValue) -> (r: Option<DeviceType>) {
        match &v.as_str {
            Some(s) => match DeviceType::from_name(s.as_str()) {
                Ok(t) => Some(t),
                Err(_) => None,
            },
            None => None,
        }
    }
}

/// The value of the first entry of `props` named `key`.
pub open spec fn lookup_prop(props: Seq<(String, DBusValue)>, key: Seq<char>) -> Option<DBusValue>
    decreases props.len(),
{
    if props.len() == 0 {
        None
    } else if props[0].0@ == key {
        Some(props[0].1)
    } else {
        lookup_prop(props.drop_first(), key)
    }
}

/// The property of the field `field` read as a `T`: missing when `props`
/// has no entry named like the field in camel case, invalid when its value
/// is not a `T`.
pub open spec fn spec_prop<T: FromDbusValue>(props: Seq<(String, DBusValue)>, field: Seq<char>) -> Result<<T as DeepView>::V, ErrorView> {
    let key = snake_to_camel(field);
    match lookup_prop(props, key) {
        None => Err(ErrorView::DBusParsingFail("missing property: "@ + key)),
        Some(v) => match T::spec_from_dbus(v) {
            None => Err(ErrorView::DBusParsingFail("invalid property type: "@ + key)),
            Some(x) => Ok(x),
        },
    }
}

fn find_prop<'a>(props: &'a PropMap, key: &Vec<char>) -> (r: Option<&'a DBusValue>)
    ensures
        match lookup_prop(props@, key@) {
            Some(v) => r == Some(&v),
            None => r is None,
        },
{
    let mut i: usize = 0;
    assert(props@.skip(0) =~= props@);
    while i < props.len()
        invariant
            i <= props@.len(),
            lookup_prop(props@, key@) == lookup_prop(props@.skip(i as int), key@),
        decreases props.len() - i,
    {
        assert(props@.skip(i as int).drop_first() =~= props@.skip(i + 1));
        if chars_eq(&to_chars(props[i].0.as_str()), key) {
            return Some(&props[i].1);
        }
        i = i + 1;
    }
    None
}

/// Reads the property of the field `field` (see [`spec_prop`]).
pub fn get_prop<T: FromDbusValue>(props: &PropMap, field: &str) -> (r: Result<T, Error>)
    ensures
        match r {
            Ok(x) => spec_prop::<T>(props@, field@) == Ok::<_, ErrorView>(x.deep_view()),
            Err(e) => spec_prop::<T>(props@, field@) == Err::<<T as DeepView>::V, _>(e@),
        },
{
    let key = snake_to_camel_case(field);
    let key_chars = to_chars(key.as_str());
    match find_prop(props, &key_chars) {
        None => {
            let mut message = String::from_str("missing property: ");
            message.append(key.as_str());
            Err(Error::DBusParsingFail(message))
        },
        Some(v) => match T::from_dbus(v) {
            None => {
                let mut message = String::from_str("invalid property type: ");
                message.append(key.as_str());
                Err(Error::DBusParsingFail(message))
            },
            Some(x) => Ok(x),
        },
    }
}

/// Types read from a D-Bus property map: one property per field.
pub trait FromDbusMap: Sized + View {
    /// The value read from `props`, or the first field (in declaration
    /// order) whose property is missing or of the wrong type.
    spec fn spec_from_props(props: Seq<(String, DBusValue)>) -> Result<<Self as View>::V, ErrorView>;

    fn from_props(props: &PropMap) -> (r: Result<Self, Error>)
        ensures
            match r {
                Ok(x) => Self::spec_from_props(props@) == Ok::<_, ErrorView>(x@),
                Err(e) => Self::spec_from_props(props@) == Err::<<Self as View>::V, _>(e@),
            },
    ;
}

impl View for BatteryStatus {
    type V = BatteryStatus;

    open spec fn view(&self) -> BatteryStatus {
        *self
    }
}

/// The battery status that a property map holds.
pub open spec fn spec_battery_from_props(props: Seq<(String, DBusValue)>) -> Result<BatteryStatus, ErrorView> {
    let is_charging = spec_prop::<bool>(props, "is_charging"@);
    let charge = spec_prop::<i64>(props, "charge"@);
    if is_charging is Err {
        Err(is_charging->Err_0)
    } else if charge is Err {
        Err(charge->Err_0)
    } else {
        Ok(BatteryStatus {
            is_charging: is_charging->Ok_0,
            charge: charge->Ok_0,
        })
    }
}

impl FromDbusMap for BatteryStatus {
    open spec fn spec_from_props(props: Seq<(String, DBusValue)>) -> Result<BatteryStatus, ErrorView> {
        spec_battery_from_props(props)
    }

    fn from_props(props: &PropMap) -> (r: Result<BatteryStatus, Error>) {
        let is_charging = match get_prop::<bool>(props, "is_charging") {
            Ok(v) => v,
            Err(e) => return Err(e),
        };
        let charge = match get_prop::<i64>(props, "charge") {
            Ok(v) => v,
            Err(e) => return Err(e),
        };
        Ok(BatteryStatus {
            is_charging,
            charge,
        })
    }
}

/// [`DeviceInfoData`] with its texts as character sequences.
pub struct DeviceInfoView {
    pub status_icon_name: Seq<char>,
    pub is_paired: bool,
    pub is_reachable: bool,
    pub is_pair_requested_by_peer: bool,
    pub name: Seq<char>,
    pub icon_name: Seq<char>,
    pub active_provider_names: Seq<Seq<char>>,
    pub is_pair_requested: bool,
    pub reachable_addresses: Seq<Seq<char>>,
    pub pair_state: i64,
    pub supported_plugins: Seq<Seq<char>>,
    pub type_: DeviceType,
    pub verification_key: Seq<char>,
}

impl View for DeviceInfoData {
    type V = DeviceInfoView;

    open spec fn view(&self) -> DeviceInfoView {
        DeviceInfoView {
            status_icon_name: self.status_icon_name@,
            is_paired: self.is_paired,
            is_reachable: self.is_reachable,
            is_pair_requested_by_peer: self.is_pair_requested_by_peer,
            name: self.name@,
            icon_name: self.icon_name@,
            active_provider_names: self.active_provider_names.deep_view(),
            is_pair_requested: self.is_pair_requested,
            reachable_addresses: self.reachable_addresses.deep_view(),
            pair_state: self.pair_state,
            supported_plugins: self.supported_plugins.deep_view(),
            type_: self.type_,
            verification_key: self.verification_key@,
        }
    }
}

/// The device information that a property map holds.
pub open spec fn spec_device_info_from_props(props: Seq<(String, DBusValue)>) -> Result<DeviceInfoView, ErrorView> {
    let status_icon_name = spec_prop::<String>(props, "status_icon_name"@);
    let is_paired = spec_prop::<bool>(props, "is_paired"@);
    let is_reachable = spec_prop::<bool>(props, "is_reachable"@);
    let is_pair_requested_by_peer = spec_prop::<bool>(props, "is_pair_requested_by_peer"@);
    let name = spec_prop::<String>(props, "name"@);
    let icon_name = spec_prop::<String>(props, "icon_name"@);
    let active_provider_names = spec_prop::<Vec<String>>(props, "active_provider_names"@);
    let is_pair_requested = spec_prop::<bool>(props, "is_pair_requested"@);
    let reachable_addresses = spec_prop::<Vec<String>>(props, "reachable_addresses"@);
    let pair_state = spec_prop::<i64>(props, "pair_state"@);
    let supported_plugins = spec_prop::<Vec<String>>(props, "supported_plugins"@);
    let type_ = spec_prop::<DeviceType>(props, "type_"@);
    let verification_key = spec_prop::<String>(props, "verification_key"@);
    if status_icon_name is Err {
        Err(status_icon_name->Err_0)
    } else if is_paired is Err {
        Err(is_paired->Err_0)
    } else if is_reachable is Err {
        Err(is_reachable->Err_0)
    } else if is_pair_requested_by_peer is Err {
        Err(is_pair_requested_by_peer->Err_0)
    } else if name is Err {
        Err(name->Err_0)
    } else if icon_name is Err {
        Err(icon_name->Err_0)
    } else if active_provider_names is Err {
        Err(active_provider_names->Err_0)
    } else if is_pair_requested is Err {
        Err(is_pair_requested->Err_0)
    } else if reachable_addresses is Err {
        Err(reachable_addresses->Err_0)
    } else if pair_state is Err {
        Err(pair_state->Err_0)
    } else if supported_plugins is Err {
        Err(supported_plugins->Err_0)
    } else if type_ is Err {
        Err(type_->Err_0)
    } else if verification_key is Err {
        Err(verification_key->Err_0)
    } else {
        Ok(DeviceInfoView {
            status_icon_name: status_icon_name->Ok_0,
            is_paired: is_paired->Ok_0,
            is_reachable: is_reachable->Ok_0,
            is_pair_requested_by_peer: is_pair_requested_by_peer->Ok_0,
            name: name->Ok_0,
            icon_name: icon_name->Ok_0,
            active_provider_names: active_provider_names->Ok_0,
            is_pair_requested: is_pair_requested->Ok_0,
            reachable_addresses: reachable_addresses->Ok_0,
            pair_state: pair_state->Ok_0,
            supported_plugins: supported_plugins->Ok_0,
            type_: type_->Ok_0,
            verification_key: verification_key->Ok_0,
        })
    }
}

impl FromDbusMap for DeviceInfoData {
    open spec fn spec_from_props(props: Seq<(String, DBusValue)>) -> Result<DeviceInfoView, ErrorView> {
        spec_device_info_from_props(props)
    }

    fn from_props(props: &PropMap) -> (r: Result<DeviceInfoData, Error>) {
        let status_icon_name = match get_prop::<String>(props, "status_icon_name") {
            Ok(v) => v,
            Err(e) => return Err(e),
        };
        let is_paired = match get_prop::<bool>(props, "is_paired") {
            Ok(v) => v,
            Err(e) => return Err(e),
        };
        let is_reachable = match get_prop::<bool>(props, "is_reachable") {
            Ok(v) => v,
            Err(e) => return Err(e),
        };
        let is_pair_requested_by_peer = match get_prop::<bool>(props, "is_pair_requested_by_peer") {
            Ok(v) => v,
            Err(e) => return Err(e),
        };
        let name = match get_prop::<String>(props, "name") {
            Ok(v) => v,
            Err(e) => return Err(e),
        };
        let icon_name = match get_prop::<String>(props, "icon_name") {
            Ok(v) => v,
            Err(e) => return Err(e),
        };
        let active_provider_names = match get_prop::<Vec<String>>(props, "active_provider_names") {
            Ok(v) => v,
            Err(e) => return Err(e),
        };
        let is_pair_requested = match get_prop::<bool>(props, "is_pair_requested") {
            Ok(v) => v,
            Err(e) => return Err(e),
        };
        let reachable_addresses = match get_prop::<Vec<String>>(props, "reachable_addresses") {
            Ok(v) => v,
            Err(e) => return Err(e),
        };
        let pair_state = match get_prop::<i64>(props, "pair_state") {
            Ok(v) => v,
            Err(e) => return Err(e),
        };
        let supported_plugins = match get_prop::<Vec<String>>(props, "supported_plugins") {
            Ok(v) => v,
            Err(e) => return Err(e),
        };
        let type_ = match get_prop::<DeviceType>(props, "type_") {
            Ok(v) => v,
            Err(e) => return Err(e),
        };
        let verification_key = match get_prop::<String>(props, "verification_key") {
            Ok(v) => v,
            Err(e) => return Err(e),
        };
        Ok(DeviceInfoData {
            status_icon_name,
            is_paired,
            is_reachable,
            is_pair_requested_by_peer,
            name,
            icon_name,
            active_provider_names,
            is_pair_requested,
            reachable_addresses,
            pair_state,
            supported_plugins,
            type_,
            verification_key,
        })
    }
}

/// [`NotificationData`] with its texts as character sequences.
pub struct NotificationView {
    pub has_icon: bool,
    pub internal_id: Seq<char>,
    pub is_conversation: bool,
    pub app_name: Seq<char>,
    pub group_name: Seq<char>,
    pub is_group_conversation: bool,
    pub reply_id: Seq<char>,
    pub icon_path: Seq<char>,
    pub silent: bool,
    pub text: Seq<char>,
    pub dismissable: bool,
    pub ticker: Seq<char>,
    pub title: Seq<char>,
}

impl View for NotificationData {
    type V = NotificationView;

    open spec fn view(&self) -> NotificationView {
        NotificationView {
            has_icon: self.has_icon,
            internal_id: self.internal_id@,
            is_conversation: self.is_conversation,
            app_name: self.app_name@,
            group_name: self.group_name@,
            is_group_conversation: self.is_group_conversation,
            reply_id: self.reply_id@,
            icon_path: self.icon_path@,
            silent: self.silent,
            text: self.text@,
            dismissable: self.dismissable,
            ticker: self.ticker@,
            title: self.title@,
        }
    }
}

/// The notification that a property map holds.
pub open spec fn spec_notification_from_props(props: Seq<(String, DBusValue)>) -> Result<NotificationView, ErrorView> {
    let has_icon = spec_prop::<bool>(props, "has_icon"@);
    let internal_id = spec_prop::<String>(props, "internal_id"@);
    let is_conversation = spec_prop::<bool>(props, "is_conversation"@);
    let app_name = spec_prop::<String>(props, "app_name"@);
    let group_name = spec_prop::<String>(props, "group_name"@);
    let is_group_conversation = spec_prop::<bool>(props, "is_group_conversation"@);
    let reply_id = spec_prop::<String>(props, "reply_id"@);
    let icon_path = spec_prop::<String>(props, "icon_path"@);
    let silent = spec_prop::<bool>(props, "silent"@);
    let text = spec_prop::<String>(props, "text"@);
    let dismissable = spec_prop::<bool>(props, "dismissable"@);
    let ticker = spec_prop::<String>(props, "ticker"@);
    let title = spec_prop::<String>(props, "title"@);
    if has_icon is Err {
        Err(has_icon->Err_0)
    } else if internal_id is Err {
        Err(internal_id->Err_0)
    } else if is_conversation is Err {
        Err(is_conversation->Err_0)
    } else if app_name is Err {
        Err(app_name->Err_0)
    } else if group_name is Err {
        Err(group_name->Err_0)
    } else if is_group_conversation is Err {
        Err(is_group_conversation->Err_0)
    } else if reply_id is Err {
        Err(reply_id->Err_0)
    } else if icon_path is Err {
        Err(icon_path->Err_0)
    } else if silent is Err {
        Err(silent->Err_0)
    } else if text is Err {
        Err(text->Err_0)
    } else if dismissable is Err {
        Err(dismissable->Err_0)
    } else if ticker is Err {
        Err(ticker->Err_0)
    } else if title is Err {
        Err(title->Err_0)
    } else {
        Ok(NotificationView {
            has_icon: has_icon->Ok_0,
            internal_id: internal_id->Ok_0,
            is_conversation: is_conversation->Ok_0,
            app_name: app_name->Ok_0,
            group_name: group_name->Ok_0,
            is_group_conversation: is_group_conversation->Ok_0,
            reply_id: reply_id->Ok_0,
            icon_path: icon_path->Ok_0,
            silent: silent->Ok_0,
            text: text->Ok_0,
            dismissable: dismissable->Ok_0,
            ticker: ticker->Ok_0,
            title: title->Ok_0,
        })
    }
}

impl FromDbusMap for NotificationData {
    open spec fn spec_from_props(props: Seq<(String, DBusValue)>) -> Result<NotificationView, ErrorView> {
        spec_notification_from_props(props)
    }

    fn from_props(props: &PropMap) -> (r: Result<NotificationData, Error>) {
        let has_icon = match get_prop::<bool>(props, "has_icon") {
            Ok(v) => v,
            Err(e) => return Err(e),
        };
        let internal_id = match get_prop::<String>(props, "internal_id") {
            Ok(v) => v,
            Err(e) => return Err(e),
        };
        let is_conversation = match get_prop::<bool>(props, "is_conversation") {
            Ok(v) => v,
            Err(e) => return Err(e),
        };
        let app_name = match get_prop::<String>(props, "app_name") {
            Ok(v) => v,
            Err(e) => return Err(e),
        };
        let group_name = match get_prop::<String>(props, "group_name") {
            Ok(v) => v,
            Err(e) => return Err(e),
        };
        let is_group_conversation = match get_prop::<bool>(props, "is_group_conversation") {
            Ok(v) => v,
            Err(e) => return Err(e),
        };
        let reply_id = match get_prop::<String>(props, "reply_id") {
            Ok(v) => v,
            Err(e) => return Err(e),
        };
        let icon_path = match get_prop::<String>(props, "icon_path") {
            Ok(v) => v,
            Err(e) => return Err(e),
        };
        let silent = match get_prop::<bool>(props, "silent") {
            Ok(v) => v,
            Err(e) => return Err(e),
        };
        let text = match get_prop::<String>(props, "text") {
            Ok(v) => v,
            Err(e) => return Err(e),
        };
        let dismissable = match get_prop::<bool>(props, "dismissable") {
            Ok(v) => v,
            Err(e) => return Err(e),
        };
        let ticker = match get_prop::<String>(props, "ticker") {
            Ok(v) => v,
            Err(e) => return Err(e),
        };
        let title = match get_prop::<String>(props, "title") {
            Ok(v) => v,
            Err(e) => return Err(e),
        };
        Ok(NotificationData {
            has_icon,
            internal_id,
            is_conversation,
            app_name,
            group_name,
            is_group_conversation,
            reply_id,
            icon_path,
            silent,
            text,
            dismissable,
            ticker,
            title,
        })
    }
}


/// The string that the property named `key` holds, if it is a string.
pub open spec fn prop_string(props: Seq<(String, DBusValue)>, key: Seq<char>) -> Option<Seq<char>> {
    match lookup_prop(props, key) {
        Some(v) => match v.as_str {
            Some(x) => Some(x@),
            None => None,
        },
        None => None,
    }
}

/// The flag that the property named `key` holds: its integer, true when not zero.
pub open spec fn prop_bool(props: Seq<(String, DBusValue)>, key: Seq<char>) -> Option<bool> {
    match lookup_prop(props, key) {
        Some(v) => match v.as_i64 {
            Some(i) => Some(i != 0),
            None => None,
        },
        None => None,
    }
}

/// The integer that the property named `key` holds.
pub open spec fn prop_i64(props: Seq<(String, DBusValue)>, key: Seq<char>) -> Option<i64> {
    match lookup_prop(props, key) {
        Some(v) => v.as_i64,
        None => None,
    }
}

/// The strings of the list that the property named `key` holds.
pub open spec fn prop_strings(props: Seq<(String, DBusValue)>, key: Seq<char>) -> Option<Seq<Seq<char>>> {
    match lookup_prop(props, key) {
        Some(v) => <Vec<String> as FromDbusValue>::spec_from_dbus(v),
        None => None,
    }
}

/// The device type that the property named `key` names.
pub open spec fn prop_device_type(props: Seq<(String, DBusValue)>, key: Seq<char>) -> Option<DeviceType> {
    match lookup_prop(props, key) {
        Some(v) => <DeviceType as FromDbusValue>::spec_from_dbus(v),
        None => None,
    }
}

/// A property read as a string is the string the property holds.
proof fn lemma_prop_string(props: Seq<(String, DBusValue)>, field: Seq<char>)
    ensures
        spec_prop::<String>(props, field) matches Ok(x) ==> prop_string(props, snake_to_camel(field)) == Some(x),
        (spec_prop::<String>(props, field) is Ok) <==> (prop_string(props, snake_to_camel(field)) is Some),
{
}

proof fn lemma_prop_bool(props: Seq<(String, DBusValue)>, field: Seq<char>)
    ensures
        spec_prop::<bool>(props, field) matches Ok(x) ==> prop_bool(props, snake_to_camel(field)) == Some(x),
        (spec_prop::<bool>(props, field) is Ok) <==> (prop_bool(props, snake_to_camel(field)) is Some),
{
}

proof fn lemma_prop_i64(props: Seq<(String, DBusValue)>, field: Seq<char>)
    ensures
        spec_prop::<i64>(props, field) matches Ok(x) ==> prop_i64(props, snake_to_camel(field)) == Some(x),
        (spec_prop::<i64>(props, field) is Ok) <==> (prop_i64(props, snake_to_camel(field)) is Some),
{
}

proof fn lemma_prop_strings(props: Seq<(String, DBusValue)>, field: Seq<char>)
    ensures
        spec_prop::<Vec<String>>(props, field) matches Ok(x) ==> prop_strings(props, snake_to_camel(field)) == Some(x),
        (spec_prop::<Vec<String>>(props, field) is Ok) <==> (prop_strings(props, snake_to_camel(field)) is Some),
{
}

proof fn lemma_prop_device_type(props: Seq<(String, DBusValue)>, field: Seq<char>)
    ensures
        spec_prop::<DeviceType>(props, field) matches Ok(x) ==> prop_device_type(props, snake_to_camel(field)) == Some(x),
        (spec_prop::<DeviceType>(props, field) is Ok) <==> (prop_device_type(props, snake_to_camel(field)) is Some),
{
}

/// The property names of the fields of a battery status.
proof fn lemma_battery_keys()
    ensures
        snake_to_camel("is_charging"@) == "isCharging"@,
        snake_to_camel("charge"@) == "charge"@,
{
    lemma_key_is_charging();
    lemma_key_charge();
}

/// The property names of the fields of device information.
proof fn lemma_device_info_keys()
    ensures
        snake_to_camel("status_icon_name"@) == "statusIconName"@,
        snake_to_camel("is_paired"@) == "isPaired"@,
        snake_to_camel("is_reachable"@) == "isReachable"@,
        snake_to_camel("is_pair_requested_by_peer"@) == "isPairRequestedByPeer"@,
        snake_to_camel("name"@) == "name"@,
        snake_to_camel("icon_name"@) == "iconName"@,
        snake_to_camel("active_provider_names"@) == "activeProviderNames"@,
        snake_to_camel("is_pair_requested"@) == "isPairRequested"@,
        snake_to_camel("reachable_addresses"@) == "reachableAddresses"@,
        snake_to_camel("pair_state"@) == "pairState"@,
        snake_to_camel("supported_plugins"@) == "supportedPlugins"@,
        snake_to_camel("type_"@) == "type"@,
        snake_to_camel("verification_key"@) == "verificationKey"@,
{
    lemma_key_status_icon_name();
    lemma_key_is_paired();
    lemma_key_is_reachable();
    lemma_key_is_pair_requested_by_peer();
    lemma_key_name();
    lemma_key_icon_name();
    lemma_key_active_provider_names();
    lemma_key_is_pair_requested();
    lemma_key_reachable_addresses();
    lemma_key_pair_state();
    lemma_key_supported_plugins();
    lemma_key_type();
    lemma_key_verification_key();
}

/// The property names of the fields of a notification.
proof fn lemma_notification_keys()
    ensures
        snake_to_camel("has_icon"@) == "hasIcon"@,
        snake_to_camel("internal_id"@) == "internalId"@,
        snake_to_camel("is_conversation"@) == "isConversation"@,
        snake_to_camel("app_name"@) == "appName"@,
        snake_to_camel("group_name"@) == "groupName"@,
        snake_to_camel("is_group_conversation"@) == "isGroupConversation"@,
        snake_to_camel("reply_id"@) == "replyId"@,
        snake_to_camel("icon_path"@) == "iconPath"@,
        snake_to_camel("silent"@) == "silent"@,
        snake_to_camel("text"@) == "text"@,
        snake_to_camel("dismissable"@) == "dismissable"@,
        snake_to_camel("ticker"@) == "ticker"@,
        snake_to_camel("title"@) == "title"@,
{
    lemma_key_has_icon();
    lemma_key_internal_id();
    lemma_key_is_conversation();
    lemma_key_app_name();
    lemma_key_group_name();
    lemma_key_is_group_conversation();
    lemma_key_reply_id();
    lemma_key_icon_path();
    lemma_key_silent();
    lemma_key_text();
    lemma_key_dismissable();
    lemma_key_ticker();
    lemma_key_title();
}

/// Each field of a battery status read from `props` is the value of the
/// property named after it in camel case (`isCharging`, `charge`); reading
/// succeeds whenever every such property holds a value of its field's type.
pub proof fn lemma_battery_from_props(props: Seq<(String, DBusValue)>)
    ensures
        <BatteryStatus as FromDbusMap>::spec_from_props(props) matches Ok(r) ==> {
            &&& prop_bool(props, "isCharging"@) == Some(r.is_charging)
            &&& prop_i64(props, "charge"@) == Some(r.charge)
        },
        ((prop_bool(props, "isCharging"@) is Some)
            && (prop_i64(props, "charge"@) is Some)) ==> (<BatteryStatus as FromDbusMap>::spec_from_props(props) is Ok),
{
    lemma_battery_keys();
    lemma_prop_bool(props, "is_charging"@);
    lemma_prop_i64(props, "charge"@);
}

/// Each field of device information read from `props` is the value of the
/// property named after it in camel case (`isReachable`, `reachableAddresses`,
/// `type`, ...); reading succeeds whenever every such property holds a value
/// of its field's type.
pub proof fn lemma_device_info_from_props(props: Seq<(String, DBusValue)>)
    ensures
        <DeviceInfoData as FromDbusMap>::spec_from_props(props) matches Ok(r) ==> {
            &&& prop_string(props, "statusIconName"@) == Some(r.status_icon_name)
            &&& prop_bool(props, "isPaired"@) == Some(r.is_paired)
            &&& prop_bool(props, "isReachable"@) == Some(r.is_reachable)
            &&& prop_bool(props, "isPairRequestedByPeer"@) == Some(r.is_pair_requested_by_peer)
            &&& prop_string(props, "name"@) == Some(r.name)
            &&& prop_string(props, "iconName"@) == Some(r.icon_name)
            &&& prop_strings(props, "activeProviderNames"@) == Some(r.active_provider_names)
            &&& prop_bool(props, "isPairRequested"@) == Some(r.is_pair_requested)
            &&& prop_strings(props, "reachableAddresses"@) == Some(r.reachable_addresses)
            &&& prop_i64(props, "pairState"@) == Some(r.pair_state)
            &&& prop_strings(props, "supportedPlugins"@) == Some(r.supported_plugins)
            &&& prop_device_type(props, "type"@) == Some(r.type_)
            &&& prop_string(props, "verificationKey"@) == Some(r.verification_key)
        },
        ((prop_string(props, "statusIconName"@) is Some)
            && (prop_bool(props, "isPaired"@) is Some)
            && (prop_bool(props, "isReachable"@) is Some)
            && (prop_bool(props, "isPairRequestedByPeer"@) is Some)
            && (prop_string(props, "name"@) is Some)
            && (prop_string(props, "iconName"@) is Some)
            && (prop_strings(props, "activeProviderNames"@) is Some)
            && (prop_bool(props, "isPairRequested"@) is Some)
            && (prop_strings(props, "reachableAddresses"@) is Some)
            && (prop_i64(props, "pairState"@) is Some)
            && (prop_strings(props, "supportedPlugins"@) is Some)
            && (prop_device_type(props, "type"@) is Some)
            && (prop_string(props, "verificationKey"@) is Some)) ==> (<DeviceInfoData as FromDbusMap>::spec_from_props(props) is Ok),
{
    lemma_device_info_keys();
    lemma_prop_string(props, "status_icon_name"@);
    lemma_prop_bool(props, "is_paired"@);
    lemma_prop_bool(props, "is_reachable"@);
    lemma_prop_bool(props, "is_pair_requested_by_peer"@);
    lemma_prop_string(props, "name"@);
    lemma_prop_string(props, "icon_name"@);
    lemma_prop_strings(props, "active_provider_names"@);
    lemma_prop_bool(props, "is_pair_requested"@);
    lemma_prop_strings(props, "reachable_addresses"@);
    lemma_prop_i64(props, "pair_state"@);
    lemma_prop_strings(props, "supported_plugins"@);
    lemma_prop_device_type(props, "type_"@);
    lemma_prop_string(props, "verification_key"@);
}

/// Each field of a notification read from `props` is the value of the
/// property named after it in camel case (`appName`, `text`, `ticker`, ...);
/// reading succeeds whenever every such property holds a value of its
/// field's type.
pub proof fn lemma_notification_from_props(props: Seq<(String, DBusValue)>)
    ensures
        <NotificationData as FromDbusMap>::spec_from_props(props) matches Ok(r) ==> {
            &&& prop_bool(props, "hasIcon"@) == Some(r.has_icon)
            &&& prop_string(props, "internalId"@) == Some(r.internal_id)
            &&& prop_bool(props, "isConversation"@) == Some(r.is_conversation)
            &&& prop_string(props, "appName"@) == Some(r.app_name)
            &&& prop_string(props, "groupName"@) == Some(r.group_name)
            &&& prop_bool(props, "isGroupConversation"@) == Some(r.is_group_conversation)
            &&& prop_string(props, "replyId"@) == Some(r.reply_id)
            &&& prop_string(props, "iconPath"@) == Some(r.icon_path)
            &&& prop_bool(props, "silent"@) == Some(r.silent)
            &&& prop_string(props, "text"@) == Some(r.text)
            &&& prop_bool(props, "dismissable"@) == Some(r.dismissable)
            &&& prop_string(props, "ticker"@) == Some(r.ticker)
            &&& prop_string(props, "title"@) == Some(r.title)
        },
        ((prop_bool(props, "hasIcon"@) is Some)
            && (prop_string(props, "internalId"@) is Some)
            && (prop_bool(props, "isConversation"@) is Some)
            && (prop_string(props, "appName"@) is Some)
            && (prop_string(props, "groupName"@) is Some)
            && (prop_bool(props, "isGroupConversation"@) is Some)
            && (prop_string(props, "replyId"@) is Some)
            && (prop_string(props, "iconPath"@) is Some)
            && (prop_bool(props, "silent"@) is Some)
            && (prop_string(props, "text"@) is Some)
            && (prop_bool(props, "dismissable"@) is Some)
            && (prop_string(props, "ticker"@) is Some)
            && (prop_string(props, "title"@) is Some)) ==> (<NotificationData as FromDbusMap>::spec_from_props(props) is Ok),
{
    lemma_notification_keys();
    lemma_prop_bool(props, "has_icon"@);
    lemma_prop_string(props, "internal_id"@);
    lemma_prop_bool(props, "is_conversation"@);
    lemma_prop_string(props, "app_name"@);
    lemma_prop_string(props, "group_name"@);
    lemma_prop_bool(props, "is_group_conversation"@);
    lemma_prop_string(props, "reply_id"@);
    lemma_prop_string(props, "icon_path"@);
    lemma_prop_bool(props, "silent"@);
    lemma_prop_string(props, "text"@);
    lemma_prop_bool(props, "dismissable"@);
    lemma_prop_string(props, "ticker"@);
    lemma_prop_string(props, "title"@);
}


proof fn lemma_key_is_charging()
    ensures
        snake_to_camel("is_charging"@) == "isCharging"@,
{
    reveal_strlit("is_charging");
    reveal_strlit("isCharging");
    reveal_with_fuel(camel_from, 13);
}

proof fn lemma_key_charge()
    ensures
        snake_to_camel("charge"@) == "charge"@,
{
    reveal_strlit("charge");
    reveal_with_fuel(camel_from, 8);
}

proof fn lemma_key_status_icon_name()
    ensures
        snake_to_camel("status_icon_name"@) == "statusIconName"@,
{
    reveal_strlit("status_icon_name");
    reveal_strlit("statusIconName");
    reveal_with_fuel(camel_from, 18);
}

proof fn lemma_key_is_paired()
    ensures
        snake_to_camel("is_paired"@) == "isPaired"@,
{
    reveal_strlit("is_paired");
    reveal_strlit("isPaired");
    reveal_with_fuel(camel_from, 11);
}

proof fn lemma_key_is_reachable()
    ensures
        snake_to_camel("is_reachable"@) == "isReachable"@,
{
    reveal_strlit("is_reachable");
    reveal_strlit("isReachable");
    reveal_with_fuel(camel_from, 14);
}

proof fn lemma_key_is_pair_requested_by_peer()
    ensures
        snake_to_camel("is_pair_requested_by_peer"@) == "isPairRequestedByPeer"@,
{
    reveal_strlit("is_pair_requested_by_peer");
    reveal_strlit("isPairRequestedByPeer");
    reveal_with_fuel(camel_from, 27);
}

proof fn lemma_key_name()
    ensures
        snake_to_camel("name"@) == "name"@,
{
    reveal_strlit("name");
    reveal_with_fuel(camel_from, 6);
}

proof fn lemma_key_icon_name()
    ensures
        snake_to_camel("icon_name"@) == "iconName"@,
{
    reveal_strlit("icon_name");
    reveal_strlit("iconName");
    reveal_with_fuel(camel_from, 11);
}

proof fn lemma_key_active_provider_names()
    ensures
        snake_to_camel("active_provider_names"@) == "activeProviderNames"@,
{
    reveal_strlit("active_provider_names");
    reveal_strlit("activeProviderNames");
    reveal_with_fuel(camel_from, 23);
}

proof fn lemma_key_is_pair_requested()
    ensures
        snake_to_camel("is_pair_requested"@) == "isPairRequested"@,
{
    reveal_strlit("is_pair_requested");
    reveal_strlit("isPairRequested");
    reveal_with_fuel(camel_from, 19);
}

proof fn lemma_key_reachable_addresses()
    ensures
        snake_to_camel("reachable_addresses"@) == "reachableAddresses"@,
{
    reveal_strlit("reachable_addresses");
    reveal_strlit("reachableAddresses");
    reveal_with_fuel(camel_from, 21);
}

proof fn lemma_key_pair_state()
    ensures
        snake_to_camel("pair_state"@) == "pairState"@,
{
    reveal_strlit("pair_state");
    reveal_strlit("pairState");
    reveal_with_fuel(camel_from, 12);
}

proof fn lemma_key_supported_plugins()
    ensures
        snake_to_camel("supported_plugins"@) == "supportedPlugins"@,
{
    reveal_strlit("supported_plugins");
    reveal_strlit("supportedPlugins");
    reveal_with_fuel(camel_from, 19);
}

proof fn lemma_key_type()
    ensures
        snake_to_camel("type_"@) == "type"@,
{
    reveal_strlit("type_");
    reveal_strlit("type");
    reveal_with_fuel(camel_from, 7);
}

proof fn lemma_key_verification_key()
    ensures
        snake_to_camel("verification_key"@) == "verificationKey"@,
{
    reveal_strlit("verification_key");
    reveal_strlit("verificationKey");
    reveal_with_fuel(camel_from, 18);
}

proof fn lemma_key_has_icon()
    ensures
        snake_to_camel("has_icon"@) == "hasIcon"@,
{
    reveal_strlit("has_icon");
    reveal_strlit("hasIcon");
    reveal_with_fuel(camel_from, 10);
}

proof fn lemma_key_internal_id()
    ensures
        snake_to_camel("internal_id"@) == "internalId"@,
{
    reveal_strlit("internal_id");
    reveal_strlit("internalId");
    reveal_with_fuel(camel_from, 13);
}

proof fn lemma_key_is_conversation()
    ensures
        snake_to_camel("is_conversation"@) == "isConversation"@,
{
    reveal_strlit("is_conversation");
    reveal_strlit("isConversation");
    reveal_with_fuel(camel_from, 17);
}

proof fn lemma_key_app_name()
    ensures
        snake_to_camel("app_name"@) == "appName"@,
{
    reveal_strlit("app_name");
    reveal_strlit("appName");
    reveal_with_fuel(camel_from, 10);
}

proof fn lemma_key_group_name()
    ensures
        snake_to_camel("group_name"@) == "groupName"@,
{
    reveal_strlit("group_name");
    reveal_strlit("groupName");
    reveal_with_fuel(camel_from, 12);
}

proof fn lemma_key_is_group_conversation()
    ensures
        snake_to_camel("is_group_conversation"@) == "isGroupConversation"@,
{
    reveal_strlit("is_group_conversation");
    reveal_strlit("isGroupConversation");
    reveal_with_fuel(camel_from, 23);
}

proof fn lemma_key_reply_id()
    ensures
        snake_to_camel("reply_id"@) == "replyId"@,
{
    reveal_strlit("reply_id");
    reveal_strlit("replyId");
    reveal_with_fuel(camel_from, 10);
}

proof fn lemma_key_icon_path()
    ensures
        snake_to_camel("icon_path"@) == "iconPath"@,
{
    reveal_strlit("icon_path");
    reveal_strlit("iconPath");
    reveal_with_fuel(camel_from, 11);
}

proof fn lemma_key_silent()
    ensures
        snake_to_camel("silent"@) == "silent"@,
{
    reveal_strlit("silent");
    reveal_with_fuel(camel_from, 8);
}

proof fn lemma_key_text()
    ensures
        snake_to_camel("text"@) == "text"@,
{
    reveal_strlit("text");
    reveal_with_fuel(camel_from, 6);
}

proof fn lemma_key_dismissable()
    ensures
        snake_to_camel("dismissable"@) == "dismissable"@,
{
    reveal_strlit("dismissable");
    reveal_with_fuel(camel_from, 13);
}

proof fn lemma_key_ticker()
    ensures
        snake_to_camel("ticker"@) == "ticker"@,
{
    reveal_strlit("ticker");
    reveal_with_fuel(camel_from, 8);
}

proof fn lemma_key_title()
    ensures
        snake_to_camel("title"@) == "title"@,
{
    reveal_strlit("title");
    reveal_with_fuel(camel_from, 7);
}

} // verus!
