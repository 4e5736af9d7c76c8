//! The user's configuration: formats, texts and lookup tables.
use crate::formatter::notification::NotificationFormat;
use crate::formatter::GlobalFormat;
use crate::text::opt_str_view;
use std::time::Duration;
use vstd::prelude::*;

pub mod defaults;

verus! {

/// The file of all configurations.
pub struct ConfigFile {
    pub configs: Vec<Config>,
}

/// One configuration of the module.
pub struct Config {
    /// Name of this config; none means the default config.
    pub name: Option<String>,
    /// A KDE Connect device id this config is for.
    pub device_id: Option<String>,
    /// How often the module text is refreshed.
    pub update_interval: Duration,
    /// The format of the module text.
    pub format: GlobalFormat,
    /// The format of the module tooltip.
    pub tooltip_format: Option<GlobalFormat>,
    /// Module text when KDE Connect isn't running or the device isn't connected.
    pub device_not_found_text: String,
    /// Module tooltip when KDE Connect isn't running or the device isn't connected.
    pub device_not_found_tooltip_text: String,
    /// Replaces `{Battery::IsChargingText}` while the device charges.
    pub is_charging_text: String,
    /// Replaces `{Battery::IsChargingText}` while the device doesn't charge.
    pub isnt_charging_text: String,
    /// Upper bounds of battery charge ranges: `[25, 50, 75]` makes the four
    /// ranges 0-25, 25-50, 50-75 and 75-100.
    pub charge_ranges: Vec<i64>,
    /// One text per charge range (`charge_ranges.len() + 1` of them), used by
    /// `{Battery::ChargeTexts}` while the device charges.
    pub is_charging_texts: Vec<String>,
    /// One text per charge range, used by `{Battery::ChargeTexts}` while the
    /// device doesn't charge.
    pub isnt_charging_texts: Vec<String>,
    /// Replaces `{DeviceInfo::DeviceTypeText}` for a phone.
    pub device_phone_text: String,
    /// Replaces `{DeviceInfo::DeviceTypeText}` for a tablet.
    pub device_tablet_text: String,
    /// Replaces `{DeviceInfo::DeviceTypeText}` for a desktop.
    pub device_desktop_text: String,
    /// Replaces `{DeviceInfo::DeviceTypeText}` for a laptop.
    pub device_laptop_text: String,
    /// Format of each application's group of notifications (`{Notification::Grouped}`).
    pub notification_grouped_format: Option<NotificationFormat>,
    /// Format of each notification (`{Notification::Single}`).
    pub notification_single_format: Option<NotificationFormat>,
    /// Texts by notification count for `CountText`; the key 0 is used when
    /// no other key matches the count.
    pub notifications_count_text: Vec<(i64, String)>,
    /// Icons by application name for `CustomIcon` (case-sensitive); the
    /// empty name is used when no other name matches.
    pub app_icons: Vec<(String, String)>,
}

impl Config {
    /// The tables are maps: no key occurs twice.
    pub open spec fn wf(&self) -> bool {
        &&& forall|i: int, j: int|
            0 <= i < j < self.notifications_count_text@.len() ==> #[trigger] self.notifications_count_text@[i].0
                != #[trigger] self.notifications_count_text@[j].0
        &&& forall|i: int, j: int|
            0 <= i < j < self.app_icons@.len() ==> #[trigger] self.app_icons@[i].0@
                != #[trigger] self.app_icons@[j].0@
    }
}

/// The selected configuration is the first with the name asked for; when no
/// name is asked for, the first whose name is left blank (the default), or
/// the first of all when no name is blank. None is selected only when a name
/// is asked for and no configuration has it, or when there is none at all.
pub proof fn lemma_select_index(configs: Seq<Config>, name: Option<Seq<char>>)
    ensures
        match spec_select_index(configs, name) {
            Some(i) => 0 <= i < configs.len() && match name {
                Some(n) => has_name(configs[i], n) && forall|j: int|
                    0 <= j < i ==> !#[trigger] has_name(configs[j], n),
                None => if exists|j: int| 0 <= j < configs.len() && #[trigger] configs[j].name is None {
                    configs[i].name is None && forall|j: int| 0 <= j < i ==> #[trigger] configs[j].name is Some
                } else {
                    i == 0
                },
            },
            None => match name {
                Some(n) => forall|j: int| 0 <= j < configs.len() ==> !#[trigger] has_name(configs[j], n),
                None => configs.len() == 0,
            },
        },
{
    lemma_first_match(configs, name);
    if let Some(n) = name {
        match first_match(configs, name) {
            Some(i) => {
                assert forall|j: int| 0 <= j < i implies !#[trigger] has_name(configs[j], n) by {
                    assert(!matches_name(configs[j], name));
                }
            },
            None => {
                assert forall|j: int| 0 <= j < configs.len() implies !#[trigger] has_name(configs[j], n) by {
                    assert(!matches_name(configs[j], name));
                }
            },
        }
    }
    if name is None {
        match first_match(configs, name) {
            Some(i) => {
                assert(matches_name(configs[i], name));
                assert forall|j: int| 0 <= j < i implies #[trigger] configs[j].name is Some by {
                    assert(!matches_name(configs[j], name));
                }
            },
            None => {
                assert forall|j: int| 0 <= j < configs.len() implies !(#[trigger] configs[j].name is None) by {
                    assert(!matches_name(configs[j], name));
                }
            },
        }
    }
}

proof fn lemma_first_match(configs: Seq<Config>, name: Option<Seq<char>>)
    ensures
        match first_match(configs, name) {
            Some(i) => 0 <= i < configs.len() && matches_name(configs[i], name) && forall|j: int|
                0 <= j < i ==> !#[trigger] matches_name(configs[j], name),
            None => forall|j: int| 0 <= j < configs.len() ==> !#[trigger] matches_name(configs[j], name),
        },
    decreases configs.len(),
{
    if configs.len() > 0 {
        let rest = configs.drop_first();
        lemma_first_match(rest, name);
        assert forall|j: int| 0 < j < configs.len() implies configs[j] == rest[j - 1] by {}
    }
}

/// Under [`Config::wf`] the icon table is the map it was read from: looking
/// up a name finds the icon of that name.
pub proof fn lemma_app_icon_lookup(config: Config, i: int)
    requires
        config.wf(),
        0 <= i < config.app_icons@.len(),
    ensures
        crate::formatter::notification::lookup_by_name(config.app_icons@, config.app_icons@[i].0@) == Some(
            config.app_icons@[i].1@,
        ),
{
    lemma_lookup_entry(config.app_icons@, i);
}

/// Under [`Config::wf`] the count table is the map it was read from:
/// looking up a count finds the text of that count.
pub proof fn lemma_count_text_lookup(config: Config, i: int)
    requires
        config.wf(),
        0 <= i < config.notifications_count_text@.len(),
    ensures
        crate::formatter::notification::lookup_by_count(
            config.notifications_count_text@,
            config.notifications_count_text@[i].0,
        ) == Some(config.notifications_count_text@[i].1@),
{
    lemma_lookup_count_entry(config.notifications_count_text@, i);
}

proof fn lemma_lookup_count_entry(m: Seq<(i64, String)>, i: int)
    requires
        0 <= i < m.len(),
        forall|a: int, b: int| 0 <= a < b < m.len() ==> #[trigger] m[a].0 != #[trigger] m[b].0,
    ensures
        crate::formatter::notification::lookup_by_count(m, m[i].0) == Some(m[i].1@),
    decreases i,
{
    if i > 0 {
        let rest = m.drop_first();
        assert(m[0].0 != m[i].0);
        assert(rest[i - 1] == m[i]);
        assert forall|a: int, b: int| 0 <= a < b < rest.len() implies #[trigger] rest[a].0 != #[trigger] rest[b].0 by {
            assert(rest[a] == m[a + 1]);
            assert(rest[b] == m[b + 1]);
        }
        lemma_lookup_count_entry(rest, i - 1);
    }
}

proof fn lemma_lookup_entry(m: Seq<(String, String)>, i: int)
    requires
        0 <= i < m.len(),
        forall|a: int, b: int| 0 <= a < b < m.len() ==> #[trigger] m[a].0@ != #[trigger] m[b].0@,
    ensures
        crate::formatter::notification::lookup_by_name(m, m[i].0@) == Some(m[i].1@),
    decreases i,
{
    if i > 0 {
        let rest = m.drop_first();
        assert(m[0].0@ != m[i].0@);
        assert(rest[i - 1] == m[i]);
        assert forall|a: int, b: int| 0 <= a < b < rest.len() implies #[trigger] rest[a].0@ != #[trigger] rest[b].0@ by {
            assert(rest[a] == m[a + 1]);
            assert(rest[b] == m[b + 1]);
        }
        lemma_lookup_entry(rest, i - 1);
    }
}

/// Whether the configuration `c` is named `n`.
pub open spec fn has_name(c: Config, n: Seq<char>) -> bool {
    c.name matches Some(x) && x@ == n
}

/// Whether `c` answers the request `name`: it has that name, or, when no
/// name is asked for, its name is left blank.
pub open spec fn matches_name(c: Config, name: Option<Seq<char>>) -> bool {
    match name {
        Some(n) => has_name(c, n),
        None => c.name is None,
    }
}

/// Index of the first configuration that answers `name`.
pub open spec fn first_match(configs: Seq<Config>, name: Option<Seq<char>>) -> Option<int>
    decreases configs.len(),
{
    if configs.len() == 0 {
        None
    } else if matches_name(configs[0], name) {
        Some(0)
    } else {
        match first_match(configs.drop_first(), name) {
            Some(i) => Some(i + 1),
            None => None,
        }
    }
}

/// Index of the configuration that `name` selects: the first one with that
/// name; with no name, the first one whose name is blank (the default), or
/// the first one of all when none is blank.
pub open spec fn spec_select_index(configs: Seq<Config>, name: Option<Seq<char>>) -> Option<int> {
    match first_match(configs, name) {
        Some(i) => Some(i),
        None => if name is None && configs.len() > 0 {
            Some(0)
        } else {
            None
        },
    }
}

proof fn lemma_first_match_skip(configs: Seq<Config>, name: Option<Seq<char>>, i: int)
    requires
        0 <= i < configs.len(),
    ensures
        first_match(configs.skip(i), name) == if matches_name(configs[i], name) {
            Some(0int)
        } else {
            match first_match(configs.skip(i + 1), name) {
                Some(k) => Some(k + 1),
                None => None,
            }
        },
{
    assert(configs.skip(i).drop_first() =~= configs.skip(i + 1));
}

proof fn lemma_select_index_bound(configs: Seq<Config>, name: Option<Seq<char>>)
    ensures
        spec_select_index(configs, name) matches Some(i) ==> 0 <= i < configs.len(),
{
    lemma_first_match(configs, name);
}

impl ConfigFile {
    /// Index of the configuration named `name`; with no name, of the first
    /// one whose name is blank, or of the first one when none is blank; none
    /// when no configuration matches.
    pub fn select_index(&self, name: Option<&str>) -> (r: Option<usize>)
        ensures
            match spec_select_index(self.configs@, opt_str_view(name)) {
                Some(i) => r == Some(i as usize),
                None => r is None,
            },
    {
        let wanted: Option<Vec<char>> = match name {
            Some(n) => Some(crate::text::to_chars(n)),
            None => None,
        };
        let ghost want = opt_str_view(name);
        let mut i: usize = 0;
        assert(self.configs@.skip(0) =~= self.configs@);
        while i < self.configs.len()
            invariant
                i <= self.configs@.len(),
                want == opt_str_view(name),
                match wanted {
                    Some(w) => want == Some(w@),
                    None => want is None,
                },
                first_match(self.configs@, want) == match first_match(self.configs@.skip(i as int), want) {
                    Some(k) => Some(k + i),
                    None => None,
                },
            decreases self.configs.len() - i,
        {
            proof {
                lemma_first_match_skip(self.configs@, want, i as int);
            }
            let hit = match (&self.configs[i].name, &wanted) {
                (Some(c), Some(w)) => {
                    let cc = crate::text::to_chars(c.as_str());
                    crate::text::chars_eq(&cc, w)
                },
                (None, None) => true,
                _ => false,
            };
            if hit {
                return Some(i);
            }
            i = i + 1;
        }
        assert(self.configs@.skip(i as int).len() == 0);
        if name.is_none() && self.configs.len() > 0 {
            Some(0)
        } else {
            None
        }
    }

    /// The configuration that `name` selects (see [`ConfigFile::select_index`]).
    pub fn select(self, name: Option<&str>) -> (r: Option<Config>)
        ensures
            match spec_select_index(self.configs@, opt_str_view(name)) {
                Some(i) => r == Some(self.configs@[i]),
                None => r is None,
            },
    {
        proof {
            lemma_select_index_bound(self.configs@, opt_str_view(name));
        }
        match self.select_index(name) {
            Some(i) => {
                let mut configs = self.configs;
                Some(configs.remove(i))
            },
            None => None,
        }
    }
}

} // verus!
