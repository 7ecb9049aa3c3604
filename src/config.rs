//! Validated configuration, and the groups and devices built from it.
use vstd::prelude::*;
use vstd::string::StringExecFns;

use crate::addressing::{derive_ids, MAX_DID, MAX_GID, MAX_HID, MAX_ID};
use crate::devices::{
    find_entry, groups_well_formed, lemma_lookup_none, lookup, named_view, unique_names, Device,
    Group, GroupView,
};

verus! {

/// The settings of the whole installation.
#[derive(Debug)]
pub struct Config {
    pub tx_pin: u64,
    pub enable_compat: bool,
    pub broker: String,
    pub root_topic: String,
    pub tries: usize,
    pub house_id: Option<u64>,
    pub groups: Vec<GroupConfig>,
}

/// The settings of one group; unset values fall back to those of `Config`.
#[derive(Debug)]
pub struct GroupConfig {
    pub enable_compat: Option<bool>,
    pub group_id: Option<u64>,
    pub house_id: Option<u64>,
    pub name: Option<String>,
    pub tries: Option<usize>,
    pub devices: Vec<DeviceConfig>,
}

/// The settings of one device; unset values fall back to those of its group.
#[derive(Debug)]
pub struct DeviceConfig {
    pub device_id: u64,
    pub name: Option<String>,
    pub tries: Option<usize>,
}

/// The topic used when the configuration names none.
pub fn default_topic() -> (r: String)
    ensures
        r@ == "proove"@,
{
    "proove".to_owned()
}

/// Which id exceeded its bound.
#[derive(Clone, Copy, Debug, PartialEq, Eq, Structural)]
pub enum IdKind {
    GroupId,
    HouseId,
    DeviceId,
    GlobalDeviceId,
}

/// Why a configuration was refused.
#[derive(Debug)]
pub enum ConfigError {
    /// Compact mode and no group id.
    GIDNotSet,
    /// Extended mode and a group id.
    GIDSet,
    /// Compact mode and no house id, neither in the group nor as default.
    HIDNotSet,
    /// Extended mode and a house id in the group.
    HIDSet,
    /// Extended mode and no group name.
    NameNotSet,
    GroupNotUnique { group_name: String },
    DeviceNotUnique { device_name: String },
    OutOfBounds { value: u64, kind: IdKind, max: u64 },
}

/// A `ConfigError` with its names as character sequences.
pub enum ConfigFault {
    GIDNotSet,
    GIDSet,
    HIDNotSet,
    HIDSet,
    NameNotSet,
    GroupNotUnique { group_name: Seq<char> },
    DeviceNotUnique { device_name: Seq<char> },
    OutOfBounds { value: u64, kind: IdKind, max: u64 },
}

impl View for ConfigError {
    type V = ConfigFault;

    open spec fn view(&self) -> ConfigFault {
        match self {
            ConfigError::GIDNotSet => ConfigFault::GIDNotSet,
            ConfigError::GIDSet => ConfigFault::GIDSet,
            ConfigError::HIDNotSet => ConfigFault::HIDNotSet,
            ConfigError::HIDSet => ConfigFault::HIDSet,
            ConfigError::NameNotSet => ConfigFault::NameNotSet,
            ConfigError::GroupNotUnique { group_name } => ConfigFault::GroupNotUnique {
                group_name: group_name@,
            },
            ConfigError::DeviceNotUnique { device_name } => ConfigFault::DeviceNotUnique {
                device_name: device_name@,
            },
            ConfigError::OutOfBounds { value, kind, max } => ConfigFault::OutOfBounds {
                value: *value,
                kind: *kind,
                max: *max,
            },
        }
    }
}

/// The character of a decimal digit.
pub open spec fn digit_char(d: nat) -> char {
    (d + 48) as char
}

/// The decimal digits of `n`, most significant first, without leading zeros.
pub open spec fn decimal(n: nat) -> Seq<char>
    decreases n,
{
    if n < 10 {
        seq![digit_char(n)]
    } else {
        decimal(n / 10).push(digit_char(n % 10))
    }
}

/// Relies on `u64`'s `to_string`: the plain decimal digits of the number.
#[verifier::external_body]
fn decimal_string(n: u64) -> (r: String)
    ensures
        r@ == decimal(n as nat),
{
    n.to_string()
}

/// Named groups with their names and devices as plain values.
pub open spec fn groups_view(groups: Seq<(String, Group)>) -> Seq<(Seq<char>, GroupView)> {
    groups.map_values(|e: (String, Group)| (e.0@, e.1@))
}

/// The name of a device entry: its own, else its id in decimal.
pub open spec fn device_name_of(dc: DeviceConfig) -> Seq<char> {
    match dc.name {
        Some(n) => n@,
        None => decimal(dc.device_id as nat),
    }
}

/// The device that an entry describes. In compact mode (`compact` holds the
/// house id and the group id) its id is the device id; otherwise it is a flat
/// id split into the three parts.
pub open spec fn device_of(dc: DeviceConfig, compact: Option<(u64, u64)>, tries: usize) -> Device {
    let t = match dc.tries {
        Some(t) => t,
        None => tries,
    };
    match compact {
        Some((h, g)) => Device { house_id: h, group_id: g, device_id: dc.device_id, tries: t },
        None => Device {
            house_id: dc.device_id >> 4,
            group_id: (dc.device_id >> 2) & 3,
            device_id: dc.device_id & 3,
            tries: t,
        },
    }
}

/// The devices of a group built from its entries in order, or the first
/// entry's fault: an id out of bounds, or a name already taken.
pub open spec fn build_devices(
    dcs: Seq<DeviceConfig>,
    compact: Option<(u64, u64)>,
    tries: usize,
) -> Result<Seq<(Seq<char>, Device)>, ConfigFault>
    decreases dcs.len(),
{
    if dcs.len() == 0 {
        Ok(Seq::empty())
    } else {
        match build_devices(dcs.drop_last(), compact, tries) {
            Err(e) => Err(e),
            Ok(prev) => {
                let dc = dcs.last();
                let name = device_name_of(dc);
                if compact is Some && dc.device_id >= MAX_DID {
                    Err(
                        ConfigFault::OutOfBounds {
                            value: dc.device_id,
                            kind: IdKind::DeviceId,
                            max: MAX_DID,
                        },
                    )
                } else if compact is None && dc.device_id >= MAX_ID {
                    Err(
                        ConfigFault::OutOfBounds {
                            value: dc.device_id,
                            kind: IdKind::GlobalDeviceId,
                            max: MAX_ID,
                        },
                    )
                } else if lookup(prev, name) is Some {
                    Err(ConfigFault::DeviceNotUnique { device_name: name })
                } else {
                    Ok(prev.push((name, device_of(dc, compact, tries))))
                }
            },
        }
    }
}

/// The named group that a group entry describes, given the defaults of the
/// configuration, or its fault.
pub open spec fn build_group(
    compat: bool,
    default_house: Option<u64>,
    default_tries: usize,
    gc: GroupConfig,
) -> Result<(Seq<char>, GroupView), ConfigFault> {
    let tries = match gc.tries {
        Some(t) => t,
        None => default_tries,
    };
    let compact = match gc.enable_compat {
        Some(c) => c,
        None => compat,
    };
    if compact {
        let house = match gc.house_id {
            Some(h) => Some(h),
            None => default_house,
        };
        match (gc.group_id, house) {
            (None, _) => Err(ConfigFault::GIDNotSet),
            (Some(_), None) => Err(ConfigFault::HIDNotSet),
            (Some(g), Some(h)) => if g >= MAX_GID {
                Err(ConfigFault::OutOfBounds { value: g, kind: IdKind::GroupId, max: MAX_GID })
            } else if h >= MAX_HID {
                Err(ConfigFault::OutOfBounds { value: h, kind: IdKind::HouseId, max: MAX_HID })
            } else {
                let name = match gc.name {
                    Some(n) => n@,
                    None => decimal(g as nat) + seq!['.'] + decimal(h as nat),
                };
                match build_devices(gc.devices@, Some((h, g)), tries) {
                    Err(e) => Err(e),
                    Ok(ds) => Ok(
                        (
                            name,
                            GroupView {
                                house_id: Some(h),
                                group_id: Some(g),
                                devices: ds,
                                tries: Some(tries),
                            },
                        ),
                    ),
                }
            },
        }
    } else if gc.group_id is Some {
        Err(ConfigFault::GIDSet)
    } else if gc.house_id is Some {
        Err(ConfigFault::HIDSet)
    } else {
        match gc.name {
            None => Err(ConfigFault::NameNotSet),
            Some(n) => match build_devices(gc.devices@, None, tries) {
                Err(e) => Err(e),
                Ok(ds) => Ok(
                    (
                        n@,
                        GroupView { house_id: None, group_id: None, devices: ds, tries: None },
                    ),
                ),
            },
        }
    }
}

/// The named groups built from the group entries in order, or the first
/// entry's fault: its own, or a name already taken.
pub open spec fn build_groups(config: Config, gcs: Seq<GroupConfig>) -> Result<
    Seq<(Seq<char>, GroupView)>,
    ConfigFault,
>
    decreases gcs.len(),
{
    if gcs.len() == 0 {
        Ok(Seq::empty())
    } else {
        match build_groups(config, gcs.drop_last()) {
            Err(e) => Err(e),
            Ok(prev) => match build_group(
                config.enable_compat,
                config.house_id,
                config.tries,
                gcs.last(),
            ) {
                Err(e) => Err(e),
                Ok(entry) => if lookup(prev, entry.0) is Some {
                    Err(ConfigFault::GroupNotUnique { group_name: entry.0 })
                } else {
                    Ok(prev.push(entry))
                },
            },
        }
    }
}

/// A name is found among named groups exactly where it is found among their
/// views.
proof fn lemma_lookup_groups_view(groups: Seq<(String, Group)>, name: Seq<char>)
    ensures
        (lookup(named_view(groups), name) is Some) == (lookup(groups_view(groups), name) is Some),
    decreases groups.len(),
{
    if groups.len() > 0 {
        assert(named_view(groups).drop_first() =~= named_view(groups.drop_first()));
        assert(groups_view(groups).drop_first() =~= groups_view(groups.drop_first()));
        lemma_lookup_groups_view(groups.drop_first(), name);
    }
}

/// A fault among the first `k` device entries is the fault of all of them.
proof fn lemma_build_devices_fault_stays(
    dcs: Seq<DeviceConfig>,
    k: int,
    compact: Option<(u64, u64)>,
    tries: usize,
)
    requires
        0 <= k <= dcs.len(),
        build_devices(dcs.take(k), compact, tries) is Err,
    ensures
        build_devices(dcs, compact, tries) == build_devices(dcs.take(k), compact, tries),
    decreases dcs.len(),
{
    if k == dcs.len() {
        assert(dcs.take(k) =~= dcs);
    } else {
        assert(dcs.drop_last().take(k) =~= dcs.take(k));
        lemma_build_devices_fault_stays(dcs.drop_last(), k, compact, tries);
    }
}

/// A fault among the first `k` group entries is the fault of all of them.
proof fn lemma_build_groups_fault_stays(config: Config, gcs: Seq<GroupConfig>, k: int)
    requires
        0 <= k <= gcs.len(),
        build_groups(config, gcs.take(k)) is Err,
    ensures
        build_groups(config, gcs) == build_groups(config, gcs.take(k)),
    decreases gcs.len(),
{
    if k == gcs.len() {
        assert(gcs.take(k) =~= gcs);
    } else {
        assert(gcs.drop_last().take(k) =~= gcs.take(k));
        lemma_build_groups_fault_stays(config, gcs.drop_last(), k);
    }
}

/// The devices built for a group never share a name.
proof fn lemma_build_devices_unique(
    dcs: Seq<DeviceConfig>,
    compact: Option<(u64, u64)>,
    tries: usize,
)
    requires
        build_devices(dcs, compact, tries) is Ok,
    ensures
        unique_names(build_devices(dcs, compact, tries)->Ok_0),
    decreases dcs.len(),
{
    if dcs.len() > 0 {
        lemma_build_devices_unique(dcs.drop_last(), compact, tries);
        let prev = build_devices(dcs.drop_last(), compact, tries)->Ok_0;
        lemma_lookup_none(prev, device_name_of(dcs.last()));
    }
}

/// The devices of a built group never share a name.
proof fn lemma_build_group_devices_unique(
    compat: bool,
    default_house: Option<u64>,
    default_tries: usize,
    gc: GroupConfig,
)
    requires
        build_group(compat, default_house, default_tries, gc) is Ok,
    ensures
        unique_names(build_group(compat, default_house, default_tries, gc)->Ok_0.1.devices),
{
    let tries = match gc.tries {
        Some(t) => t,
        None => default_tries,
    };
    let house = match gc.house_id {
        Some(h) => Some(h),
        None => default_house,
    };
    if build_devices(gc.devices@, None, tries) is Ok {
        lemma_build_devices_unique(gc.devices@, None, tries);
    }
    if gc.group_id is Some && house is Some {
        let compact = Some((house->Some_0, gc.group_id->Some_0));
        if build_devices(gc.devices@, compact, tries) is Ok {
            lemma_build_devices_unique(gc.devices@, compact, tries);
        }
    }
}

/// Built groups never share a name, nor do the devices within one.
proof fn lemma_build_groups_unique(config: Config, gcs: Seq<GroupConfig>)
    requires
        build_groups(config, gcs) is Ok,
    ensures
        unique_names(build_groups(config, gcs)->Ok_0),
        forall|i: int|
            0 <= i < build_groups(config, gcs)->Ok_0.len() ==> unique_names(
                #[trigger] build_groups(config, gcs)->Ok_0[i].1.devices,
            ),
    decreases gcs.len(),
{
    if gcs.len() > 0 {
        lemma_build_groups_unique(config, gcs.drop_last());
        let prev = build_groups(config, gcs.drop_last())->Ok_0;
        let last = gcs.last();
        lemma_build_group_devices_unique(config.enable_compat, config.house_id, config.tries, last);
        let entry = build_group(config.enable_compat, config.house_id, config.tries, last)->Ok_0;
        lemma_lookup_none(prev, entry.0);
    }
}

/// The name of a device entry.
fn device_name(dc: &DeviceConfig) -> (r: String)
    ensures
        r@ == device_name_of(*dc),
{
    match &dc.name {
        Some(n) => n.clone(),
        None => decimal_string(dc.device_id),
    }
}

/// Builds the devices of one group.
fn create_group_devices(dcs: &Vec<DeviceConfig>, compact: Option<(u64, u64)>, tries: usize) -> (r:
    Result<Vec<(String, Device)>, ConfigError>)
    ensures
        match r {
            Ok(ds) => build_devices(dcs@, compact, tries) == Ok::<
                Seq<(Seq<char>, Device)>,
                ConfigFault,
            >(named_view(ds@)),
            Err(e) => build_devices(dcs@, compact, tries) == Err::<
                Seq<(Seq<char>, Device)>,
                ConfigFault,
            >(e@),
        },
{
    let mut devices: Vec<(String, Device)> = Vec::new();
    let n = dcs.len();
    let mut i: usize = 0;
    assert(dcs@.take(0) =~= Seq::<DeviceConfig>::empty());
    assert(named_view(devices@) =~= Seq::<(Seq<char>, Device)>::empty());
    while i < n
        invariant
            n == dcs@.len(),
            i <= n,
            build_devices(dcs@.take(i as int), compact, tries) == Ok::<
                Seq<(Seq<char>, Device)>,
                ConfigFault,
            >(named_view(devices@)),
        decreases n - i,
    {
        let dc = &dcs[i];
        let ghost prefix = dcs@.take(i + 1);
        assert(prefix.drop_last() =~= dcs@.take(i as int));
        assert(prefix.last() == *dc);
        let name = device_name(dc);
        let t = match dc.tries {
            Some(t) => t,
            None => tries,
        };
        let device = match compact {
            Some((h, g)) => {
                if dc.device_id >= MAX_DID {
                    proof {
                        lemma_build_devices_fault_stays(dcs@, i + 1, compact, tries);
                    }
                    return Err(
                        ConfigError::OutOfBounds {
                            value: dc.device_id,
                            kind: IdKind::DeviceId,
                            max: MAX_DID,
                        },
                    );
                }
                Device::new(h, g, dc.device_id, t)
            },
            None => {
                if dc.device_id >= MAX_ID {
                    proof {
                        lemma_build_devices_fault_stays(dcs@, i + 1, compact, tries);
                    }
                    return Err(
                        ConfigError::OutOfBounds {
                            value: dc.device_id,
                            kind: IdKind::GlobalDeviceId,
                            max: MAX_ID,
                        },
                    );
                }
                let ids = derive_ids(dc.device_id);
                Device::new(ids.0, ids.1, ids.2, t)
            },
        };
        if find_entry(&devices, &name).is_some() {
            proof {
                lemma_build_devices_fault_stays(dcs@, i + 1, compact, tries);
            }
            return Err(ConfigError::DeviceNotUnique { device_name: name });
        }
        let ghost before = devices@;
        devices.push((name, device));
        assert(named_view(devices@) =~= named_view(before).push((name@, device)));
        i = i + 1;
    }
    assert(dcs@.take(n as int) =~= dcs@);
    Ok(devices)
}

/// Builds one named group from its entry and the configuration's defaults.
fn create_group(config: &Config, gc: &GroupConfig) -> (r: Result<(String, Group), ConfigError>)
    ensures
        match r {
            Ok(entry) => build_group(config.enable_compat, config.house_id, config.tries, *gc)
                == Ok::<(Seq<char>, GroupView), ConfigFault>((entry.0@, entry.1@)),
            Err(e) => build_group(config.enable_compat, config.house_id, config.tries, *gc)
                == Err::<(Seq<char>, GroupView), ConfigFault>(e@),
        },
{
    let tries = match gc.tries {
        Some(t) => t,
        None => config.tries,
    };
    let compact = match gc.enable_compat {
        Some(c) => c,
        None => config.enable_compat,
    };
    if compact {
        let group_id = match gc.group_id {
            Some(g) => g,
            None => {
                return Err(ConfigError::GIDNotSet);
            },
        };
        let house_id = match gc.house_id {
            Some(h) => h,
            None => match config.house_id {
                Some(h) => h,
                None => {
                    return Err(ConfigError::HIDNotSet);
                },
            },
        };
        if group_id >= MAX_GID {
            return Err(
                ConfigError::OutOfBounds { value: group_id, kind: IdKind::GroupId, max: MAX_GID },
            );
        }
        if house_id >= MAX_HID {
            return Err(
                ConfigError::OutOfBounds { value: house_id, kind: IdKind::HouseId, max: MAX_HID },
            );
        }
        let name = match &gc.name {
            Some(n) => n.clone(),
            None => {
                let g = decimal_string(group_id);
                let h = decimal_string(house_id);
                proof {
                    reveal_strlit(".");
                    assert("."@ =~= seq!['.']);
                }
                g.concat(".").concat(h.as_str())
            },
        };
        let devices = match create_group_devices(&gc.devices, Some((house_id, group_id)), tries) {
            Ok(ds) => ds,
            Err(e) => {
                return Err(e);
            },
        };
        Ok((name, Group::new(Some(house_id), Some(group_id), devices, Some(tries))))
    } else {
        if gc.group_id.is_some() {
            return Err(ConfigError::GIDSet);
        }
        if gc.house_id.is_some() {
            return Err(ConfigError::HIDSet);
        }
        let name = match &gc.name {
            Some(n) => n.clone(),
            None => {
                return Err(ConfigError::NameNotSet);
            },
        };
        let devices = match create_group_devices(&gc.devices, None, tries) {
            Ok(ds) => ds,
            Err(e) => {
                return Err(e);
            },
        };
        Ok((name, Group::new(None, None, devices, None)))
    }
}

/// Builds the named groups of a configuration, refusing it where a group's
/// addressing mode is inconsistent, an id is out of bounds, or a group or
/// device name is taken twice.
pub fn create_devices(config: Config) -> (r: Result<Vec<(String, Group)>, ConfigError>)
    ensures
        match r {
            Ok(groups) => {
                &&& build_groups(config, config.groups@) == Ok::<
                    Seq<(Seq<char>, GroupView)>,
                    ConfigFault,
                >(groups_view(groups@))
                &&& groups_well_formed(groups@)
            },
            Err(e) => build_groups(config, config.groups@) == Err::<
                Seq<(Seq<char>, GroupView)>,
                ConfigFault,
            >(e@),
        },
{
    let mut groups: Vec<(String, Group)> = Vec::new();
    let n = config.groups.len();
    let mut i: usize = 0;
    assert(config.groups@.take(0) =~= Seq::<GroupConfig>::empty());
    assert(groups_view(groups@) =~= Seq::<(Seq<char>, GroupView)>::empty());
    while i < n
        invariant
            n == config.groups@.len(),
            i <= n,
            build_groups(config, config.groups@.take(i as int)) == Ok::<
                Seq<(Seq<char>, GroupView)>,
                ConfigFault,
            >(groups_view(groups@)),
        decreases n - i,
    {
        let ghost prefix = config.groups@.take(i + 1);
        assert(prefix.drop_last() =~= config.groups@.take(i as int));
        assert(prefix.last() == config.groups@[i as int]);
        let entry = match create_group(&config, &config.groups[i]) {
            Ok(entry) => entry,
            Err(e) => {
                proof {
                    lemma_build_groups_fault_stays(config, config.groups@, i + 1);
                }
                return Err(e);
            },
        };
        proof {
            lemma_lookup_groups_view(groups@, entry.0@);
        }
        if find_entry(&groups, &entry.0).is_some() {
            proof {
                lemma_build_groups_fault_stays(config, config.groups@, i + 1);
            }
            return Err(ConfigError::GroupNotUnique { group_name: entry.0 });
        }
        let ghost before = groups@;
        groups.push(entry);
        assert(groups_view(groups@) =~= groups_view(before).push((entry.0@, entry.1@)));
        i = i + 1;
    }
    assert(config.groups@.take(n as int) =~= config.groups@);
    proof {
        lemma_build_groups_unique(config, config.groups@);
        let gv = groups_view(groups@);
        let nv = named_view(groups@);
        assert forall|i: int| 0 <= i < groups@.len() implies unique_names(
            #[trigger] groups@[i].1@.devices,
        ) by {
            assert(gv[i].1 == groups@[i].1@);
        }
        assert forall|i: int, j: int|
            #![trigger nv[i], nv[j]]
            0 <= i < j < nv.len() implies nv[i].0 != nv[j].0 by {
            assert(gv[i].0 == nv[i].0);
            assert(gv[j].0 == nv[j].0);
        }
    }
    Ok(groups)
}

} // verus!
