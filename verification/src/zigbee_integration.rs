//! Zigbee devices as entities: which ones a device provides, and what its reports change.

use vstd::prelude::*;
use vstd::string::*;

use crate::clock::{now_iso8601, now_unix_secs};
use crate::entity_view;
use crate::entity_view::{
    get_count, get_kelvin, get_level, get_text, get_texts, text_or_empty, EntityView,
};
use crate::ids;
use crate::ids::new_uuid;
use crate::json;
use crate::json::{copy_json, get_member, put_member, to_text, Json, JsonView, Members, Real};
use crate::keyed;
use crate::keyed::{lookup, Keyed, Record};
use crate::logbook_store;
use crate::logbook_store::{LogbookEntry, LogbookStore};
use crate::state_store;
use crate::state_store::{
    Context, ContextView, State, StateEvent, StateRun, StateStore, StateView,
};
use crate::text;
use crate::text::{chars_of, concat, decimal_string, is_alphanumeric, opt_is, str_eq, string_of, to_lowercase};
use crate::zigbee_device_store;
use crate::zigbee_device_store::{ZigbeeDeviceRecord, ZigbeeDeviceStore};
use crate::zigbee_entity_store;
use crate::zigbee_entity_store::{ZigbeeEntityModel, ZigbeeEntityRecord, ZigbeeEntityStore};

verus! {

/// A part of a device that takes commands and reports values.
pub struct EndpointDesc {
    pub endpoint: u8,
    pub profile_id: u16,
    pub device_id: u16,
    pub input_clusters: Vec<u16>,
    pub output_clusters: Vec<u16>,
}

/// What a device has told of itself.
pub struct DeviceInfo {
    /// The address of the device, in hexadecimal.
    pub ieee_addr: String,
    pub nwk_addr: u16,
    pub friendly_name: String,
    pub manufacturer: Option<String>,
    pub model: Option<String>,
    pub power_source: Option<String>,
    pub sw_build_id: Option<String>,
    pub endpoints: Vec<EndpointDesc>,
    pub initial_state: Vec<(String, Json)>,
}

/// Whether one of some endpoints has an input cluster.
pub open spec fn endpoints_have(endpoints: Seq<EndpointDesc>, cluster: u16) -> bool {
    exists|i: int|
        0 <= i < endpoints.len() && (#[trigger] endpoints[i]).input_clusters@.contains(cluster)
}

impl DeviceInfo {
    /// Whether the device has an input cluster.
    pub open spec fn has(&self, cluster: u16) -> bool {
        endpoints_have(self.endpoints@, cluster)
    }

    /// Whether the device has an input cluster.
    pub fn has_input_cluster(&self, cluster: u16) -> (r: bool)
        ensures
            r == self.has(cluster),
    {
        let mut i: usize = 0;
        while i < self.endpoints.len()
            invariant
                i <= self.endpoints@.len(),
                forall|k: int|
                    0 <= k < i ==> !(#[trigger] self.endpoints@[k]).input_clusters@.contains(cluster),
            decreases self.endpoints@.len() - i,
        {
            let clusters: &Vec<u16> = &self.endpoints[i].input_clusters;
            let mut j: usize = 0;
            while j < clusters.len()
                invariant
                    i < self.endpoints@.len(),
                    *clusters == self.endpoints@[i as int].input_clusters,
                    j <= clusters@.len(),
                    forall|k: int| 0 <= k < j ==> clusters@[k] != cluster,
                decreases clusters@.len() - j,
            {
                if clusters[j] == cluster {
                    assert(self.endpoints@[i as int].input_clusters@.contains(cluster));
                    return true;
                }
                j += 1;
            }
            i += 1;
        }
        false
    }
}

/// The device class of a security sensor of a given zone type.
pub open spec fn ias_class(zone_type: Option<u16>) -> Seq<char> {
    match zone_type {
        Some(0x000d) => "motion"@,
        Some(0x0015) => "door"@,
        Some(0x0028) => "smoke"@,
        Some(0x002a) => "moisture"@,
        Some(0x002b) => "carbon_monoxide"@,
        Some(0x002c) => "safety"@,
        Some(0x002d) => "vibration"@,
        _ => "opening"@,
    }
}

/// The device class of a security sensor of a given zone type.
pub fn ias_device_class(zone_type: Option<u16>) -> (r: &'static str)
    ensures
        r@ == ias_class(zone_type),
{
    match zone_type {
        Some(0x000d) => "motion",
        Some(0x0015) => "door",
        Some(0x0028) => "smoke",
        Some(0x002a) => "moisture",
        Some(0x002b) => "carbon_monoxide",
        Some(0x002c) => "safety",
        Some(0x002d) => "vibration",
        _ => "opening",
    }
}

/// The icon of a binary sensor of a given device class.
pub open spec fn binary_icon(device_class: Seq<char>) -> Seq<char> {
    if device_class == "motion"@ || device_class == "occupancy"@ {
        "motion-sensor"@
    } else if device_class == "door"@ || device_class == "opening"@ || device_class == "window"@ {
        "door-closed"@
    } else if device_class == "smoke"@ {
        "smoke-detector"@
    } else if device_class == "moisture"@ {
        "water"@
    } else if device_class == "carbon_monoxide"@ {
        "molecule-co"@
    } else if device_class == "vibration"@ {
        "vibrate"@
    } else if device_class == "tamper"@ {
        "shield-alert"@
    } else if device_class == "battery"@ {
        "battery-alert"@
    } else if device_class == "safety"@ {
        "shield-account"@
    } else {
        "alert-circle-outline"@
    }
}

/// The icon of a binary sensor of a given device class.
pub fn binary_sensor_icon(device_class: &str) -> (r: &'static str)
    ensures
        r@ == binary_icon(device_class@),
{
    if str_eq(device_class, "motion") || str_eq(device_class, "occupancy") {
        "motion-sensor"
    } else if str_eq(device_class, "door") || str_eq(device_class, "opening") || str_eq(
        device_class,
        "window",
    ) {
        "door-closed"
    } else if str_eq(device_class, "smoke") {
        "smoke-detector"
    } else if str_eq(device_class, "moisture") {
        "water"
    } else if str_eq(device_class, "carbon_monoxide") {
        "molecule-co"
    } else if str_eq(device_class, "vibration") {
        "vibrate"
    } else if str_eq(device_class, "tamper") {
        "shield-alert"
    } else if str_eq(device_class, "battery") {
        "battery-alert"
    } else if str_eq(device_class, "safety") {
        "shield-account"
    } else {
        "alert-circle-outline"
    }
}

/// A text with underscores for all but letters, numbers and underscores.
pub open spec fn id_base(s: Seq<char>) -> Seq<char> {
    s.map_values(
        |c: char|
            if text::alphanumeric(c) || c == '_' {
                c
            } else {
                '_'
            },
    )
}

/// A text with underscores for all but letters, numbers and underscores.
pub fn id_base_of(lower: &str) -> (r: String)
    ensures
        r@ == id_base(lower@),
{
    let cs: Vec<char> = chars_of(lower);
    let mut out: Vec<char> = Vec::new();
    let mut i: usize = 0;
    while i < cs.len()
        invariant
            i <= cs.len(),
            out@ == id_base(cs@.take(i as int)),
        decreases cs.len() - i,
    {
        if is_alphanumeric(cs[i]) || cs[i] == '_' {
            out.push(cs[i]);
        } else {
            out.push('_');
        }
        i += 1;
        assert(out@ =~= id_base(cs@.take(i as int)));
    }
    assert(cs@.take(i as int) =~= cs@);
    string_of(out.as_slice())
}

/// Records as mathematical values.
pub open spec fn models(s: Seq<ZigbeeEntityRecord>) -> Seq<ZigbeeEntityModel> {
    s.map_values(|e: ZigbeeEntityRecord| e@)
}

/// A new entity of a device: its id is the domain, the name of the device and a suffix.
pub open spec fn new_entity(
    domain: Seq<char>,
    base: Seq<char>,
    suffix: Seq<char>,
    ieee: Seq<char>,
    key: Option<Seq<char>>,
    class: Option<Seq<char>>,
    unit: Option<Seq<char>>,
) -> ZigbeeEntityModel {
    ZigbeeEntityModel {
        entity_id: domain + "."@ + base + suffix,
        ieee_addr: ieee,
        domain,
        attribute_key: key,
        device_class: class,
        unit_of_measurement: unit,
        name_by_user: None,
        user_area_id: None,
        disabled: false,
        icon: None,
        hidden_by: None,
    }
}

/// A list with an entity more, where a condition holds.
pub open spec fn and_if(
    s: Seq<ZigbeeEntityModel>,
    cond: bool,
    e: ZigbeeEntityModel,
) -> Seq<ZigbeeEntityModel> {
    if cond {
        s.push(e)
    } else {
        s
    }
}

/// The zone type in the first report of a device.
pub open spec fn zone_type_of(initial_state: Members) -> Option<u16> {
    match entity_view::count_attr(initial_state, "zone_type"@) {
        Some(n) => Some((n % 65536) as u16),
        None => None,
    }
}

/// The entities of a device: one for each thing that its input clusters can do or measure.
pub open spec fn device_entities(
    base: Seq<char>,
    ieee: Seq<char>,
    endpoints: Seq<EndpointDesc>,
    initial_state: Members,
) -> Seq<ZigbeeEntityModel> {
    let has = |c: u16| endpoints_have(endpoints, c);
    let sensor = |suffix: Seq<char>, key: Seq<char>, class: Seq<char>, unit: Seq<char>|
        new_entity("sensor"@, base, suffix, ieee, Some(key), Some(class), Some(unit));
    let binary = |suffix: Seq<char>, key: Seq<char>, class: Seq<char>|
        new_entity("binary_sensor"@, base, suffix, ieee, Some(key), Some(class), None);
    let actuator = if has(0x0008) || has(0x0300) {
        "light"@
    } else {
        "switch"@
    };
    let s0 = Seq::<ZigbeeEntityModel>::empty();
    let s1 = and_if(s0, has(0x0006), new_entity(actuator, base, ""@, ieee, None, None, None));
    let s2 = and_if(s1, has(0x0402), sensor("_temperature"@, "temperature"@, "temperature"@, "°C"@));
    let s3 = and_if(s2, has(0x0405), sensor("_humidity"@, "humidity"@, "humidity"@, "%"@));
    let s4 = and_if(
        s3,
        has(0x0403),
        sensor("_pressure"@, "pressure"@, "atmospheric_pressure"@, "hPa"@),
    );
    let s5 = and_if(s4, has(0x0001), sensor("_battery"@, "battery"@, "battery"@, "%"@));
    let s6 = and_if(
        s5,
        has(0x0001),
        sensor("_battery_voltage"@, "battery_voltage"@, "voltage"@, "V"@),
    );
    let s7 = and_if(s6, has(0x0001), binary("_battery_low"@, "battery_low"@, "battery"@));
    let s8 = and_if(
        s7,
        has(0x0400),
        sensor("_illuminance"@, "illuminance_lux"@, "illuminance"@, "lx"@),
    );
    let s9 = and_if(s8, has(0x0406), binary("_occupancy"@, "occupancy"@, "occupancy"@));
    let s10 = and_if(
        s9,
        has(0x0500),
        binary("_contact"@, "contact"@, ias_class(zone_type_of(initial_state))),
    );
    let s11 = and_if(s10, has(0x0500), binary("_tamper"@, "tamper"@, "tamper"@));
    let s12 = and_if(s11, has(0x0702), sensor("_energy"@, "energy"@, "energy"@, "kWh"@));
    let s13 = and_if(s12, has(0x0B04), sensor("_power"@, "power"@, "power"@, "W"@));
    let s14 = and_if(s13, has(0x0B04), sensor("_voltage"@, "voltage"@, "voltage"@, "V"@));
    and_if(s14, has(0x0B04), sensor("_current"@, "current"@, "current"@, "A"@))
}

/// What tells the entities of a device apart: the domain and the suffix of the id.
pub struct EntityCode {
    pub domain: Seq<char>,
    pub suffix: Seq<char>,
}

/// Whether a text is one of the domains of a Zigbee device.
spec fn zigbee_domain(d: Seq<char>) -> bool {
    d == "light"@ || d == "switch"@ || d == "sensor"@ || d == "binary_sensor"@
}

/// The place of a suffix among all.
#[verifier::opaque]
spec fn suffix_rank(s: Seq<char>) -> int {
    if s == ""@ {
        0
    } else if s == "_temperature"@ {
        1
    } else if s == "_humidity"@ {
        2
    } else if s == "_pressure"@ {
        3
    } else if s == "_battery"@ {
        4
    } else if s == "_battery_voltage"@ {
        5
    } else if s == "_battery_low"@ {
        6
    } else if s == "_illuminance"@ {
        7
    } else if s == "_occupancy"@ {
        8
    } else if s == "_contact"@ {
        9
    } else if s == "_tamper"@ {
        10
    } else if s == "_energy"@ {
        11
    } else if s == "_power"@ {
        12
    } else if s == "_voltage"@ {
        13
    } else if s == "_current"@ {
        14
    } else {
        15
    }
}

/// Whether entities have the ids that codes give, and the suffixes of the codes are in order, up to
/// a place.
#[verifier::opaque]
spec fn coded(
    s: Seq<ZigbeeEntityModel>,
    base: Seq<char>,
    ieee: Seq<char>,
    codes: Seq<EntityCode>,
    place: int,
) -> bool {
    &&& s.len() == codes.len()
    &&& forall|i: int, j: int|
        0 <= i < j < codes.len() ==> suffix_rank((#[trigger] codes[i]).suffix) < suffix_rank(
            (#[trigger] codes[j]).suffix,
        )
    &&& forall|i: int|
        0 <= i < s.len() ==> {
            &&& suffix_rank((#[trigger] codes[i]).suffix) < place
            &&& zigbee_domain(codes[i].domain)
            &&& s[i].entity_id == codes[i].domain + "."@ + base + codes[i].suffix
            &&& s[i].ieee_addr == ieee
        }
}

/// Different codes give different ids.
proof fn lemma_code_id(a: EntityCode, b: EntityCode, base: Seq<char>)
    requires
        a != b,
        zigbee_domain(a.domain),
        zigbee_domain(b.domain),
    ensures
        a.domain + "."@ + base + a.suffix != b.domain + "."@ + base + b.suffix,
{
    reveal_strlit("light");
    reveal_strlit("switch");
    reveal_strlit("sensor");
    reveal_strlit("binary_sensor");
    let x = a.domain + "."@ + base + a.suffix;
    let y = b.domain + "."@ + base + b.suffix;
    if x == y {
        assert(x[0] == a.domain[0] && y[0] == b.domain[0]);
        assert(x[1] == a.domain[1] && y[1] == b.domain[1]);
        assert(a.domain == b.domain);
        let n = (a.domain + "."@ + base).len() as int;
        assert(x.skip(n) =~= a.suffix);
        assert(y.skip(n) =~= b.suffix);
    }
}

/// A list with an entity more, where a condition holds, without a look inside.
#[verifier::opaque]
spec fn more_if(
    s: Seq<ZigbeeEntityModel>,
    cond: bool,
    e: ZigbeeEntityModel,
) -> Seq<ZigbeeEntityModel> {
    and_if(s, cond, e)
}

proof fn lemma_more_if(s: Seq<ZigbeeEntityModel>, cond: bool, e: ZigbeeEntityModel)
    ensures
        more_if(s, cond, e) == and_if(s, cond, e),
{
    reveal(more_if);
}

/// One entity more, with the next suffix.
proof fn lemma_coded_more(
    s: Seq<ZigbeeEntityModel>,
    base: Seq<char>,
    ieee: Seq<char>,
    codes: Seq<EntityCode>,
    place: int,
    cond: bool,
    domain: Seq<char>,
    suffix: Seq<char>,
    e: ZigbeeEntityModel,
) -> (more: Seq<EntityCode>)
    requires
        coded(s, base, ieee, codes, place),
        suffix_rank(suffix) == place,
        zigbee_domain(domain),
        e.entity_id == domain + "."@ + base + suffix,
        e.ieee_addr == ieee,
    ensures
        coded(more_if(s, cond, e), base, ieee, more, place + 1),
{
    reveal(coded);
    reveal(more_if);
    if cond {
        codes.push(EntityCode { domain, suffix })
    } else {
        codes
    }
}

/// Suffixes are told apart by their length and their first letters.
proof fn lemma_suffix_ranks()
    ensures
        suffix_rank(""@) == 0,
        suffix_rank("_temperature"@) == 1,
        suffix_rank("_humidity"@) == 2,
        suffix_rank("_pressure"@) == 3,
        suffix_rank("_battery"@) == 4,
        suffix_rank("_battery_voltage"@) == 5,
        suffix_rank("_battery_low"@) == 6,
        suffix_rank("_illuminance"@) == 7,
        suffix_rank("_occupancy"@) == 8,
        suffix_rank("_contact"@) == 9,
        suffix_rank("_tamper"@) == 10,
        suffix_rank("_energy"@) == 11,
        suffix_rank("_power"@) == 12,
        suffix_rank("_voltage"@) == 13,
        suffix_rank("_current"@) == 14,
{
    reveal(suffix_rank);
    reveal_strlit("");
    reveal_strlit("_temperature");
    reveal_strlit("_humidity");
    reveal_strlit("_pressure");
    reveal_strlit("_battery");
    reveal_strlit("_battery_voltage");
    reveal_strlit("_battery_low");
    reveal_strlit("_illuminance");
    reveal_strlit("_occupancy");
    reveal_strlit("_contact");
    reveal_strlit("_tamper");
    reveal_strlit("_energy");
    reveal_strlit("_power");
    reveal_strlit("_voltage");
    reveal_strlit("_current");
    assert(""@.len() == 0);
    assert("_temperature"@.len() == 12 && "_temperature"@[1] == 't');
    assert("_humidity"@.len() == 9 && "_humidity"@[1] == 'h');
    assert("_pressure"@.len() == 9 && "_pressure"@[1] == 'p');
    assert("_battery"@.len() == 8 && "_battery"@[1] == 'b');
    assert("_battery_voltage"@.len() == 16);
    assert("_battery_low"@.len() == 12 && "_battery_low"@[1] == 'b');
    assert("_illuminance"@.len() == 12 && "_illuminance"@[1] == 'i');
    assert("_occupancy"@.len() == 10);
    assert("_contact"@.len() == 8 && "_contact"@[1] == 'c' && "_contact"@[2] == 'o');
    assert("_tamper"@.len() == 7 && "_tamper"@[1] == 't');
    assert("_energy"@.len() == 7 && "_energy"@[1] == 'e');
    assert("_power"@.len() == 6);
    assert("_voltage"@.len() == 8 && "_voltage"@[1] == 'v');
    assert("_current"@.len() == 8 && "_current"@[1] == 'c' && "_current"@[2] == 'u');
}

/// The entities of a device, step by step.
spec fn device_chain(
    base: Seq<char>,
    ieee: Seq<char>,
    endpoints: Seq<EndpointDesc>,
    initial_state: Members,
) -> Seq<ZigbeeEntityModel> {
    let has = |c: u16| endpoints_have(endpoints, c);
    let actuator = if has(0x0008) || has(0x0300) {
        "light"@
    } else {
        "switch"@
    };
    let sensor = |suffix: Seq<char>, key: Seq<char>, class: Seq<char>, unit: Seq<char>|
        new_entity("sensor"@, base, suffix, ieee, Some(key), Some(class), Some(unit));
    let binary = |suffix: Seq<char>, key: Seq<char>, class: Seq<char>|
        new_entity("binary_sensor"@, base, suffix, ieee, Some(key), Some(class), None);
    let s0 = Seq::<ZigbeeEntityModel>::empty();
    let s1 = more_if(s0, has(0x0006), new_entity(actuator, base, ""@, ieee, None, None, None));
    let s2 = more_if(s1, has(0x0402), sensor("_temperature"@, "temperature"@, "temperature"@, "°C"@));
    let s3 = more_if(s2, has(0x0405), sensor("_humidity"@, "humidity"@, "humidity"@, "%"@));
    let s4 = more_if(s3, has(0x0403), sensor("_pressure"@, "pressure"@, "atmospheric_pressure"@, "hPa"@));
    let s5 = more_if(s4, has(0x0001), sensor("_battery"@, "battery"@, "battery"@, "%"@));
    let s6 = more_if(s5, has(0x0001), sensor("_battery_voltage"@, "battery_voltage"@, "voltage"@, "V"@));
    let s7 = more_if(s6, has(0x0001), binary("_battery_low"@, "battery_low"@, "battery"@));
    let s8 = more_if(s7, has(0x0400), sensor("_illuminance"@, "illuminance_lux"@, "illuminance"@, "lx"@));
    let s9 = more_if(s8, has(0x0406), binary("_occupancy"@, "occupancy"@, "occupancy"@));
    let s10 = more_if(s9, has(0x0500), binary("_contact"@, "contact"@, ias_class(zone_type_of(initial_state))));
    let s11 = more_if(s10, has(0x0500), binary("_tamper"@, "tamper"@, "tamper"@));
    let s12 = more_if(s11, has(0x0702), sensor("_energy"@, "energy"@, "energy"@, "kWh"@));
    let s13 = more_if(s12, has(0x0B04), sensor("_power"@, "power"@, "power"@, "W"@));
    let s14 = more_if(s13, has(0x0B04), sensor("_voltage"@, "voltage"@, "voltage"@, "V"@));
    let s15 = more_if(s14, has(0x0B04), sensor("_current"@, "current"@, "current"@, "A"@));
    s15
}

proof fn lemma_device_chain(
    base: Seq<char>,
    ieee: Seq<char>,
    endpoints: Seq<EndpointDesc>,
    initial_state: Members,
)
    ensures
        device_chain(base, ieee, endpoints, initial_state) == device_entities(
            base,
            ieee,
            endpoints,
            initial_state,
        ),
{
    let has = |c: u16| endpoints_have(endpoints, c);
    let actuator = if has(0x0008) || has(0x0300) {
        "light"@
    } else {
        "switch"@
    };
    let sensor = |suffix: Seq<char>, key: Seq<char>, class: Seq<char>, unit: Seq<char>|
        new_entity("sensor"@, base, suffix, ieee, Some(key), Some(class), Some(unit));
    let binary = |suffix: Seq<char>, key: Seq<char>, class: Seq<char>|
        new_entity("binary_sensor"@, base, suffix, ieee, Some(key), Some(class), None);
    let s0 = Seq::<ZigbeeEntityModel>::empty();
    lemma_more_if(s0, has(0x0006), new_entity(actuator, base, ""@, ieee, None, None, None));
    let s1 = more_if(s0, has(0x0006), new_entity(actuator, base, ""@, ieee, None, None, None));
    lemma_more_if(s1, has(0x0402), sensor("_temperature"@, "temperature"@, "temperature"@, "°C"@));
    let s2 = more_if(s1, has(0x0402), sensor("_temperature"@, "temperature"@, "temperature"@, "°C"@));
    lemma_more_if(s2, has(0x0405), sensor("_humidity"@, "humidity"@, "humidity"@, "%"@));
    let s3 = more_if(s2, has(0x0405), sensor("_humidity"@, "humidity"@, "humidity"@, "%"@));
    lemma_more_if(s3, has(0x0403), sensor("_pressure"@, "pressure"@, "atmospheric_pressure"@, "hPa"@));
    let s4 = more_if(s3, has(0x0403), sensor("_pressure"@, "pressure"@, "atmospheric_pressure"@, "hPa"@));
    lemma_more_if(s4, has(0x0001), sensor("_battery"@, "battery"@, "battery"@, "%"@));
    let s5 = more_if(s4, has(0x0001), sensor("_battery"@, "battery"@, "battery"@, "%"@));
    lemma_more_if(s5, has(0x0001), sensor("_battery_voltage"@, "battery_voltage"@, "voltage"@, "V"@));
    let s6 = more_if(s5, has(0x0001), sensor("_battery_voltage"@, "battery_voltage"@, "voltage"@, "V"@));
    lemma_more_if(s6, has(0x0001), binary("_battery_low"@, "battery_low"@, "battery"@));
    let s7 = more_if(s6, has(0x0001), binary("_battery_low"@, "battery_low"@, "battery"@));
    lemma_more_if(s7, has(0x0400), sensor("_illuminance"@, "illuminance_lux"@, "illuminance"@, "lx"@));
    let s8 = more_if(s7, has(0x0400), sensor("_illuminance"@, "illuminance_lux"@, "illuminance"@, "lx"@));
    lemma_more_if(s8, has(0x0406), binary("_occupancy"@, "occupancy"@, "occupancy"@));
    let s9 = more_if(s8, has(0x0406), binary("_occupancy"@, "occupancy"@, "occupancy"@));
    lemma_more_if(s9, has(0x0500), binary("_contact"@, "contact"@, ias_class(zone_type_of(initial_state))));
    let s10 = more_if(s9, has(0x0500), binary("_contact"@, "contact"@, ias_class(zone_type_of(initial_state))));
    lemma_more_if(s10, has(0x0500), binary("_tamper"@, "tamper"@, "tamper"@));
    let s11 = more_if(s10, has(0x0500), binary("_tamper"@, "tamper"@, "tamper"@));
    lemma_more_if(s11, has(0x0702), sensor("_energy"@, "energy"@, "energy"@, "kWh"@));
    let s12 = more_if(s11, has(0x0702), sensor("_energy"@, "energy"@, "energy"@, "kWh"@));
    lemma_more_if(s12, has(0x0B04), sensor("_power"@, "power"@, "power"@, "W"@));
    let s13 = more_if(s12, has(0x0B04), sensor("_power"@, "power"@, "power"@, "W"@));
    lemma_more_if(s13, has(0x0B04), sensor("_voltage"@, "voltage"@, "voltage"@, "V"@));
    let s14 = more_if(s13, has(0x0B04), sensor("_voltage"@, "voltage"@, "voltage"@, "V"@));
    lemma_more_if(s14, has(0x0B04), sensor("_current"@, "current"@, "current"@, "A"@));
    let s15 = more_if(s14, has(0x0B04), sensor("_current"@, "current"@, "current"@, "A"@));
}

/// The entities of a device have codes in order.
proof fn lemma_chain_coded(
    base: Seq<char>,
    ieee: Seq<char>,
    endpoints: Seq<EndpointDesc>,
    initial_state: Members,
) -> (codes: Seq<EntityCode>)
    ensures
        coded(device_chain(base, ieee, endpoints, initial_state), base, ieee, codes, 15),
{
    lemma_suffix_ranks();
    let has = |c: u16| endpoints_have(endpoints, c);
    let actuator = if has(0x0008) || has(0x0300) {
        "light"@
    } else {
        "switch"@
    };
    let sensor = |suffix: Seq<char>, key: Seq<char>, class: Seq<char>, unit: Seq<char>|
        new_entity("sensor"@, base, suffix, ieee, Some(key), Some(class), Some(unit));
    let binary = |suffix: Seq<char>, key: Seq<char>, class: Seq<char>|
        new_entity("binary_sensor"@, base, suffix, ieee, Some(key), Some(class), None);
    let s0 = Seq::<ZigbeeEntityModel>::empty();
    let c0 = Seq::<EntityCode>::empty();
    assert(coded(s0, base, ieee, c0, 0)) by {
        reveal(coded);
    }
    let e1 = new_entity(actuator, base, ""@, ieee, None, None, None);
    let c1 = lemma_coded_more(s0, base, ieee, c0, 0, has(0x0006), actuator, ""@, e1);
    let s1 = more_if(s0, has(0x0006), e1);
    let e2 = sensor("_temperature"@, "temperature"@, "temperature"@, "°C"@);
    let c2 = lemma_coded_more(s1, base, ieee, c1, 1, has(0x0402), "sensor"@, "_temperature"@, e2);
    let s2 = more_if(s1, has(0x0402), e2);
    let e3 = sensor("_humidity"@, "humidity"@, "humidity"@, "%"@);
    let c3 = lemma_coded_more(s2, base, ieee, c2, 2, has(0x0405), "sensor"@, "_humidity"@, e3);
    let s3 = more_if(s2, has(0x0405), e3);
    let e4 = sensor("_pressure"@, "pressure"@, "atmospheric_pressure"@, "hPa"@);
    let c4 = lemma_coded_more(s3, base, ieee, c3, 3, has(0x0403), "sensor"@, "_pressure"@, e4);
    let s4 = more_if(s3, has(0x0403), e4);
    let e5 = sensor("_battery"@, "battery"@, "battery"@, "%"@);
    let c5 = lemma_coded_more(s4, base, ieee, c4, 4, has(0x0001), "sensor"@, "_battery"@, e5);
    let s5 = more_if(s4, has(0x0001), e5);
    let e6 = sensor("_battery_voltage"@, "battery_voltage"@, "voltage"@, "V"@);
    let c6 = lemma_coded_more(s5, base, ieee, c5, 5, has(0x0001), "sensor"@, "_battery_voltage"@, e6);
    let s6 = more_if(s5, has(0x0001), e6);
    let e7 = binary("_battery_low"@, "battery_low"@, "battery"@);
    let c7 = lemma_coded_more(s6, base, ieee, c6, 6, has(0x0001), "binary_sensor"@, "_battery_low"@, e7);
    let s7 = more_if(s6, has(0x0001), e7);
    let e8 = sensor("_illuminance"@, "illuminance_lux"@, "illuminance"@, "lx"@);
    let c8 = lemma_coded_more(s7, base, ieee, c7, 7, has(0x0400), "sensor"@, "_illuminance"@, e8);
    let s8 = more_if(s7, has(0x0400), e8);
    let e9 = binary("_occupancy"@, "occupancy"@, "occupancy"@);
    let c9 = lemma_coded_more(s8, base, ieee, c8, 8, has(0x0406), "binary_sensor"@, "_occupancy"@, e9);
    let s9 = more_if(s8, has(0x0406), e9);
    let e10 = binary("_contact"@, "contact"@, ias_class(zone_type_of(initial_state)));
    let c10 = lemma_coded_more(s9, base, ieee, c9, 9, has(0x0500), "binary_sensor"@, "_contact"@, e10);
    let s10 = more_if(s9, has(0x0500), e10);
    let e11 = binary("_tamper"@, "tamper"@, "tamper"@);
    let c11 = lemma_coded_more(s10, base, ieee, c10, 10, has(0x0500), "binary_sensor"@, "_tamper"@, e11);
    let s11 = more_if(s10, has(0x0500), e11);
    let e12 = sensor("_energy"@, "energy"@, "energy"@, "kWh"@);
    let c12 = lemma_coded_more(s11, base, ieee, c11, 11, has(0x0702), "sensor"@, "_energy"@, e12);
    let s12 = more_if(s11, has(0x0702), e12);
    let e13 = sensor("_power"@, "power"@, "power"@, "W"@);
    let c13 = lemma_coded_more(s12, base, ieee, c12, 12, has(0x0B04), "sensor"@, "_power"@, e13);
    let s13 = more_if(s12, has(0x0B04), e13);
    let e14 = sensor("_voltage"@, "voltage"@, "voltage"@, "V"@);
    let c14 = lemma_coded_more(s13, base, ieee, c13, 13, has(0x0B04), "sensor"@, "_voltage"@, e14);
    let s14 = more_if(s13, has(0x0B04), e14);
    let e15 = sensor("_current"@, "current"@, "current"@, "A"@);
    let c15 = lemma_coded_more(s14, base, ieee, c14, 14, has(0x0B04), "sensor"@, "_current"@, e15);
    let s15 = more_if(s14, has(0x0B04), e15);
    assert(device_chain(base, ieee, endpoints, initial_state) == s15);
    c15
}

/// All entities of a device name its address, and each has an id of its own.
pub proof fn law_device_entities(
    base: Seq<char>,
    ieee: Seq<char>,
    endpoints: Seq<EndpointDesc>,
    initial_state: Members,
)
    ensures
        ({
            let r = device_entities(base, ieee, endpoints, initial_state);
            &&& forall|i: int| 0 <= i < r.len() ==> (#[trigger] r[i]).ieee_addr == ieee
            &&& forall|i: int, j: int|
                0 <= i < j < r.len() ==> (#[trigger] r[i]).entity_id != (#[trigger] r[j]).entity_id
        }),
{
    let codes = lemma_chain_coded(base, ieee, endpoints, initial_state);
    lemma_device_chain(base, ieee, endpoints, initial_state);
    lemma_coded_distinct(
        device_chain(base, ieee, endpoints, initial_state),
        base,
        ieee,
        codes,
        15,
    );
}

/// Entities whose codes are in order have the given address, and each has an id of its own.
proof fn lemma_coded_distinct(
    r: Seq<ZigbeeEntityModel>,
    base: Seq<char>,
    ieee: Seq<char>,
    codes: Seq<EntityCode>,
    place: int,
)
    requires
        coded(r, base, ieee, codes, place),
    ensures
        forall|i: int| 0 <= i < r.len() ==> (#[trigger] r[i]).ieee_addr == ieee,
        forall|i: int, j: int|
            0 <= i < j < r.len() ==> (#[trigger] r[i]).entity_id != (#[trigger] r[j]).entity_id,
{
    reveal(coded);
    assert forall|i: int, j: int| 0 <= i < j < r.len() implies (#[trigger] r[i]).entity_id != (
    #[trigger] r[j]).entity_id by {
        assert(suffix_rank(codes[i].suffix) < suffix_rank(codes[j].suffix));
        lemma_code_id(codes[i], codes[j], base);
    }
    assert forall|i: int| 0 <= i < r.len() implies (#[trigger] r[i]).ieee_addr == ieee by {
        assert(suffix_rank(codes[i].suffix) < place);
    }
}

/// An optional text as a string.
fn owned(s: Option<&str>) -> (r: Option<String>)
    ensures
        r.deep_view() == match s {
            Some(v) => Some(v@),
            None => None,
        },
{
    match s {
        Some(v) => Some(v.to_owned()),
        None => None,
    }
}

/// The text of an optional string.
pub open spec fn seen(s: Option<&str>) -> Option<Seq<char>> {
    match s {
        Some(v) => Some(v@),
        None => None,
    }
}

/// Adds an entity, where a condition holds.
fn add_if(
    records: &mut Vec<ZigbeeEntityRecord>,
    cond: bool,
    domain: &str,
    base: &str,
    suffix: &str,
    ieee: &str,
    key: Option<&str>,
    class: Option<&str>,
    unit: Option<&str>,
)
    ensures
        models(final(records)@) == and_if(
            models(old(records)@),
            cond,
            new_entity(domain@, base@, suffix@, ieee@, seen(key), seen(class), seen(unit)),
        ),
{
    if cond {
        let mut entity_id: String = concat(domain, ".");
        entity_id.append(base);
        entity_id.append(suffix);
        let ghost before = records@;
        let record: ZigbeeEntityRecord = ZigbeeEntityRecord {
            entity_id,
            ieee_addr: ieee.to_owned(),
            domain: domain.to_owned(),
            attribute_key: owned(key),
            device_class: owned(class),
            unit_of_measurement: owned(unit),
            name_by_user: None,
            user_area_id: None,
            disabled: false,
            icon: None,
            hidden_by: None,
        };
        records.push(record);
        assert(models(records@) =~= models(before).push(record@));
    }
}

/// Adds a sensor, where a condition holds.
fn add_sensor(
    records: &mut Vec<ZigbeeEntityRecord>,
    cond: bool,
    base: &str,
    suffix: &str,
    ieee: &str,
    key: &str,
    class: &str,
    unit: &str,
)
    ensures
        models(final(records)@) == and_if(
            models(old(records)@),
            cond,
            new_entity("sensor"@, base@, suffix@, ieee@, Some(key@), Some(class@), Some(unit@)),
        ),
{
    add_if(records, cond, "sensor", base, suffix, ieee, Some(key), Some(class), Some(unit));
}

/// Adds a binary sensor, where a condition holds.
fn add_binary(
    records: &mut Vec<ZigbeeEntityRecord>,
    cond: bool,
    base: &str,
    suffix: &str,
    ieee: &str,
    key: &str,
    class: &str,
)
    ensures
        models(final(records)@) == and_if(
            models(old(records)@),
            cond,
            new_entity("binary_sensor"@, base@, suffix@, ieee@, Some(key@), Some(class@), None),
        ),
{
    add_if(records, cond, "binary_sensor", base, suffix, ieee, Some(key), Some(class), None);
}

/// The entities of a device, for a name of it that can stand in entity ids.
pub fn entities_with_base(device: &DeviceInfo, base: &str) -> (r: Vec<ZigbeeEntityRecord>)
    ensures
        models(r@) == device_entities(
            base@,
            device.ieee_addr@,
            device.endpoints@,
            json::members_view(device.initial_state@),
        ),
{
    let mut records: Vec<ZigbeeEntityRecord> = Vec::new();
    assert(models(records@) =~= Seq::<ZigbeeEntityModel>::empty());
    let ieee: &str = device.ieee_addr.as_str();
    let dimmable: bool = device.has_input_cluster(0x0008) || device.has_input_cluster(0x0300);
    let actuator: &str = if dimmable {
        "light"
    } else {
        "switch"
    };
    let on_off: bool = device.has_input_cluster(0x0006);
    add_if(&mut records, on_off, actuator, base, "", ieee, None, None, None);
    let temperature: bool = device.has_input_cluster(0x0402);
    add_sensor(
        &mut records,
        temperature,
        base,
        "_temperature",
        ieee,
        "temperature",
        "temperature",
        "°C",
    );
    let humidity: bool = device.has_input_cluster(0x0405);
    add_sensor(&mut records, humidity, base, "_humidity", ieee, "humidity", "humidity", "%");
    let pressure: bool = device.has_input_cluster(0x0403);
    add_sensor(
        &mut records,
        pressure,
        base,
        "_pressure",
        ieee,
        "pressure",
        "atmospheric_pressure",
        "hPa",
    );
    let power: bool = device.has_input_cluster(0x0001);
    add_sensor(&mut records, power, base, "_battery", ieee, "battery", "battery", "%");
    add_sensor(
        &mut records,
        power,
        base,
        "_battery_voltage",
        ieee,
        "battery_voltage",
        "voltage",
        "V",
    );
    add_binary(&mut records, power, base, "_battery_low", ieee, "battery_low", "battery");
    let illuminance: bool = device.has_input_cluster(0x0400);
    add_sensor(
        &mut records,
        illuminance,
        base,
        "_illuminance",
        ieee,
        "illuminance_lux",
        "illuminance",
        "lx",
    );
    let occupancy: bool = device.has_input_cluster(0x0406);
    add_binary(&mut records, occupancy, base, "_occupancy", ieee, "occupancy", "occupancy");
    let ias: bool = device.has_input_cluster(0x0500);
    let zone_type: Option<u16> = match get_count(&device.initial_state, "zone_type") {
        Some(n) => Some((n % 65536) as u16),
        None => None,
    };
    let class: &str = ias_device_class(zone_type);
    add_binary(&mut records, ias, base, "_contact", ieee, "contact", class);
    add_binary(&mut records, ias, base, "_tamper", ieee, "tamper", "tamper");
    let metering: bool = device.has_input_cluster(0x0702);
    add_sensor(&mut records, metering, base, "_energy", ieee, "energy", "energy", "kWh");
    let electrical: bool = device.has_input_cluster(0x0B04);
    add_sensor(&mut records, electrical, base, "_power", ieee, "power", "power", "W");
    add_sensor(&mut records, electrical, base, "_voltage", ieee, "voltage", "voltage", "V");
    add_sensor(&mut records, electrical, base, "_current", ieee, "current", "current", "A");
    records
}

/// The entities that a device provides.
pub fn entities_for_device(device: &DeviceInfo) -> (r: Vec<ZigbeeEntityRecord>)
    ensures
        models(r@) == device_entities(
            id_base(text::lowercased(device.friendly_name@)),
            device.ieee_addr@,
            device.endpoints@,
            json::members_view(device.initial_state@),
        ),
{
    let lower: String = to_lowercase(device.friendly_name.as_str());
    let base: String = id_base_of(lower.as_str());
    entities_with_base(device, base.as_str())
}

/// What has been computed of the colour in a report, where that takes fractions.
pub struct ColorReadings {
    /// The colour temperature in kelvin and in mireds, where the report gives a positive number
    /// of mireds that is no small whole number.
    pub color_temp: Option<(u64, Real)>,
    /// Hue, saturation, and the colour in red, green and blue, where the report gives a colour.
    pub color: Option<ColorReading>,
}

/// A colour: hue, saturation, and red, green and blue.
pub struct ColorReading {
    pub hue: Real,
    pub saturation: Real,
    pub red: u8,
    pub green: u8,
    pub blue: u8,
}

/// The number of whole mireds up to which a colour temperature is converted exactly.
pub const MAX_WHOLE_MIREDS: u64 = 1_000_000_000_000_000;

/// A colour temperature in kelvin: a million divided by the mireds, rounded.
pub open spec fn kelvin_of(mireds: nat) -> nat {
    (2_000_000 + mireds) / (2 * mireds)
}

/// A colour temperature in kelvin.
pub fn kelvin_of_mireds(mireds: u64) -> (r: u64)
    requires
        0 < mireds < MAX_WHOLE_MIREDS,
    ensures
        r == kelvin_of(mireds as nat),
{
    (2_000_000 + mireds) / (2 * mireds)
}

/// The rounded quotient is the nearest whole number of kelvin.
pub proof fn law_kelvin_nearest(mireds: nat)
    requires
        mireds > 0,
    ensures
        2 * kelvin_of(mireds) * mireds <= 2_000_000 + mireds,
        2_000_000 < 2 * kelvin_of(mireds) * mireds + mireds,
{
    let k = kelvin_of(mireds);
    let n = 2_000_000 + mireds;
    let d = 2 * mireds;
    assert(n == d * (n / d) + n % d && 0 <= n % d < d) by (nonlinear_arith)
        requires
            d > 0,
    ;
    assert(d * k == 2 * k * mireds) by (nonlinear_arith)
        requires
            d == 2 * mireds,
    ;
}

/// The colour temperature in a report, in kelvin and in mireds.
pub open spec fn color_temp_in(raw: Members, readings: ColorReadings) -> Option<(u64, Seq<char>)> {
    match json::member(raw, "color_temp"@) {
        Some(JsonView::PosInt(n)) => if n == 0 {
            None
        } else if n < MAX_WHOLE_MIREDS {
            Some((kelvin_of(n as nat) as u64, text::decimal(n as nat) + ".0"@))
        } else {
            given_temp(readings)
        },
        Some(JsonView::Float(_)) => given_temp(readings),
        _ => None,
    }
}

/// The colour temperature that has been computed.
pub open spec fn given_temp(readings: ColorReadings) -> Option<(u64, Seq<char>)> {
    match readings.color_temp {
        Some(t) => Some((t.0, t.1@)),
        None => None,
    }
}

/// The state value that a report gives an entity.
pub open spec fn reported_value(ent: ZigbeeEntityModel, raw: Members) -> Option<Seq<char>> {
    if ent.domain == "light"@ || ent.domain == "switch"@ {
        match json::member(raw, "state"@) {
            Some(JsonView::Str(s)) => Some(text::lowercased(s)),
            _ => None,
        }
    } else {
        match ent.attribute_key {
            Some(k) => match json::member(raw, k) {
                Some(v) => Some(value_text(v)),
                None => None,
            },
            None => None,
        }
    }
}

/// The state value that a report publishes for an entity: none for a disabled one.
pub open spec fn published_value(ent: ZigbeeEntityModel, raw: Members) -> Option<Seq<char>> {
    if ent.disabled {
        None
    } else {
        reported_value(ent, raw)
    }
}

/// The state value of a reported value.
pub open spec fn value_text(v: JsonView) -> Seq<char> {
    match v {
        JsonView::Str(s) => s,
        JsonView::Bool(b) => if b {
            "on"@
        } else {
            "off"@
        },
        _ => json::json_text(v),
    }
}

/// Attributes with a text more, where there is one.
pub open spec fn with_text(attrs: Members, name: Seq<char>, value: Option<Seq<char>>) -> Members {
    match value {
        Some(v) => json::with_member(attrs, name, JsonView::Str(v)),
        None => attrs,
    }
}

/// Attributes with a member of a report, where it has one.
pub open spec fn with_reported(attrs: Members, raw: Members, name: Seq<char>) -> Members {
    match json::member(raw, name) {
        Some(v) => json::with_member(attrs, name, v),
        None => attrs,
    }
}

/// The class of the states of a sensor: a counter that only rises, or a measurement.
pub open spec fn state_class_of(device_class: Option<Seq<char>>) -> Seq<char> {
    if device_class == Some("energy"@) {
        "total_increasing"@
    } else {
        "measurement"@
    }
}

/// Attributes with the colour of a light.
pub open spec fn with_color(attrs: Members, raw: Members, readings: ColorReadings) -> Members {
    let a = with_reported(
        with_reported(with_reported(attrs, raw, "brightness"@), raw, "color_mode"@),
        raw,
        "color"@,
    );
    let b = match color_temp_in(raw, readings) {
        Some((kelvin, mireds)) => json::with_member(
            json::with_member(a, "color_temp_kelvin"@, JsonView::PosInt(kelvin)),
            "color_temp"@,
            JsonView::Float(mireds),
        ),
        None => a,
    };
    match (json::member(raw, "color"@), readings.color) {
        (Some(JsonView::Object(_)), Some(c)) => json::with_member(
            json::with_member(
                b,
                "hs_color"@,
                JsonView::Array(
                    Seq::empty().push(JsonView::Float(c.hue@)).push(JsonView::Float(c.saturation@)),
                ),
            ),
            "rgb_color"@,
            JsonView::Array(
                Seq::empty().push(JsonView::PosInt(c.red as u64)).push(
                    JsonView::PosInt(c.green as u64),
                ).push(JsonView::PosInt(c.blue as u64)),
            ),
        ),
        _ => b,
    }
}

/// The attributes that a report gives an entity.
pub open spec fn reported_attributes(
    ent: ZigbeeEntityModel,
    raw: Members,
    readings: ColorReadings,
) -> Members {
    let base = with_text(
        with_text(json::no_members(), "unit_of_measurement"@, ent.unit_of_measurement),
        "device_class"@,
        ent.device_class,
    );
    let own = if ent.domain == "sensor"@ {
        json::with_member(base, "state_class"@, JsonView::Str(state_class_of(ent.device_class)))
    } else if ent.domain == "light"@ {
        with_color(base, raw, readings)
    } else {
        base
    };
    json::with_member(own, "friendly_name"@, JsonView::Str(ent.shown_name()))
}

/// A time and the id of a context.
pub type Stamp = (Seq<char>, Seq<char>);

/// Whether a stamp is a point in time and a fresh id.
pub open spec fn is_stamp(s: Stamp) -> bool {
    state_store::is_timestamp(s.0) && ids::is_hyphenated(s.1)
}

/// A context that only has an id.
pub open spec fn plain_context(id: Seq<char>) -> ContextView {
    ContextView { id, parent_id: None, user_id: None }
}

/// States after a report has reached one entity. The state of a disabled one is not published.
pub open spec fn push_one(
    run: StateRun,
    ent: ZigbeeEntityModel,
    raw: Members,
    readings: ColorReadings,
    stamp: Stamp,
) -> StateRun {
    match published_value(ent, raw) {
        Some(v) => run.offer(
            state_store::state_at(
                ent.entity_id,
                v,
                reported_attributes(ent, raw, readings),
                plain_context(stamp.1),
                stamp.0,
            ),
        ),
        None => run,
    }
}

/// States after a report has reached some entities, one after the other.
pub open spec fn pushed(
    run: StateRun,
    ents: Seq<ZigbeeEntityModel>,
    raw: Members,
    readings: ColorReadings,
    stamps: Seq<Stamp>,
) -> StateRun
    decreases ents.len(),
{
    if ents.len() == 0 {
        run
    } else {
        let n = (ents.len() - 1) as int;
        push_one(
            pushed(run, ents.take(n), raw, readings, stamps),
            ents[n],
            raw,
            readings,
            stamps[n],
        )
    }
}

proof fn lemma_pushed_stamps(
    run: StateRun,
    ents: Seq<ZigbeeEntityModel>,
    raw: Members,
    readings: ColorReadings,
    s1: Seq<Stamp>,
    s2: Seq<Stamp>,
)
    requires
        forall|i: int| 0 <= i < ents.len() ==> #[trigger] s1[i] == s2[i],
    ensures
        pushed(run, ents, raw, readings, s1) == pushed(run, ents, raw, readings, s2),
    decreases ents.len(),
{
    if ents.len() > 0 {
        let n = (ents.len() - 1) as int;
        lemma_pushed_stamps(run, ents.take(n), raw, readings, s1, s2);
        assert(s1[n] == s2[n]);
    }
}

/// A report changes nothing where all entities are disabled.
proof fn lemma_disabled_silent(
    run: StateRun,
    ents: Seq<ZigbeeEntityModel>,
    raw: Members,
    readings: ColorReadings,
    stamps: Seq<Stamp>,
)
    requires
        forall|i: int| 0 <= i < ents.len() ==> (#[trigger] ents[i]).disabled,
    ensures
        pushed(run, ents, raw, readings, stamps) == run,
    decreases ents.len(),
{
    if ents.len() > 0 {
        let n = (ents.len() - 1) as int;
        lemma_disabled_silent(run, ents.take(n), raw, readings, stamps);
        assert(ents[n].disabled);
    }
}

/// The state of a disabled entity is not published: a report leaves it as it was.
pub proof fn law_disabled_silent(
    run: StateRun,
    ents: Seq<ZigbeeEntityModel>,
    raw: Members,
    readings: ColorReadings,
    stamps: Seq<Stamp>,
    id: Seq<char>,
)
    requires
        forall|i: int|
            0 <= i < ents.len() && (#[trigger] ents[i]).entity_id == id ==> ents[i].disabled,
    ensures
        state_store::state_in(pushed(run, ents, raw, readings, stamps).states, id)
            == state_store::state_in(run.states, id),
    decreases ents.len(),
{
    if ents.len() > 0 {
        let n = (ents.len() - 1) as int;
        let front = ents.take(n);
        assert forall|i: int|
            0 <= i < front.len() && (#[trigger] front[i]).entity_id == id implies front[i].disabled by {
            assert(front[i] == ents[i]);
        }
        law_disabled_silent(run, front, raw, readings, stamps, id);
        let e = ents[n];
        assert(e.entity_id == id ==> e.disabled);
    }
}

/// Whether states come from others when a report reaches some entities, at whatever times.
pub open spec fn pushed_to(
    run0: StateRun,
    run1: StateRun,
    ents: Seq<ZigbeeEntityModel>,
    raw: Members,
    readings: ColorReadings,
) -> bool {
    exists|stamps: Seq<Stamp>|
        {
            &&& stamps.len() == ents.len()
            &&& forall|i: int| 0 <= i < stamps.len() ==> is_stamp(#[trigger] stamps[i])
            &&& run1 == #[trigger] pushed(run0, ents, raw, readings, stamps)
        }
}

/// A fresh context.
pub fn new_ctx() -> (r: Context)
    ensures
        ids::is_hyphenated(r.id@),
        r@ == plain_context(r.id@),
{
    Context::new(new_uuid())
}

/// The state value of a reported value.
fn value_text_of(v: &Json) -> (r: String)
    ensures
        r@ == value_text(v@),
{
    match v {
        Json::Str(s) => s.clone(),
        Json::Bool(b) => if *b {
            "on".to_owned()
        } else {
            "off".to_owned()
        },
        _ => to_text(v),
    }
}

/// The state value that a report gives an entity.
fn reported_value_of(ent: &ZigbeeEntityRecord, raw: &Vec<(String, Json)>) -> (r: Option<String>)
    ensures
        r.deep_view() == reported_value(ent@, json::members_view(raw@)),
{
    if str_eq(ent.domain.as_str(), "light") || str_eq(ent.domain.as_str(), "switch") {
        match get_member(raw, "state") {
            Some(v) => match v.as_str() {
                Some(s) => Some(to_lowercase(s)),
                None => None,
            },
            None => None,
        }
    } else {
        match &ent.attribute_key {
            Some(k) => match get_member(raw, k.as_str()) {
                Some(v) => Some(value_text_of(v)),
                None => None,
            },
            None => None,
        }
    }
}

/// Sets an attribute to a text, where there is one.
fn put_text(attrs: &mut Vec<(String, Json)>, name: &str, value: &Option<String>)
    ensures
        json::members_view(final(attrs)@) == with_text(
            json::members_view(old(attrs)@),
            name@,
            value.deep_view(),
        ),
{
    if let Some(v) = value {
        put_member(attrs, name, Json::Str(v.clone()));
    }
}

/// Sets an attribute to a member of a report, where it has one.
fn put_reported(attrs: &mut Vec<(String, Json)>, raw: &Vec<(String, Json)>, name: &str)
    ensures
        json::members_view(final(attrs)@) == with_reported(
            json::members_view(old(attrs)@),
            json::members_view(raw@),
            name@,
        ),
{
    if let Some(v) = get_member(raw, name) {
        put_member(attrs, name, copy_json(v));
    }
}

/// An array of JSON values.
fn array_of(a: Json, b: Json) -> (r: Vec<Json>)
    ensures
        json::items_view(r@) == Seq::empty().push(a@).push(b@),
{
    let mut v: Vec<Json> = Vec::new();
    let ghost s0 = v@;
    v.push(a);
    let ghost s1 = v@;
    v.push(b);
    proof {
        assert(s1.drop_last() =~= s0);
        assert(v@.drop_last() =~= s1);
        assert(json::items_view(s1) == json::items_view(s0).push(a@));
        assert(json::items_view(v@) == json::items_view(s1).push(b@));
    }
    v
}

/// The colour temperature in a report, in kelvin and in mireds.
fn color_temp_of(raw: &Vec<(String, Json)>, readings: &ColorReadings) -> (r: Option<(u64, String)>)
    ensures
        match r {
            Some(t) => color_temp_in(json::members_view(raw@), *readings) == Some((t.0, t.1@)),
            None => color_temp_in(json::members_view(raw@), *readings) is None,
        },
{
    let computed: Option<(u64, String)> = match &readings.color_temp {
        Some(t) => Some((t.0, t.1.clone())),
        None => None,
    };
    match get_member(raw, "color_temp") {
        Some(v) => match v {
            Json::PosInt(n) => if *n == 0 {
                None
            } else if *n < MAX_WHOLE_MIREDS {
                Some((kelvin_of_mireds(*n), concat(decimal_string(*n).as_str(), ".0")))
            } else {
                computed
            },
            Json::Float(_) => computed,
            _ => None,
        },
        None => None,
    }
}

/// Sets the attributes for the colour of a light.
fn put_color(attrs: &mut Vec<(String, Json)>, raw: &Vec<(String, Json)>, readings: &ColorReadings)
    ensures
        json::members_view(final(attrs)@) == with_color(
            json::members_view(old(attrs)@),
            json::members_view(raw@),
            *readings,
        ),
{
    put_reported(attrs, raw, "brightness");
    put_reported(attrs, raw, "color_mode");
    put_reported(attrs, raw, "color");
    if let Some((kelvin, mireds)) = color_temp_of(raw, readings) {
        put_member(attrs, "color_temp_kelvin", Json::PosInt(kelvin));
        put_member(attrs, "color_temp", Json::Float(mireds));
    }
    let has_color: bool = match get_member(raw, "color") {
        Some(v) => match v {
            Json::Object(_) => true,
            _ => false,
        },
        None => false,
    };
    if has_color {
        if let Some(c) = &readings.color {
            let hs: Vec<Json> = array_of(
                Json::Float(c.hue.clone()),
                Json::Float(c.saturation.clone()),
            );
            put_member(attrs, "hs_color", Json::Array(hs));
            let mut rgb: Vec<Json> = array_of(
                Json::PosInt(c.red as u64),
                Json::PosInt(c.green as u64),
            );
            let ghost s2 = rgb@;
            let blue: Json = Json::PosInt(c.blue as u64);
            rgb.push(blue);
            proof {
                assert(rgb@.drop_last() =~= s2);
                assert(json::items_view(rgb@) == json::items_view(s2).push(blue@));
            }
            put_member(attrs, "rgb_color", Json::Array(rgb));
        }
    }
}

/// The class of the states of a sensor.
fn state_class(device_class: &Option<String>) -> (r: &'static str)
    ensures
        r@ == state_class_of(device_class.deep_view()),
{
    if opt_is(device_class, "energy") {
        "total_increasing"
    } else {
        "measurement"
    }
}

/// The attributes that a report gives an entity.
fn reported_attributes_of(
    ent: &ZigbeeEntityRecord,
    raw: &Vec<(String, Json)>,
    readings: &ColorReadings,
) -> (r: Vec<(String, Json)>)
    ensures
        json::members_view(r@) == reported_attributes(ent@, json::members_view(raw@), *readings),
{
    let mut attrs: Vec<(String, Json)> = Vec::new();
    put_text(&mut attrs, "unit_of_measurement", &ent.unit_of_measurement);
    put_text(&mut attrs, "device_class", &ent.device_class);
    if str_eq(ent.domain.as_str(), "sensor") {
        put_member(&mut attrs, "state_class", Json::str(state_class(&ent.device_class)));
    } else if str_eq(ent.domain.as_str(), "light") {
        put_color(&mut attrs, raw, readings);
    }
    put_member(&mut attrs, "friendly_name", Json::Str(ent.display_name()));
    attrs
}

/// Takes a report of a device into the states of its entities. A disabled entity and a state that
/// may not be stored are left out.
pub fn push_state(
    raw_state: &Vec<(String, Json)>,
    entities: &Vec<ZigbeeEntityRecord>,
    readings: &ColorReadings,
    states: &mut StateStore,
    events: &mut Vec<StateEvent>,
)
    ensures
        pushed_to(
            state_store::run_of(*old(states), old(events)@),
            state_store::run_of(*final(states), final(events)@),
            models(entities@),
            json::members_view(raw_state@),
            *readings,
        ),
        (forall|i: int| 0 <= i < entities@.len() ==> (#[trigger] entities@[i]).disabled)
            ==> state_store::run_of(*final(states), final(events)@) == state_store::run_of(
            *old(states),
            old(events)@,
        ),
        old(states).wf() ==> final(states).wf(),
{
    let ghost run0 = state_store::run_of(*states, events@);
    let ghost ents = models(entities@);
    let ghost raw = json::members_view(raw_state@);
    let ghost mut stamps: Seq<Stamp> = Seq::empty();
    let mut i: usize = 0;
    assert(ents.take(0) =~= Seq::empty());
    while i < entities.len()
        invariant
            i <= entities@.len(),
            ents == models(entities@),
            raw == json::members_view(raw_state@),
            run0 == state_store::run_of(*old(states), old(events)@),
            stamps.len() == i,
            forall|k: int| 0 <= k < stamps.len() ==> is_stamp(#[trigger] stamps[k]),
            state_store::run_of(*states, events@) == pushed(run0, ents.take(i as int), raw, *readings, stamps),
            old(states).wf() ==> states.wf(),
        decreases entities@.len() - i,
    {
        let ent: &ZigbeeEntityRecord = &entities[i];
        let ghost before = stamps;
        let ts: String = now_iso8601();
        let context: Context = new_ctx();
        proof {
            stamps = stamps.push((ts@, context.id@));
            assert forall|k: int| 0 <= k < i implies #[trigger] before[k] == stamps[k] by {}
            lemma_pushed_stamps(run0, ents.take(i as int), raw, *readings, before, stamps);
            assert(ents.take(i + 1).take(i as int) =~= ents.take(i as int));
            assert(ents.take(i + 1)[i as int] == ent@);
        }
        let value: Option<String> = if ent.disabled {
            None
        } else {
            reported_value_of(ent, raw_state)
        };
        if let Some(value) = value {
            let attributes: Vec<(String, Json)> = reported_attributes_of(ent, raw_state, readings);
            let state: State = State {
                entity_id: ent.entity_id.clone(),
                state: value,
                attributes,
                last_changed: ts.clone(),
                last_updated: ts.clone(),
                last_reported: ts,
                context,
            };
            let _ = states.offer(state, events);
        }
        i += 1;
    }
    assert(ents.take(i as int) =~= ents);
    proof {
        if forall|k: int| 0 <= k < entities@.len() ==> (#[trigger] entities@[k]).disabled {
            assert forall|k: int| 0 <= k < ents.len() implies (#[trigger] ents[k]).disabled by {
                assert(ents[k] == entities@[k]@);
            }
            lemma_disabled_silent(run0, ents, raw, *readings, stamps);
        }
    }
}

/// A reading for the history of an entity.
pub enum ReadingValue {
    /// A number.
    Number(Json),
    /// A text that may be a number.
    Text(String),
    On,
    Off,
}

/// A reading as a mathematical value.
pub enum ReadingModel {
    Number(JsonView),
    Text(Seq<char>),
    On,
    Off,
}

impl View for ReadingValue {
    type V = ReadingModel;

    open spec fn view(&self) -> ReadingModel {
        match self {
            ReadingValue::Number(j) => ReadingModel::Number(j@),
            ReadingValue::Text(s) => ReadingModel::Text(s@),
            ReadingValue::On => ReadingModel::On,
            ReadingValue::Off => ReadingModel::Off,
        }
    }
}

/// A reading of an entity.
pub struct Reading {
    pub entity_id: String,
    pub value: ReadingValue,
}

/// Readings as mathematical values.
pub open spec fn readings_model(s: Seq<Reading>) -> Seq<(Seq<char>, ReadingModel)> {
    s.map_values(|r: Reading| (r.entity_id@, r.value@))
}

/// The reading that a report gives an entity.
pub open spec fn reading_of(ent: ZigbeeEntityModel, raw: Members) -> Option<ReadingModel> {
    let by_key = match ent.attribute_key {
        Some(k) => json::member(raw, k),
        None => None,
    };
    if ent.domain == "sensor"@ {
        match by_key {
            Some(JsonView::Str(s)) => Some(ReadingModel::Text(s)),
            Some(j) => if entity_view::is_number(j) {
                Some(ReadingModel::Number(j))
            } else {
                None
            },
            None => None,
        }
    } else if ent.domain == "binary_sensor"@ {
        match by_key {
            Some(JsonView::Str(s)) => if text::lowercased(s) == "on"@ || text::lowercased(s)
                == "true"@ {
                Some(ReadingModel::On)
            } else if text::lowercased(s) == "off"@ || text::lowercased(s) == "false"@ {
                Some(ReadingModel::Off)
            } else {
                None
            },
            Some(JsonView::Bool(b)) => Some(
                if b {
                    ReadingModel::On
                } else {
                    ReadingModel::Off
                },
            ),
            _ => None,
        }
    } else if ent.domain == "light"@ || ent.domain == "switch"@ {
        match json::member(raw, "state"@) {
            Some(JsonView::Str(s)) => if text::lowercased(s) == "on"@ {
                Some(ReadingModel::On)
            } else if text::lowercased(s) == "off"@ {
                Some(ReadingModel::Off)
            } else {
                None
            },
            _ => None,
        }
    } else {
        None
    }
}

/// The readings that a report gives some entities.
pub open spec fn readings_of(
    ents: Seq<ZigbeeEntityModel>,
    raw: Members,
) -> Seq<(Seq<char>, ReadingModel)>
    decreases ents.len(),
{
    if ents.len() == 0 {
        Seq::empty()
    } else {
        let rest = readings_of(ents.drop_last(), raw);
        match reading_of(ents.last(), raw) {
            Some(v) => rest.push((ents.last().entity_id, v)),
            None => rest,
        }
    }
}

/// The reading that a report gives an entity.
fn read_one(ent: &ZigbeeEntityRecord, raw: &Vec<(String, Json)>) -> (r: Option<ReadingValue>)
    ensures
        match r {
            Some(v) => reading_of(ent@, json::members_view(raw@)) == Some(v@),
            None => reading_of(ent@, json::members_view(raw@)) is None,
        },
{
    let by_key: Option<&Json> = match &ent.attribute_key {
        Some(k) => get_member(raw, k.as_str()),
        None => None,
    };
    if str_eq(ent.domain.as_str(), "sensor") {
        match by_key {
            Some(j) => match j {
                Json::Str(s) => Some(ReadingValue::Text(s.clone())),
                Json::PosInt(_) | Json::NegInt(_) | Json::Float(_) => Some(
                    ReadingValue::Number(copy_json(j)),
                ),
                _ => None,
            },
            None => None,
        }
    } else if str_eq(ent.domain.as_str(), "binary_sensor") {
        match by_key {
            Some(j) => match j {
                Json::Str(s) => {
                    let lower: String = to_lowercase(s.as_str());
                    if str_eq(lower.as_str(), "on") || str_eq(lower.as_str(), "true") {
                        Some(ReadingValue::On)
                    } else if str_eq(lower.as_str(), "off") || str_eq(lower.as_str(), "false") {
                        Some(ReadingValue::Off)
                    } else {
                        None
                    }
                },
                Json::Bool(b) => if *b {
                    Some(ReadingValue::On)
                } else {
                    Some(ReadingValue::Off)
                },
                _ => None,
            },
            None => None,
        }
    } else if str_eq(ent.domain.as_str(), "light") || str_eq(ent.domain.as_str(), "switch") {
        match get_member(raw, "state") {
            Some(j) => match j {
                Json::Str(s) => {
                    let lower: String = to_lowercase(s.as_str());
                    if str_eq(lower.as_str(), "on") {
                        Some(ReadingValue::On)
                    } else if str_eq(lower.as_str(), "off") {
                        Some(ReadingValue::Off)
                    } else {
                        None
                    }
                },
                _ => None,
            },
            None => None,
        }
    } else {
        None
    }
}

/// The readings that a report gives some entities, for their history.
pub fn sensor_readings(
    raw_state: &Vec<(String, Json)>,
    entities: &Vec<ZigbeeEntityRecord>,
) -> (r: Vec<Reading>)
    ensures
        readings_model(r@) == readings_of(models(entities@), json::members_view(raw_state@)),
{
    let ghost ents = models(entities@);
    let ghost raw = json::members_view(raw_state@);
    let mut out: Vec<Reading> = Vec::new();
    let mut i: usize = 0;
    assert(readings_model(out@) =~= Seq::empty());
    assert(ents.take(0) =~= Seq::empty());
    while i < entities.len()
        invariant
            i <= entities@.len(),
            ents == models(entities@),
            raw == json::members_view(raw_state@),
            readings_model(out@) == readings_of(ents.take(i as int), raw),
        decreases entities@.len() - i,
    {
        let ent: &ZigbeeEntityRecord = &entities[i];
        proof {
            assert(ents.take(i + 1).drop_last() =~= ents.take(i as int));
            assert(ents.take(i + 1).last() == ent@);
        }
        if let Some(value) = read_one(ent, raw_state) {
            let ghost before = out@;
            let ghost v = value@;
            let reading: Reading = Reading { entity_id: ent.entity_id.clone(), value };
            out.push(reading);
            assert(readings_model(out@) =~= readings_model(before).push((ent@.entity_id, v)));
        }
        i += 1;
    }
    assert(ents.take(i as int) =~= ents);
    out
}

/// The last value of an entity in its history.
pub struct LatestValue {
    pub entity_id: String,
    /// The value as a state shows it.
    pub text: String,
    /// Whether the value stands for something that is on.
    pub on: bool,
}

impl Keyed for LatestValue {
    open spec fn key(&self) -> Seq<char> {
        self.entity_id@
    }

    fn key_str(&self) -> (r: &str) {
        self.entity_id.as_str()
    }
}

impl Record for LatestValue {
    fn dup(&self) -> (r: Self) {
        LatestValue {
            entity_id: self.entity_id.clone(),
            text: self.text.clone(),
            on: self.on,
        }
    }
}

/// The state that is restored for an entity from its last value.
pub open spec fn restored_state(
    ent: ZigbeeEntityModel,
    latest: LatestValue,
    ts: Seq<char>,
    context_id: Seq<char>,
) -> Option<StateView> {
    let restored = |attrs: Members|
        json::with_member(
            json::with_member(attrs, "restored"@, JsonView::Bool(true)),
            "friendly_name"@,
            JsonView::Str(ent.shown_name()),
        );
    if ent.domain == "sensor"@ {
        let base = with_text(
            with_text(json::no_members(), "unit_of_measurement"@, ent.unit_of_measurement),
            "device_class"@,
            ent.device_class,
        );
        Some(
            state_store::state_at(
                ent.entity_id,
                latest.text@,
                restored(
                    json::with_member(
                        base,
                        "state_class"@,
                        JsonView::Str(state_class_of(ent.device_class)),
                    ),
                ),
                plain_context(context_id),
                ts,
            ),
        )
    } else if ent.domain == "light"@ || ent.domain == "switch"@ {
        Some(
            state_store::state_at(
                ent.entity_id,
                if latest.on {
                    "on"@
                } else {
                    "off"@
                },
                restored(json::no_members()),
                plain_context(context_id),
                ts,
            ),
        )
    } else {
        None
    }
}

/// The state that is restored for an entity, if its history has a value and it keeps one. A disabled
/// entity has none.
pub open spec fn restorable(
    ent: ZigbeeEntityModel,
    latest: Seq<LatestValue>,
    ts: Seq<char>,
    context_id: Seq<char>,
) -> Option<StateView> {
    match keyed::key_get(latest, ent.entity_id) {
        Some(l) => if ent.disabled {
            None
        } else {
            restored_state(ent, l, ts, context_id)
        },
        None => None,
    }
}

/// States after those of some entities have been restored, and how many have been.
pub open spec fn restored(
    run: StateRun,
    ents: Seq<ZigbeeEntityModel>,
    latest: Seq<LatestValue>,
    ts: Seq<char>,
    context_ids: Seq<Seq<char>>,
) -> (StateRun, nat)
    decreases ents.len(),
{
    if ents.len() == 0 {
        (run, 0)
    } else {
        let n = (ents.len() - 1) as int;
        let before = restored(run, ents.take(n), latest, ts, context_ids);
        match restorable(ents[n], latest, ts, context_ids[n]) {
            Some(s) => (
                before.0.offer(s),
                if state_store::storable(s) {
                    before.1 + 1
                } else {
                    before.1
                },
            ),
            None => before,
        }
    }
}

proof fn lemma_restored_ids(
    run: StateRun,
    ents: Seq<ZigbeeEntityModel>,
    latest: Seq<LatestValue>,
    ts: Seq<char>,
    c1: Seq<Seq<char>>,
    c2: Seq<Seq<char>>,
)
    requires
        forall|i: int| 0 <= i < ents.len() ==> #[trigger] c1[i] == c2[i],
    ensures
        restored(run, ents, latest, ts, c1) == restored(run, ents, latest, ts, c2),
        restored(run, ents, latest, ts, c1).1 <= ents.len(),
    decreases ents.len(),
{
    if ents.len() > 0 {
        let n = (ents.len() - 1) as int;
        lemma_restored_ids(run, ents.take(n), latest, ts, c1, c2);
        assert(c1[n] == c2[n]);
    }
}

/// The state that is restored for an entity from its last value.
fn restore_one(
    ent: &ZigbeeEntityRecord,
    latest: &LatestValue,
    ts: &String,
    context: Context,
) -> (r: Option<State>)
    requires
        context@ == plain_context(context.id@),
    ensures
        match r {
            Some(s) => restored_state(ent@, *latest, ts@, context.id@) == Some(s@),
            None => restored_state(ent@, *latest, ts@, context.id@) is None,
        },
{
    let mut attrs: Vec<(String, Json)> = Vec::new();
    let value: String;
    if str_eq(ent.domain.as_str(), "sensor") {
        put_text(&mut attrs, "unit_of_measurement", &ent.unit_of_measurement);
        put_text(&mut attrs, "device_class", &ent.device_class);
        put_member(&mut attrs, "state_class", Json::str(state_class(&ent.device_class)));
        value = latest.text.clone();
    } else if str_eq(ent.domain.as_str(), "light") || str_eq(ent.domain.as_str(), "switch") {
        value = if latest.on {
            "on".to_owned()
        } else {
            "off".to_owned()
        };
    } else {
        return None;
    }
    put_member(&mut attrs, "restored", Json::Bool(true));
    put_member(&mut attrs, "friendly_name", Json::Str(ent.display_name()));
    Some(
        State {
            entity_id: ent.entity_id.clone(),
            state: value,
            attributes: attrs,
            last_changed: ts.clone(),
            last_updated: ts.clone(),
            last_reported: ts.clone(),
            context,
        },
    )
}

/// Restores the states of entities from the last values of their history. Returns how many.
pub fn restore_states_from_history(
    entities: &Vec<ZigbeeEntityRecord>,
    latest: &Vec<LatestValue>,
    states: &mut StateStore,
    events: &mut Vec<StateEvent>,
) -> (r: usize)
    ensures
        exists|ts: Seq<char>, context_ids: Seq<Seq<char>>|
            {
                &&& state_store::is_timestamp(ts)
                &&& context_ids.len() == entities@.len()
                &&& forall|i: int|
                    0 <= i < context_ids.len() ==> ids::is_hyphenated(#[trigger] context_ids[i])
                &&& (state_store::run_of(*final(states), final(events)@), r as nat) == #[trigger] restored(
                    state_store::run_of(*old(states), old(events)@),
                    models(entities@),
                    latest@,
                    ts,
                    context_ids,
                )
            },
        old(states).wf() ==> final(states).wf(),
{
    let ghost run0 = state_store::run_of(*states, events@);
    let ghost ents = models(entities@);
    let ghost mut context_ids: Seq<Seq<char>> = Seq::empty();
    let ts: String = now_iso8601();
    let mut count: usize = 0;
    let mut i: usize = 0;
    assert(ents.take(0) =~= Seq::empty());
    while i < entities.len()
        invariant
            i <= entities@.len(),
            count <= i,
            ents == models(entities@),
            run0 == state_store::run_of(*old(states), old(events)@),
            context_ids.len() == i,
            forall|k: int|
                0 <= k < context_ids.len() ==> ids::is_hyphenated(#[trigger] context_ids[k]),
            (state_store::run_of(*states, events@), count as nat) == restored(
                run0,
                ents.take(i as int),
                latest@,
                ts@,
                context_ids,
            ),
            old(states).wf() ==> states.wf(),
        decreases entities@.len() - i,
    {
        let ent: &ZigbeeEntityRecord = &entities[i];
        let context: Context = new_ctx();
        let ghost before = context_ids;
        proof {
            context_ids = context_ids.push(context.id@);
            assert forall|k: int| 0 <= k < i implies #[trigger] before[k] == context_ids[k] by {}
            lemma_restored_ids(run0, ents.take(i as int), latest@, ts@, before, context_ids);
            assert(ents.take(i + 1).take(i as int) =~= ents.take(i as int));
            assert(ents.take(i + 1)[i as int] == ent@);
        }
        if let Some(last) = lookup(latest, ent.entity_id.as_str()) {
            if !ent.disabled {
                if let Some(state) = restore_one(ent, &last, &ts, context) {
                    if states.offer(state, events) {
                        count += 1;
                    }
                }
            }
        }
        i += 1;
    }
    assert(ents.take(i as int) =~= ents);
    count
}

/// What the Zigbee bridge tells.
pub enum ZigbeeEvent {
    DeviceJoined { ieee_addr: String },
    DeviceLeft { ieee_addr: String },
    DeviceInterviewComplete { info: DeviceInfo },
    StateChanged { ieee_addr: String, delta: Vec<(String, Json)> },
    /// Anything else.
    Other,
}

/// What is left to do after an event: state changes to announce and readings to record.
pub struct EventOutcome {
    pub events: Vec<StateEvent>,
    pub history: Vec<Reading>,
}

/// What is known of a device that has just joined.
pub open spec fn joined_record(ieee: String) -> ZigbeeDeviceRecord {
    ZigbeeDeviceRecord {
        ieee_addr: ieee,
        friendly_name: ieee,
        manufacturer: None,
        model: None,
        power_source: None,
        sw_build_id: None,
        interview_complete: false,
        last_seen: None,
        name_by_user: None,
        user_area_id: None,
    }
}

/// What is known of a device that has told of itself.
pub open spec fn interviewed_record(info: DeviceInfo) -> ZigbeeDeviceRecord {
    ZigbeeDeviceRecord {
        ieee_addr: info.ieee_addr,
        friendly_name: info.friendly_name,
        manufacturer: info.manufacturer,
        model: info.model,
        power_source: info.power_source,
        sw_build_id: info.sw_build_id,
        interview_complete: true,
        last_seen: None,
        name_by_user: None,
        user_area_id: None,
    }
}

/// The entities of a device.
pub open spec fn entities_at(
    s: Seq<ZigbeeEntityRecord>,
    ieee: Seq<char>,
) -> Seq<ZigbeeEntityRecord> {
    s.filter(|e: ZigbeeEntityRecord| e.ieee_addr@ == ieee)
}

/// The state of an entity whose device has left.
pub open spec fn gone_state(entity_id: Seq<char>, stamp: Stamp) -> StateView {
    state_store::state_at(
        entity_id,
        "unavailable"@,
        json::no_members(),
        plain_context(stamp.1),
        stamp.0,
    )
}

/// States after the device of some entities has left. A disabled entity stays as it was.
pub open spec fn gone(
    run: StateRun,
    ents: Seq<ZigbeeEntityModel>,
    stamps: Seq<Stamp>,
) -> StateRun
    decreases ents.len(),
{
    if ents.len() == 0 {
        run
    } else {
        let n = (ents.len() - 1) as int;
        let before = gone(run, ents.take(n), stamps);
        if ents[n].disabled {
            before
        } else {
            before.offer(gone_state(ents[n].entity_id, stamps[n]))
        }
    }
}

proof fn lemma_gone_stamps(
    run: StateRun,
    ents: Seq<ZigbeeEntityModel>,
    s1: Seq<Stamp>,
    s2: Seq<Stamp>,
)
    requires
        forall|i: int| 0 <= i < ents.len() ==> #[trigger] s1[i] == s2[i],
    ensures
        gone(run, ents, s1) == gone(run, ents, s2),
    decreases ents.len(),
{
    if ents.len() > 0 {
        let n = (ents.len() - 1) as int;
        lemma_gone_stamps(run, ents.take(n), s1, s2);
        assert(s1[n] == s2[n]);
    }
}

/// Whether states come from others when the device of some entities leaves, at whatever times.
pub open spec fn gone_to(run0: StateRun, run1: StateRun, ents: Seq<ZigbeeEntityModel>) -> bool {
    exists|stamps: Seq<Stamp>|
        {
            &&& stamps.len() == ents.len()
            &&& forall|i: int| 0 <= i < stamps.len() ==> is_stamp(#[trigger] stamps[i])
            &&& run1 == #[trigger] gone(run0, ents, stamps)
        }
}

/// Makes the entities of a device that has left unavailable, but for those that are disabled.
fn device_left(
    entities: &Vec<ZigbeeEntityRecord>,
    states: &mut StateStore,
    events: &mut Vec<StateEvent>,
)
    ensures
        gone_to(
            state_store::run_of(*old(states), old(events)@),
            state_store::run_of(*final(states), final(events)@),
            models(entities@),
        ),
        old(states).wf() ==> final(states).wf(),
{
    let ghost run0 = state_store::run_of(*states, events@);
    let ghost ents = models(entities@);
    let ghost mut stamps: Seq<Stamp> = Seq::empty();
    let mut i: usize = 0;
    assert(ents.take(0) =~= Seq::empty());
    while i < entities.len()
        invariant
            i <= entities@.len(),
            ents == models(entities@),
            run0 == state_store::run_of(*old(states), old(events)@),
            stamps.len() == i,
            forall|k: int| 0 <= k < stamps.len() ==> is_stamp(#[trigger] stamps[k]),
            state_store::run_of(*states, events@) == gone(run0, ents.take(i as int), stamps),
            old(states).wf() ==> states.wf(),
        decreases entities@.len() - i,
    {
        let ts: String = now_iso8601();
        let context: Context = new_ctx();
        let ghost before = stamps;
        proof {
            stamps = stamps.push((ts@, context.id@));
            assert forall|k: int| 0 <= k < i implies #[trigger] before[k] == stamps[k] by {}
            lemma_gone_stamps(run0, ents.take(i as int), before, stamps);
            assert(ents.take(i + 1).take(i as int) =~= ents.take(i as int));
            assert(ents.take(i + 1)[i as int] == entities@[i as int]@);
        }
        if !entities[i].disabled {
            let state: State = State {
                entity_id: entities[i].entity_id.clone(),
                state: "unavailable".to_owned(),
                attributes: Vec::new(),
                last_changed: ts.clone(),
                last_reported: ts.clone(),
                last_updated: ts,
                context,
            };
            assert(state@ == gone_state(ents[i as int].entity_id, stamps[i as int]));
            let _ = states.offer(state, events);
        }
        i += 1;
    }
    assert(ents.take(i as int) =~= ents);
}

/// The state of a disabled entity is not published: neither its history nor the leaving of its
/// device changes it.
pub proof fn law_disabled_unchanged(
    run: StateRun,
    ents: Seq<ZigbeeEntityModel>,
    latest: Seq<LatestValue>,
    ts: Seq<char>,
    context_ids: Seq<Seq<char>>,
    stamps: Seq<Stamp>,
    id: Seq<char>,
)
    requires
        forall|i: int|
            0 <= i < ents.len() && (#[trigger] ents[i]).entity_id == id ==> ents[i].disabled,
    ensures
        state_store::state_in(restored(run, ents, latest, ts, context_ids).0.states, id)
            == state_store::state_in(run.states, id),
        state_store::state_in(gone(run, ents, stamps).states, id) == state_store::state_in(
            run.states,
            id,
        ),
    decreases ents.len(),
{
    if ents.len() > 0 {
        let n = (ents.len() - 1) as int;
        let front = ents.take(n);
        assert forall|i: int|
            0 <= i < front.len() && (#[trigger] front[i]).entity_id == id implies front[i].disabled by {
            assert(front[i] == ents[i]);
        }
        law_disabled_unchanged(run, front, latest, ts, context_ids, stamps, id);
        let e = ents[n];
        assert(e.entity_id == id ==> e.disabled);
    }
}

/// The states that reports, histories and leaving devices make have points in time.
pub proof fn law_zigbee_timed(
    run: StateRun,
    ents: Seq<ZigbeeEntityModel>,
    raw: Members,
    readings: ColorReadings,
    latest: Seq<LatestValue>,
    ts: Seq<char>,
    context_ids: Seq<Seq<char>>,
    stamps: Seq<Stamp>,
)
    requires
        state_store::all_timed(run),
        state_store::is_timestamp(ts),
        stamps.len() >= ents.len(),
        forall|i: int| 0 <= i < stamps.len() ==> is_stamp(#[trigger] stamps[i]),
    ensures
        state_store::all_timed(pushed(run, ents, raw, readings, stamps)),
        state_store::all_timed(restored(run, ents, latest, ts, context_ids).0),
        state_store::all_timed(gone(run, ents, stamps)),
        state_store::all_timed(unavailable_all(run, ents, ts)),
    decreases ents.len(),
{
    if ents.len() > 0 {
        let n = (ents.len() - 1) as int;
        let front = ents.take(n);
        let e = ents[n];
        law_zigbee_timed(run, front, raw, readings, latest, ts, context_ids, stamps);
        assert(is_stamp(stamps[n]));
        if let Some(v) = published_value(e, raw) {
            state_store::lemma_offer_timed(
                pushed(run, front, raw, readings, stamps),
                state_store::state_at(
                    e.entity_id,
                    v,
                    reported_attributes(e, raw, readings),
                    plain_context(stamps[n].1),
                    stamps[n].0,
                ),
            );
        }
        if let Some(s) = restorable(e, latest, ts, context_ids[n]) {
            state_store::lemma_offer_timed(restored(run, front, latest, ts, context_ids).0, s);
        }
        state_store::lemma_offer_timed(gone(run, front, stamps), gone_state(e.entity_id, stamps[n]));
        assert(ents.drop_last() =~= front);
        let before = unavailable_all(run, front, ts);
        if let Some(s) = state_store::state_in(before.states, e.entity_id) {
            state_store::lemma_offer_timed(before, made_unavailable(s, ts));
        }
    }
}

/// The logbook after the changes of some entities have been noted: one entry for each that had a
/// state before, and has another value now.
pub open spec fn log_changes(
    log: Seq<logbook_store::LogModel>,
    capacity: usize,
    ids: Seq<Seq<char>>,
    before: Map<Seq<char>, StateView>,
    after: Map<Seq<char>, StateView>,
    ts: u64,
) -> Seq<logbook_store::LogModel>
    decreases ids.len(),
{
    if ids.len() == 0 {
        log
    } else {
        let rest = log_changes(log, capacity, ids.drop_last(), before, after, ts);
        let id = ids.last();
        if before.contains_key(id) && after.contains_key(id) && after[id].state
            != before[id].state {
            logbook_store::logged(
                rest,
                capacity,
                logbook_store::LogModel {
                    ts,
                    entity_id: id,
                    display_name: match entity_view::str_attr(
                        after[id].attributes,
                        "friendly_name"@,
                    ) {
                        Some(n) => n,
                        None => id,
                    },
                    old_state: before[id].state,
                    new_state: after[id].state,
                },
            )
        } else {
            rest
        }
    }
}

/// The ids of entities.
pub open spec fn ids_of(s: Seq<ZigbeeEntityRecord>) -> Seq<Seq<char>> {
    s.map_values(|e: ZigbeeEntityRecord| e.entity_id@)
}

/// The values of the states of entities; nothing where there is no state.
fn old_values(entities: &Vec<ZigbeeEntityRecord>, states: &StateStore) -> (r: Vec<Option<String>>)
    ensures
        r@.len() == entities@.len(),
        forall|i: int|
            0 <= i < r@.len() ==> (#[trigger] r@[i]).deep_view() == match state_store::state_in(
                states@,
                entities@[i].entity_id@,
            ) {
                Some(s) => Some(s.state),
                None => None,
            },
{
    let mut out: Vec<Option<String>> = Vec::new();
    let mut i: usize = 0;
    while i < entities.len()
        invariant
            i <= entities@.len(),
            out@.len() == i,
            forall|k: int|
                0 <= k < i ==> (#[trigger] out@[k]).deep_view() == match state_store::state_in(
                    states@,
                    entities@[k].entity_id@,
                ) {
                    Some(s) => Some(s.state),
                    None => None,
                },
        decreases entities@.len() - i,
    {
        let value: Option<String> = match states.get(entities[i].entity_id.as_str()) {
            Some(s) => Some(s.state),
            None => None,
        };
        out.push(value);
        i += 1;
    }
    out
}

/// Notes the changes of entities in the logbook.
fn note_changes(
    entities: &Vec<ZigbeeEntityRecord>,
    prior: &Vec<Option<String>>,
    Ghost(before): Ghost<Map<Seq<char>, StateView>>,
    states: &StateStore,
    logbook: &mut LogbookStore,
    ts: u64,
)
    requires
        prior@.len() == entities@.len(),
        forall|i: int|
            0 <= i < prior@.len() ==> (#[trigger] prior@[i]).deep_view() == match state_store::state_in(
                before,
                entities@[i].entity_id@,
            ) {
                Some(s) => Some(s.state),
                None => None,
            },
    ensures
        final(logbook).capacity == old(logbook).capacity,
        logbook_store::log_models(final(logbook).entries@) == log_changes(
            logbook_store::log_models(old(logbook).entries@),
            old(logbook).capacity,
            ids_of(entities@),
            before,
            states@,
            ts,
        ),
        old(logbook).wf() ==> final(logbook).wf(),
{
    let ghost ids = ids_of(entities@);
    let ghost log0 = logbook_store::log_models(logbook.entries@);
    let mut i: usize = 0;
    assert(ids.take(0) =~= Seq::empty());
    while i < entities.len()
        invariant
            i <= entities@.len(),
            ids == ids_of(entities@),
            log0 == logbook_store::log_models(old(logbook).entries@),
            logbook.capacity == old(logbook).capacity,
            old(logbook).wf() ==> logbook.wf(),
            prior@.len() == entities@.len(),
            forall|k: int|
                0 <= k < prior@.len() ==> (#[trigger] prior@[k]).deep_view()
                    == match state_store::state_in(before, entities@[k].entity_id@) {
                    Some(s) => Some(s.state),
                    None => None,
                },
            logbook_store::log_models(logbook.entries@) == log_changes(
                log0,
                logbook.capacity,
                ids.take(i as int),
                before,
                states@,
                ts,
            ),
        decreases entities@.len() - i,
    {
        let entity_id: &String = &entities[i].entity_id;
        proof {
            assert(ids.take(i + 1).drop_last() =~= ids.take(i as int));
            assert(ids.take(i + 1).last() == entity_id@);
            assert(prior@[i as int].deep_view() == match state_store::state_in(before, entity_id@) {
                Some(s) => Some(s.state),
                None => None,
            });
        }
        if let Some(old_value) = &prior[i] {
            if let Some(new_state) = states.get(entity_id.as_str()) {
                if !str_eq(new_state.state.as_str(), old_value.as_str()) {
                    let display_name: String = match get_text(
                        &new_state.attributes,
                        "friendly_name",
                    ) {
                        Some(n) => n,
                        None => entity_id.clone(),
                    };
                    logbook.record(
                        LogbookEntry {
                            ts,
                            entity_id: entity_id.clone(),
                            display_name,
                            old_state: old_value.clone(),
                            new_state: new_state.state,
                        },
                    );
                }
            }
        }
        i += 1;
    }
    assert(ids.take(i as int) =~= ids);
}

/// A device that was heard of at a given time.
pub open spec fn heard_of(d: ZigbeeDeviceRecord, ts: String) -> ZigbeeDeviceRecord {
    ZigbeeDeviceRecord { last_seen: Some(ts), ..d }
}

/// Whether an entity is disabled, in a store.
pub open spec fn disabled_in(s: Seq<ZigbeeEntityRecord>, entity_id: Seq<char>) -> bool {
    keyed::key_get(s, entity_id) matches Some(e) && e.disabled
}

/// Entities, disabled where the stored ones are.
pub open spec fn as_stored(
    ents: Seq<ZigbeeEntityModel>,
    stored: Seq<ZigbeeEntityRecord>,
) -> Seq<ZigbeeEntityModel> {
    Seq::new(
        ents.len(),
        |i: int|
            ZigbeeEntityModel { disabled: disabled_in(stored, ents[i].entity_id), ..ents[i] },
    )
}

/// Entities, disabled where the stored ones are.
fn records_as_stored(
    records: &Vec<ZigbeeEntityRecord>,
    stored: &ZigbeeEntityStore,
) -> (r: Vec<ZigbeeEntityRecord>)
    ensures
        models(r@) == as_stored(models(records@), stored.entities@),
{
    let ghost want = as_stored(models(records@), stored.entities@);
    let mut out: Vec<ZigbeeEntityRecord> = Vec::new();
    let mut i: usize = 0;
    while i < records.len()
        invariant
            i <= records@.len(),
            want == as_stored(models(records@), stored.entities@),
            models(out@) == want.take(i as int),
        decreases records@.len() - i,
    {
        let ghost before = out@;
        let mut e: ZigbeeEntityRecord = records[i].clone();
        e.disabled = match stored.get(e.entity_id.as_str()) {
            Some(found) => found.disabled,
            None => false,
        };
        let ghost model = e@;
        out.push(e);
        i += 1;
        assert(models(out@) =~= models(before).push(model));
        assert(models(records@)[i - 1] == records@[i - 1]@);
        assert(want[i - 1] == model);
        assert(models(out@) =~= want.take(i as int));
    }
    assert(want.take(i as int) =~= want);
    out
}

/// What an event returns and does to the stores.
pub open spec fn event_result(
    event: ZigbeeEvent,
    readings: ColorReadings,
    devices0: Seq<ZigbeeDeviceRecord>,
    devices1: Seq<ZigbeeDeviceRecord>,
    entities0: Seq<ZigbeeEntityRecord>,
    entities1: Seq<ZigbeeEntityRecord>,
    states0: Map<Seq<char>, StateView>,
    run1: StateRun,
    logbook0: Seq<logbook_store::LogModel>,
    logbook1: Seq<logbook_store::LogModel>,
    capacity: usize,
    history: Seq<(Seq<char>, ReadingModel)>,
) -> bool {
    let run0 = StateRun { states: states0, events: Seq::empty() };
    match event {
        ZigbeeEvent::DeviceJoined { ieee_addr } => {
            &&& devices1 == zigbee_device_store::reported(devices0, joined_record(ieee_addr))
            &&& entities1 == entities0
            &&& run1 == run0
            &&& logbook1 == logbook0
            &&& history.len() == 0
        },
        ZigbeeEvent::DeviceLeft { ieee_addr } => {
            &&& devices1 == devices0
            &&& entities1 == entities0
            &&& gone_to(run0, run1, models(entities_at(entities0, ieee_addr@)))
            &&& logbook1 == logbook0
            &&& history.len() == 0
        },
        ZigbeeEvent::DeviceInterviewComplete { info } => {
            let raw = json::members_view(info.initial_state@);
            let found = device_entities(
                id_base(text::lowercased(info.friendly_name@)),
                info.ieee_addr@,
                info.endpoints@,
                raw,
            );
            &&& devices1 == zigbee_device_store::reported(devices0, interviewed_record(info))
            &&& exists|records: Seq<ZigbeeEntityRecord>|
                models(records) == found && entities1 == #[trigger] zigbee_entity_store::registered(
                    entities0,
                    records,
                )
            &&& pushed_to(run0, run1, as_stored(found, entities1), raw, readings)
            &&& logbook1 == logbook0
            &&& history == readings_of(found, raw)
        },
        ZigbeeEvent::StateChanged { ieee_addr, delta } => {
            let raw = json::members_view(delta@);
            let ents = entities_at(entities0, ieee_addr@);
            &&& match keyed::key_pos(devices0, ieee_addr@) {
                Some(i) => exists|ts: String|
                    state_store::is_timestamp(ts@) && devices1 == devices0.update(
                        i,
                        #[trigger] heard_of(devices0[i], ts),
                    ),
                None => devices1 == devices0,
            }
            &&& entities1 == entities0
            &&& pushed_to(run0, run1, models(ents), raw, readings)
            &&& exists|ts: u64|
                logbook1 == #[trigger] log_changes(
                    logbook0,
                    capacity,
                    ids_of(ents),
                    states0,
                    run1.states,
                    ts,
                )
            &&& history == readings_of(models(ents), raw)
        },
        ZigbeeEvent::Other => {
            &&& devices1 == devices0
            &&& entities1 == entities0
            &&& run1 == run0
            &&& logbook1 == logbook0
            &&& history.len() == 0
        },
    }
}

/// Takes an event of the bridge into the stores.
pub fn handle_event(
    event: ZigbeeEvent,
    readings: &ColorReadings,
    devices: &mut ZigbeeDeviceStore,
    entities: &mut ZigbeeEntityStore,
    states: &mut StateStore,
    logbook: &mut LogbookStore,
) -> (r: EventOutcome)
    ensures
        event_result(
            event,
            *readings,
            old(devices).devices@,
            final(devices).devices@,
            old(entities).entities@,
            final(entities).entities@,
            old(states)@,
            state_store::run_of(*final(states), r.events@),
            logbook_store::log_models(old(logbook).entries@),
            logbook_store::log_models(final(logbook).entries@),
            old(logbook).capacity,
            readings_model(r.history@),
        ),
        final(logbook).capacity == old(logbook).capacity,
        old(devices).wf() ==> final(devices).wf(),
        old(entities).wf() ==> final(entities).wf(),
        old(states).wf() ==> final(states).wf(),
        old(logbook).wf() ==> final(logbook).wf(),
{
    let mut events: Vec<StateEvent> = Vec::new();
    let mut history: Vec<Reading> = Vec::new();
    assert(state_store::events_model(events@) =~= Seq::empty());
    assert(readings_model(history@) =~= Seq::empty());
    match event {
        ZigbeeEvent::DeviceJoined { ieee_addr } => {
            let record: ZigbeeDeviceRecord = ZigbeeDeviceRecord {
                ieee_addr: ieee_addr.clone(),
                friendly_name: ieee_addr,
                manufacturer: None,
                model: None,
                power_source: None,
                sw_build_id: None,
                interview_complete: false,
                last_seen: None,
                name_by_user: None,
                user_area_id: None,
            };
            devices.upsert(record);
        },
        ZigbeeEvent::DeviceLeft { ieee_addr } => {
            let ents: Vec<ZigbeeEntityRecord> = entities.list_for_device(ieee_addr.as_str());
            assert(ents@ == entities_at(entities.entities@, ieee_addr@));
            device_left(&ents, states, &mut events);
        },
        ZigbeeEvent::DeviceInterviewComplete { info } => {
            let record: ZigbeeDeviceRecord = ZigbeeDeviceRecord {
                ieee_addr: info.ieee_addr.clone(),
                friendly_name: info.friendly_name.clone(),
                manufacturer: info.manufacturer.clone(),
                model: info.model.clone(),
                power_source: info.power_source.clone(),
                sw_build_id: info.sw_build_id.clone(),
                interview_complete: true,
                last_seen: None,
                name_by_user: None,
                user_area_id: None,
            };
            devices.upsert(record);
            let records: Vec<ZigbeeEntityRecord> = entities_for_device(&info);
            let copies: Vec<ZigbeeEntityRecord> = keyed::copy_all(&records);
            entities.register_bulk(copies);
            let shown: Vec<ZigbeeEntityRecord> = records_as_stored(&records, entities);
            push_state(&info.initial_state, &shown, readings, states, &mut events);
            history = sensor_readings(&info.initial_state, &records);
        },
        ZigbeeEvent::StateChanged { ieee_addr, delta } => {
            let ents: Vec<ZigbeeEntityRecord> = entities.list_for_device(ieee_addr.as_str());
            assert(ents@ == entities_at(entities.entities@, ieee_addr@));
            let ghost before = states@;
            let prior: Vec<Option<String>> = old_values(&ents, states);
            push_state(&delta, &ents, readings, states, &mut events);
            history = sensor_readings(&delta, &ents);
            let ts: u64 = now_unix_secs();
            let ghost log0 = logbook_store::log_models(logbook.entries@);
            note_changes(&ents, &prior, Ghost(before), states, logbook, ts);
            assert(logbook_store::log_models(logbook.entries@) == log_changes(
                log0,
                logbook.capacity,
                ids_of(entities_at(entities.entities@, ieee_addr@)),
                before,
                state_store::run_of(*states, events@).states,
                ts,
            ));
            let seen_at: String = now_iso8601();
            let ghost devices0 = devices.devices@;
            let _ = devices.touch_last_seen(ieee_addr.as_str(), seen_at);
            proof {
                if keyed::key_pos(devices0, ieee_addr@) is Some {
                    let k = keyed::key_pos(devices0, ieee_addr@)->0;
                    assert(devices.devices@ == devices0.update(k, heard_of(devices0[k], seen_at)));
                }
            }
        },
        ZigbeeEvent::Other => {},
    }
    EventOutcome { events, history }
}

/// An unavailable copy of a state.
pub open spec fn made_unavailable(s: StateView, ts: Seq<char>) -> StateView {
    StateView { state: "unavailable"@, last_updated: ts, ..s }
}

/// States after those of some entities have been made unavailable.
pub open spec fn unavailable_all(
    run: StateRun,
    ents: Seq<ZigbeeEntityModel>,
    ts: Seq<char>,
) -> StateRun
    decreases ents.len(),
{
    if ents.len() == 0 {
        run
    } else {
        let before = unavailable_all(run, ents.drop_last(), ts);
        match state_store::state_in(before.states, ents.last().entity_id) {
            Some(s) => before.offer(made_unavailable(s, ts)),
            None => before,
        }
    }
}

/// Makes the states of entities unavailable, at a given time, when the coordinator is gone.
pub fn mark_unavailable(
    entities: &Vec<ZigbeeEntityRecord>,
    ts: &String,
    states: &mut StateStore,
    events: &mut Vec<StateEvent>,
)
    ensures
        state_store::run_of(*final(states), final(events)@) == unavailable_all(
            state_store::run_of(*old(states), old(events)@),
            models(entities@),
            ts@,
        ),
        old(states).wf() ==> final(states).wf(),
{
    let ghost run0 = state_store::run_of(*states, events@);
    let ghost ents = models(entities@);
    let mut i: usize = 0;
    assert(ents.take(0) =~= Seq::empty());
    while i < entities.len()
        invariant
            i <= entities@.len(),
            ents == models(entities@),
            run0 == state_store::run_of(*old(states), old(events)@),
            state_store::run_of(*states, events@) == unavailable_all(run0, ents.take(i as int), ts@),
            old(states).wf() ==> states.wf(),
        decreases entities@.len() - i,
    {
        proof {
            assert(ents.take(i + 1).drop_last() =~= ents.take(i as int));
            assert(ents.take(i + 1).last() == entities@[i as int]@);
        }
        if let Some(found) = states.get(entities[i].entity_id.as_str()) {
            let mut state: State = found;
            state.state = "unavailable".to_owned();
            state.last_updated = ts.clone();
            let _ = states.offer(state, events);
        }
        i += 1;
    }
    assert(ents.take(i as int) =~= ents);
}

/// A command for the Zigbee bridge.
#[derive(Clone, Copy, Debug, PartialEq, Eq, Structural)]
pub enum BridgeCommand {
    PermitJoin { duration: u8 },
    Stop,
}

/// The control of the running bridge.
pub struct ZigbeeHandle {
    /// When joining ends to be permitted, in seconds since 1970-01-01; zero while it is not.
    pub permit_join_expires_at: u64,
    /// Why the bridge has stopped, if it has.
    pub bridge_error: Option<String>,
    pub serial_port: String,
}

impl ZigbeeHandle {
    /// Permits devices to join for some seconds; none ends it at once.
    pub fn permit_join(&mut self, duration: u8, now_secs: u64) -> (r: BridgeCommand)
        ensures
            r == (BridgeCommand::PermitJoin { duration }),
            final(self).permit_join_expires_at == if duration == 0 {
                0
            } else if now_secs + duration <= u64::MAX {
                now_secs + duration
            } else {
                u64::MAX as int
            },
            final(self).bridge_error == old(self).bridge_error,
            final(self).serial_port == old(self).serial_port,
    {
        self.permit_join_expires_at = if duration > 0 {
            now_secs.saturating_add(duration as u64)
        } else {
            0
        };
        BridgeCommand::PermitJoin { duration }
    }

    /// For how many more seconds devices may join.
    pub fn permit_join_remaining_secs(&self, now_secs: u64) -> (r: u8)
        ensures
            r == if now_secs >= self.permit_join_expires_at {
                0
            } else if self.permit_join_expires_at - now_secs <= 255 {
                self.permit_join_expires_at - now_secs
            } else {
                255
            },
    {
        let expires: u64 = self.permit_join_expires_at;
        if expires == 0 {
            return 0;
        }
        if now_secs >= expires {
            return 0;
        }
        let left: u64 = expires - now_secs;
        if left > 255 {
            255
        } else {
            left as u8
        }
    }

    /// Stops the bridge.
    pub fn stop(&mut self) -> (r: BridgeCommand)
        ensures
            r == BridgeCommand::Stop,
            final(self).permit_join_expires_at == 0,
            final(self).bridge_error == old(self).bridge_error,
            final(self).serial_port == old(self).serial_port,
    {
        self.permit_join_expires_at = 0;
        BridgeCommand::Stop
    }

    /// Why the bridge has stopped, if it has.
    pub fn bridge_error(&self) -> (r: Option<String>)
        ensures
            r == self.bridge_error,
    {
        self.bridge_error.clone()
    }
}

/// Right after joining is permitted, the whole duration is left; at its end, nothing is, and
/// stopping ends it at once.
pub proof fn law_permit_join(now: u64, duration: u8, later: u64)
    requires
        now + duration <= u64::MAX,
        now <= later,
    ensures
        ({
            let expires = if duration == 0 {
                0
            } else {
                now + duration
            };
            let left = if later >= expires {
                0
            } else if expires - later <= 255 {
                expires - later
            } else {
                255
            };
            &&& left == if later - now >= duration {
                0
            } else {
                duration - (later - now)
            }
        }),
{
}

/// What the bridge talks to the coordinator with.
#[derive(Clone, Copy, Debug, PartialEq, Eq, Structural)]
pub enum AdapterType {
    Znp,
    Ezsp,
    Auto,
}

/// How the Zigbee bridge is configured.
pub struct ZigbeeConfig {
    pub serial_port: String,
    pub baudrate: u32,
    pub adapter: String,
    pub rtscts: bool,
    pub permit_join_on_startup: bool,
    pub channel: u8,
    pub pan_id: Option<u16>,
}

/// What the bridge is started with: no broker, and no announcement of entities of its own.
pub struct BridgeConfig {
    pub port: String,
    pub baudrate: u32,
    pub adapter: AdapterType,
    pub rtscts: bool,
    pub mqtt_enabled: bool,
    pub permit_join: bool,
    pub homeassistant: bool,
    pub channel: u8,
    pub pan_id: u16,
}

/// The adapter that a lower-case name stands for.
pub open spec fn adapter_named(lower: Seq<char>) -> AdapterType {
    if lower == "znp"@ {
        AdapterType::Znp
    } else if lower == "ezsp"@ {
        AdapterType::Ezsp
    } else {
        AdapterType::Auto
    }
}

/// The adapter that a lower-case name stands for.
pub fn adapter_from_lowercase(lower: &str) -> (r: AdapterType)
    ensures
        r == adapter_named(lower@),
{
    if str_eq(lower, "znp") {
        AdapterType::Znp
    } else if str_eq(lower, "ezsp") {
        AdapterType::Ezsp
    } else {
        AdapterType::Auto
    }
}

/// What the bridge is started with.
pub fn bridge_config(cfg: &ZigbeeConfig) -> (r: BridgeConfig)
    ensures
        r == (BridgeConfig {
            port: cfg.serial_port,
            baudrate: cfg.baudrate,
            adapter: adapter_named(text::lowercased(cfg.adapter@)),
            rtscts: cfg.rtscts,
            mqtt_enabled: false,
            permit_join: cfg.permit_join_on_startup,
            homeassistant: false,
            channel: cfg.channel,
            pan_id: match cfg.pan_id {
                Some(id) => id,
                None => 0x1a62,
            },
        }),
{
    let lower: String = to_lowercase(cfg.adapter.as_str());
    BridgeConfig {
        port: cfg.serial_port.clone(),
        baudrate: cfg.baudrate,
        adapter: adapter_from_lowercase(lower.as_str()),
        rtscts: cfg.rtscts,
        mqtt_enabled: false,
        permit_join: cfg.permit_join_on_startup,
        homeassistant: false,
        channel: cfg.channel,
        pan_id: match cfg.pan_id {
            Some(id) => id,
            None => 0x1a62,
        },
    }
}

/// The control of a bridge that has just been started.
pub fn start_handle(cfg: &ZigbeeConfig) -> (r: ZigbeeHandle)
    ensures
        r == (ZigbeeHandle {
            permit_join_expires_at: 0,
            bridge_error: None,
            serial_port: cfg.serial_port,
        }),
{
    ZigbeeHandle {
        permit_join_expires_at: 0,
        bridge_error: None,
        serial_port: cfg.serial_port.clone(),
    }
}

/// The icon of a sensor of a given device class.
pub open spec fn sensor_icon(device_class: Option<Seq<char>>) -> Seq<char> {
    match device_class {
        Some(c) => if c == "temperature"@ {
            "thermometer"@
        } else if c == "humidity"@ {
            "water-percent"@
        } else if c == "illuminance"@ {
            "weather-sunny"@
        } else if c == "battery"@ {
            "battery"@
        } else if c == "voltage"@ || c == "energy"@ {
            "lightning-bolt"@
        } else if c == "power"@ {
            "flash"@
        } else if c == "current"@ {
            "current-ac"@
        } else {
            "gauge"@
        },
        None => "gauge"@,
    }
}

/// The icon of an entity with a given state value.
pub open spec fn icon_of(ent: ZigbeeEntityModel, value: Seq<char>) -> Seq<char> {
    if ent.domain == "light"@ {
        "lightbulb"@
    } else if ent.domain == "switch"@ {
        if value == "on"@ {
            "toggle-switch"@
        } else {
            "toggle-switch-off"@
        }
    } else if ent.domain == "sensor"@ {
        sensor_icon(ent.device_class)
    } else if ent.domain == "binary_sensor"@ {
        binary_icon(
            match ent.device_class {
                Some(c) => c,
                None => ""@,
            },
        )
    } else {
        "home"@
    }
}

/// The icon of a sensor of a given device class.
fn sensor_icon_name(device_class: &Option<String>) -> (r: &'static str)
    ensures
        r@ == sensor_icon(device_class.deep_view()),
{
    match device_class {
        Some(c) => {
            let c: &str = c.as_str();
            if str_eq(c, "temperature") {
                "thermometer"
            } else if str_eq(c, "humidity") {
                "water-percent"
            } else if str_eq(c, "illuminance") {
                "weather-sunny"
            } else if str_eq(c, "battery") {
                "battery"
            } else if str_eq(c, "voltage") || str_eq(c, "energy") {
                "lightning-bolt"
            } else if str_eq(c, "power") {
                "flash"
            } else if str_eq(c, "current") {
                "current-ac"
            } else {
                "gauge"
            }
        },
        None => "gauge",
    }
}

/// The icon of an entity with a given state value.
fn icon_name(ent: &ZigbeeEntityRecord, value: &str) -> (r: &'static str)
    ensures
        r@ == icon_of(ent@, value@),
{
    let domain: &str = ent.domain.as_str();
    if str_eq(domain, "light") {
        "lightbulb"
    } else if str_eq(domain, "switch") {
        if str_eq(value, "on") {
            "toggle-switch"
        } else {
            "toggle-switch-off"
        }
    } else if str_eq(domain, "sensor") {
        sensor_icon_name(&ent.device_class)
    } else if str_eq(domain, "binary_sensor") {
        match &ent.device_class {
            Some(c) => binary_sensor_icon(c.as_str()),
            None => binary_sensor_icon(""),
        }
    } else {
        "home"
    }
}

/// Hue and saturation: an attribute that is an array of two numbers.
pub open spec fn hs_attr(attrs: Members) -> Option<(JsonView, JsonView)> {
    match json::member(attrs, "hs_color"@) {
        Some(JsonView::Array(a)) => if a.len() == 2 && entity_view::is_number(a[0])
            && entity_view::is_number(a[1]) {
            Some((a[0], a[1]))
        } else {
            None
        },
        _ => None,
    }
}

/// Red, green and blue: an attribute that is an array of three whole numbers, of which the lower
/// eight bits count.
pub open spec fn rgb_attr(attrs: Members) -> Option<(u8, u8, u8)> {
    match json::member(attrs, "rgb_color"@) {
        Some(JsonView::Array(a)) => if a.len() == 3 {
            match (a[0], a[1], a[2]) {
                (JsonView::PosInt(r), JsonView::PosInt(g), JsonView::PosInt(b)) => Some(
                    ((r % 256) as u8, (g % 256) as u8, (b % 256) as u8),
                ),
                _ => None,
            }
        } else {
            None
        },
        _ => None,
    }
}

/// A colour as `#rrggbb`.
pub open spec fn rgb_text(c: (u8, u8, u8)) -> Seq<char> {
    "#"@.push(json::lower_hex((c.0 / 16) as nat)).push(json::lower_hex((c.0 % 16) as nat)).push(
        json::lower_hex((c.1 / 16) as nat),
    ).push(json::lower_hex((c.1 % 16) as nat)).push(json::lower_hex((c.2 / 16) as nat)).push(
        json::lower_hex((c.2 % 16) as nat),
    )
}

/// Whether a JSON value is a number.
fn number(j: &Json) -> (r: bool)
    ensures
        r == entity_view::is_number(j@),
{
    match j {
        Json::PosInt(_) | Json::NegInt(_) | Json::Float(_) => true,
        _ => false,
    }
}

/// Hue and saturation.
fn get_hs(attrs: &Vec<(String, Json)>) -> (r: Option<(Json, Json)>)
    ensures
        match r {
            Some(p) => hs_attr(json::members_view(attrs@)) == Some((p.0@, p.1@)),
            None => hs_attr(json::members_view(attrs@)) is None,
        },
{
    match get_member(attrs, "hs_color") {
        Some(j) => match j {
            Json::Array(a) => {
                proof {
                    json::lemma_items_view(a@);
                }
                if a.len() == 2 && number(&a[0]) && number(&a[1]) {
                    Some((copy_json(&a[0]), copy_json(&a[1])))
                } else {
                    None
                }
            },
            _ => None,
        },
        None => None,
    }
}

/// Red, green and blue.
fn get_rgb(attrs: &Vec<(String, Json)>) -> (r: Option<(u8, u8, u8)>)
    ensures
        r == rgb_attr(json::members_view(attrs@)),
{
    match get_member(attrs, "rgb_color") {
        Some(j) => match j {
            Json::Array(a) => {
                proof {
                    json::lemma_items_view(a@);
                }
                if a.len() == 3 {
                    match (a[0].as_u64(), a[1].as_u64(), a[2].as_u64()) {
                        (Some(r), Some(g), Some(b)) => Some(
                            ((r % 256) as u8, (g % 256) as u8, (b % 256) as u8),
                        ),
                        _ => None,
                    }
                } else {
                    None
                }
            },
            _ => None,
        },
        None => None,
    }
}

/// A colour as `#rrggbb`.
fn rgb_hex_of(c: (u8, u8, u8)) -> (r: String)
    ensures
        r@ == rgb_text(c),
{
    let mut out: String = "#".to_owned();
    out.push(json::lower_hex_char((c.0 / 16) as u32));
    out.push(json::lower_hex_char((c.0 % 16) as u32));
    out.push(json::lower_hex_char((c.1 / 16) as u32));
    out.push(json::lower_hex_char((c.1 % 16) as u32));
    out.push(json::lower_hex_char((c.2 / 16) as u32));
    out.push(json::lower_hex_char((c.2 % 16) as u32));
    out
}

/// The value that a page shows of an entity: that of its state, or `unavailable`.
pub open spec fn shown_value(states: Map<Seq<char>, StateView>, id: Seq<char>) -> Seq<char> {
    match state_store::state_in(states, id) {
        Some(s) => s.state,
        None => "unavailable"@,
    }
}

/// The attributes that a page shows of an entity.
pub open spec fn shown_attributes(states: Map<Seq<char>, StateView>, id: Seq<char>) -> Members {
    match state_store::state_in(states, id) {
        Some(s) => s.attributes,
        None => json::no_members(),
    }
}

/// What pages show of an entity.
pub fn entity_view_for(
    entity: &ZigbeeEntityRecord,
    states: &StateStore,
    device_name: Option<String>,
) -> (r: EntityView)
    ensures
        ({
            let e = entity@;
            let value = shown_value(states@, e.entity_id);
            let attrs = shown_attributes(states@, e.entity_id);
            &&& r.entity_id == entity.entity_id
            &&& r.webhook_id is None
            &&& r.display_name@ == e.shown_name()
            &&& r.entity_type == entity.domain
            &&& r.icon_name@ == icon_of(e, value)
            &&& r.value@ == value
            &&& r.unit@ == text::or_empty(e.unit_of_measurement)
            &&& r.device_class@ == text::or_empty(e.device_class)
            &&& r.user_area_id@ == text::or_empty(e.user_area_id)
            &&& r.unit_of_measurement == entity.unit_of_measurement
            &&& !r.disabled
            &&& r.service_action@ == if e.domain == "light"@ || e.domain == "switch"@ {
                "toggle"@
            } else {
                ""@
            }
            &&& r.current_temperature is None
            &&& r.target_temperature is None
            &&& r.hvac_modes@.len() == 0
            &&& r.brightness == entity_view::level_attr(attrs, "brightness"@, 255)
            &&& r.color_temp_kelvin == entity_view::kelvin_attr(attrs, "color_temp_kelvin"@)
            &&& r.min_color_temp_kelvin == match entity_view::kelvin_attr(
                attrs,
                "min_color_temp_kelvin"@,
            ) {
                Some(k) => k,
                None => 2000,
            }
            &&& r.max_color_temp_kelvin == match entity_view::kelvin_attr(
                attrs,
                "max_color_temp_kelvin"@,
            ) {
                Some(k) => k,
                None => 6535,
            }
            &&& r.color_mode.deep_view() == entity_view::str_attr(attrs, "color_mode"@)
            &&& match r.hs_color {
                Some(p) => hs_attr(attrs) == Some((p.0@, p.1@)),
                None => hs_attr(attrs) is None,
            }
            &&& r.rgb_color == rgb_attr(attrs)
            &&& r.rgb_hex.deep_view() == match rgb_attr(attrs) {
                Some(c) => Some(rgb_text(c)),
                None => None,
            }
            &&& r.supported_color_modes.deep_view() == entity_view::texts_attr(
                attrs,
                "supported_color_modes"@,
            )
            &&& r.options@.len() == 0
            &&& r.current_position is None
            &&& r.fan_percentage is None
            &&& r.device_name == device_name
            &&& r.is_unavailable == (value == "unavailable"@ || value == "unknown"@)
        }),
{
    let (value, attrs): (String, Vec<(String, Json)>) = match states.get(
        entity.entity_id.as_str(),
    ) {
        Some(s) => (s.state, s.attributes),
        None => ("unavailable".to_owned(), Vec::new()),
    };
    let rgb_color: Option<(u8, u8, u8)> = get_rgb(&attrs);
    let rgb_hex: Option<String> = match rgb_color {
        Some(c) => Some(rgb_hex_of(c)),
        None => None,
    };
    let action: &str = if str_eq(entity.domain.as_str(), "light") || str_eq(
        entity.domain.as_str(),
        "switch",
    ) {
        "toggle"
    } else {
        ""
    };
    let is_unavailable: bool = str_eq(value.as_str(), "unavailable") || str_eq(
        value.as_str(),
        "unknown",
    );
    let icon: &str = icon_name(entity, value.as_str());
    EntityView {
        entity_id: entity.entity_id.clone(),
        webhook_id: None,
        display_name: entity.display_name(),
        entity_type: entity.domain.clone(),
        icon_name: icon.to_owned(),
        value,
        unit: text_or_empty(&entity.unit_of_measurement),
        device_class: text_or_empty(&entity.device_class),
        user_area_id: text_or_empty(&entity.user_area_id),
        unit_of_measurement: entity.unit_of_measurement.clone(),
        disabled: false,
        service_action: action.to_owned(),
        current_temperature: None,
        target_temperature: None,
        hvac_modes: Vec::new(),
        brightness: get_level(&attrs, "brightness", 255),
        color_temp_kelvin: get_kelvin(&attrs, "color_temp_kelvin"),
        min_color_temp_kelvin: match get_kelvin(&attrs, "min_color_temp_kelvin") {
            Some(k) => k,
            None => 2000,
        },
        max_color_temp_kelvin: match get_kelvin(&attrs, "max_color_temp_kelvin") {
            Some(k) => k,
            None => 6535,
        },
        color_mode: get_text(&attrs, "color_mode"),
        hs_color: get_hs(&attrs),
        rgb_color,
        rgb_hex,
        supported_color_modes: get_texts(&attrs, "supported_color_modes"),
        options: Vec::new(),
        current_position: None,
        fan_percentage: None,
        device_name,
        is_unavailable,
    }
}

} // verus!
